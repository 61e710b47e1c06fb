//! A growing grid of characters and the strokes that draw on it.

use vstd::prelude::*;
use vstd::string::StringSliceAdditionalSpecFns;

verus! {

/// A rectangle on the grid: its top-left corner and its size.
#[derive(Clone, Copy, Debug)]
pub struct Quad {
    pub x: usize,
    pub y: usize,
    pub width: usize,
    pub height: usize,
}

impl Quad {
    /// The rectangle with its top-left corner at `(x, y)`.
    pub fn new(x: usize, y: usize, width: usize, height: usize) -> (r: Quad)
        ensures
            r == (Quad { x, y, width, height }),
    {
        Quad { x, y, width, height }
    }
}

/// A row of `width` spaces.
pub open spec fn blank_row(width: nat) -> Seq<char> {
    Seq::new(width, |i: int| ' ')
}

/// The width of the first row, or zero where there is no row.
pub open spec fn first_width(grid: Seq<Seq<char>>) -> nat {
    if grid.len() == 0 {
        0
    } else {
        grid[0].len()
    }
}

/// The grid grown so that it holds the cell `(x, y)`: where row `y` is
/// missing, blank rows as wide as the first row are added below; where row
/// `y` is too short, it is filled up with spaces.
pub open spec fn expanded(grid: Seq<Seq<char>>, x: int, y: int) -> Seq<Seq<char>> {
    let tall = if y >= grid.len() {
        grid + Seq::new((y + 1 - grid.len()) as nat, |r: int| blank_row(first_width(grid)))
    } else {
        grid
    };
    let row = tall[y];
    let wide = if x >= row.len() {
        row + blank_row((x + 1 - row.len()) as nat)
    } else {
        row
    };
    tall.update(y, wide)
}

/// The grid, grown to hold `(x, y)`, with the character written there.
pub open spec fn placed(grid: Seq<Seq<char>>, x: int, y: int, character: char) -> Seq<Seq<char>> {
    let grown = expanded(grid, x, y);
    grown.update(y, grown[y].update(x, character))
}

/// The rows joined by line breaks: the first `n` rows of the grid.
pub open spec fn joined(grid: Seq<Seq<char>>, n: nat) -> Seq<char>
    decreases n,
{
    if n == 0 {
        Seq::empty()
    } else if n == 1 {
        grid[0]
    } else {
        joined(grid, (n - 1) as nat).push('\n') + grid[n - 1]
    }
}

/// What a vertical stroke leaves on a cell: it crosses a horizontal line
/// that is there, and else replaces what is there.
pub open spec fn vertical_stroke_spec(existing: char, thick: bool) -> char {
    if existing == '─' {
        if thick {
            '╫'
        } else {
            '┼'
        }
    } else if existing == '═' {
        if thick {
            '║'
        } else {
            '╫'
        }
    } else {
        if thick {
            '║'
        } else {
            '│'
        }
    }
}

/// What a horizontal stroke leaves on a cell: it crosses a vertical line
/// that is there, and else replaces what is there.
pub open spec fn horizontal_stroke_spec(existing: char, thick: bool) -> char {
    if existing == '│' {
        if thick {
            '╪'
        } else {
            '┼'
        }
    } else if existing == '║' {
        if thick {
            '║'
        } else {
            '╫'
        }
    } else {
        if thick {
            '═'
        } else {
            '─'
        }
    }
}

/// The grid after the first `n` characters of a text are written from
/// `(x, y)` to the right, each byte of the text as the character of its value.
pub open spec fn text_strokes(grid: Seq<Seq<char>>, x: int, y: int, bytes: Seq<u8>, n: nat) -> Seq<
    Seq<char>,
>
    decreases n,
{
    if n == 0 {
        grid
    } else {
        placed(text_strokes(grid, x, y, bytes, (n - 1) as nat), x + n - 1, y, bytes[n - 1] as char)
    }
}

/// The grid after a text is drawn from `(x, y)` to the right.
pub open spec fn text_drawn(grid: Seq<Seq<char>>, x: int, y: int, bytes: Seq<u8>) -> Seq<Seq<char>> {
    text_strokes(expanded(grid, x + bytes.len(), y), x, y, bytes, bytes.len())
}

/// The grid after the first `n` cells of a vertical line from `(x, y)`
/// downwards are stroked.
pub open spec fn vertical_strokes(grid: Seq<Seq<char>>, x: int, y: int, n: nat, thick: bool) -> Seq<
    Seq<char>,
>
    decreases n,
{
    if n == 0 {
        grid
    } else {
        let above = vertical_strokes(grid, x, y, (n - 1) as nat, thick);
        let row = y + n - 1;
        placed(above, x, row, vertical_stroke_spec(expanded(above, x, row)[row][x], thick))
    }
}

/// The grid after a vertical line of `height` cells is drawn from `(x, y)`
/// downwards.
pub open spec fn vline_drawn(grid: Seq<Seq<char>>, x: int, y: int, height: nat, thick: bool) -> Seq<
    Seq<char>,
> {
    vertical_strokes(expanded(grid, x, y + height), x, y, height, thick)
}

/// The grid after the first `n` cells of a horizontal line from `(x, y)` to
/// the right are stroked.
pub open spec fn horizontal_strokes(
    grid: Seq<Seq<char>>,
    x: int,
    y: int,
    n: nat,
    thick: bool,
) -> Seq<Seq<char>>
    decreases n,
{
    if n == 0 {
        grid
    } else {
        let left = horizontal_strokes(grid, x, y, (n - 1) as nat, thick);
        let col = x + n - 1;
        placed(left, col, y, horizontal_stroke_spec(expanded(left, col, y)[y][col], thick))
    }
}

/// The grid after a horizontal line of `width` cells is drawn from `(x, y)`
/// to the right.
pub open spec fn hline_drawn(grid: Seq<Seq<char>>, x: int, y: int, width: nat, thick: bool) -> Seq<
    Seq<char>,
> {
    horizontal_strokes(expanded(grid, x + width, y), x, y, width, thick)
}

/// The grid after the cell `(x, y)` of a rectangle's area is drawn: a corner
/// piece on a corner, a stroke on an edge, and nothing inside.
pub open spec fn quad_cell(grid: Seq<Seq<char>>, quad: Quad, x: int, y: int, thick: bool) -> Seq<
    Seq<char>,
> {
    let right = quad.x + quad.width - 1;
    let bottom = quad.y + quad.height - 1;
    if x == quad.x && y == quad.y {
        placed(
            grid,
            x,
            y,
            if thick {
                '╔'
            } else {
                '┌'
            },
        )
    } else if x == right && y == quad.y {
        placed(
            grid,
            x,
            y,
            if thick {
                '╗'
            } else {
                '┐'
            },
        )
    } else if x == quad.x && y == bottom {
        placed(
            grid,
            x,
            y,
            if thick {
                '╚'
            } else {
                '└'
            },
        )
    } else if x == right && y == bottom {
        placed(
            grid,
            x,
            y,
            if thick {
                '╝'
            } else {
                '┘'
            },
        )
    } else if y == quad.y || y == bottom {
        hline_drawn(grid, x, y, 1, thick)
    } else if x == quad.x || x == right {
        vline_drawn(grid, x, y, 1, thick)
    } else {
        grid
    }
}

/// The grid after the first `n` cells, from the top, of column `x` of a
/// rectangle's area are drawn.
pub open spec fn quad_column(grid: Seq<Seq<char>>, quad: Quad, x: int, n: nat, thick: bool) -> Seq<
    Seq<char>,
>
    decreases n,
{
    if n == 0 {
        grid
    } else {
        quad_cell(quad_column(grid, quad, x, (n - 1) as nat, thick), quad, x, quad.y + n - 1, thick)
    }
}

/// The grid after the first `n` columns, from the left, of a rectangle's
/// area are drawn.
pub open spec fn quad_columns(grid: Seq<Seq<char>>, quad: Quad, n: nat, thick: bool) -> Seq<
    Seq<char>,
>
    decreases n,
{
    if n == 0 {
        grid
    } else {
        quad_column(
            quad_columns(grid, quad, (n - 1) as nat, thick),
            quad,
            quad.x + n - 1,
            quad.height as nat,
            thick,
        )
    }
}

/// The grid after a rectangle's outline is drawn.
pub open spec fn quad_drawn(grid: Seq<Seq<char>>, quad: Quad, thick: bool) -> Seq<Seq<char>> {
    quad_columns(
        expanded(grid, quad.x + quad.width, quad.y + quad.height),
        quad,
        quad.width as nat,
        thick,
    )
}

/// Where a point lies as seen from the centre of a rectangle.
#[derive(Clone, Copy, Debug, PartialEq, Eq, Structural)]
pub enum Direction {
    Bottom,
    BottomLeft,
    BottomRight,
    Top,
    TopLeft,
    TopRight,
    Right,
    Left,
    Center,
}

/// Half of `start + size`, rounded up: the centre coordinate that
/// connections are drawn from.
pub open spec fn center_spec(start: usize, size: usize) -> int {
    (start + size) / 2 + (start + size) % 2
}

/// Where the point lies as seen from the rectangle's centre.
pub open spec fn direction_spec(quad: Quad, point_x: usize, point_y: usize) -> Direction {
    let center_x = center_spec(quad.x, quad.width);
    let center_y = center_spec(quad.y, quad.height);
    if point_y > center_y && point_x == center_x {
        Direction::Bottom
    } else if point_y > center_y && point_x < center_x {
        Direction::BottomLeft
    } else if point_y > center_y && point_x > center_x {
        Direction::BottomRight
    } else if point_y < center_y && point_x == center_x {
        Direction::Top
    } else if point_y < center_y && point_x < center_x {
        Direction::TopLeft
    } else if point_y < center_y && point_x > center_x {
        Direction::TopRight
    } else if point_x > center_x && point_y == center_y {
        Direction::Right
    } else if point_x < center_x && point_y == center_y {
        Direction::Left
    } else {
        Direction::Center
    }
}

/// The cell on the rectangle's outline where a connection in the given
/// direction starts.
pub open spec fn edge_midpoint_spec(quad: Quad, direction: Direction) -> (int, int) {
    let center_x = center_spec(quad.x, quad.width);
    let center_y = center_spec(quad.y, quad.height);
    match direction {
        Direction::Bottom | Direction::BottomLeft | Direction::BottomRight => (
            center_x,
            quad.y + quad.height - 1,
        ),
        Direction::Top | Direction::TopLeft | Direction::TopRight => (center_x, quad.y as int),
        Direction::Right => (quad.x + quad.width - 1, center_y),
        Direction::Left => (quad.x as int, center_y),
        Direction::Center => (0, 0),
    }
}

/// The junction piece that replaces the outline where a connection starts.
pub open spec fn junction_spec(direction: Direction, existing: char) -> char {
    match direction {
        Direction::Bottom | Direction::BottomLeft | Direction::BottomRight => if existing == '─' {
            '┬'
        } else {
            '╤'
        },
        Direction::Top | Direction::TopLeft | Direction::TopRight => if existing == '─' {
            '┴'
        } else {
            '╧'
        },
        Direction::Right => if existing == '│' {
            '├'
        } else {
            '╟'
        },
        Direction::Left => if existing == '│' {
            '┤'
        } else {
            '╢'
        },
        Direction::Center => existing,
    }
}

/// The point can be connected to the rectangle: it lies outside the
/// rectangle on the side that its direction names, so that the connecting
/// line has a length that is not negative.
pub open spec fn connectable(quad: Quad, point_x: usize, point_y: usize) -> bool {
    match direction_spec(quad, point_x, point_y) {
        Direction::Bottom | Direction::BottomLeft | Direction::BottomRight => {
            quad.y + quad.height >= 1 && point_y >= quad.y + quad.height
        },
        Direction::Top => point_y <= quad.y,
        Direction::TopLeft | Direction::TopRight => point_y < quad.y,
        Direction::Right => quad.x + quad.width >= 1 && point_x >= quad.x + quad.width,
        Direction::Left => point_x < quad.x,
        Direction::Center => true,
    }
}

/// The grid after the junction piece is set on the rectangle's outline.
pub open spec fn junction_set(grid: Seq<Seq<char>>, quad: Quad, direction: Direction) -> Seq<
    Seq<char>,
> {
    if direction == Direction::Center {
        grid
    } else {
        let (x, y) = edge_midpoint_spec(quad, direction);
        placed(grid, x, y, junction_spec(direction, expanded(grid, x, y)[y][x]))
    }
}

/// The grid after the line from the rectangle's outline to the point is
/// drawn: straight where the point lies straight above, below or beside the
/// centre, and else with one bend on the point's row.
pub open spec fn line_drawn(
    grid: Seq<Seq<char>>,
    quad: Quad,
    direction: Direction,
    point_x: usize,
    point_y: usize,
) -> Seq<Seq<char>> {
    let center_x = center_spec(quad.x, quad.width);
    let (edge_x, edge_y) = edge_midpoint_spec(quad, direction);
    match direction {
        Direction::Top => vline_drawn(
            grid,
            edge_x,
            point_y as int,
            (edge_y - point_y) as nat,
            false,
        ),
        Direction::Bottom => vline_drawn(
            grid,
            edge_x,
            edge_y + 1,
            (point_y - edge_y - 1) as nat,
            false,
        ),
        Direction::Right => hline_drawn(
            grid,
            edge_x + 1,
            edge_y,
            (point_x - edge_x - 1) as nat,
            false,
        ),
        Direction::Left => hline_drawn(
            grid,
            point_x + 1,
            edge_y,
            (edge_x - point_x - 1) as nat,
            false,
        ),
        Direction::BottomRight => vline_drawn(
            hline_drawn(
                placed(grid, center_x, point_y as int, '└'),
                center_x + 1,
                point_y as int,
                (point_x - center_x - 1) as nat,
                false,
            ),
            edge_x,
            edge_y + 1,
            (point_y - edge_y - 1) as nat,
            false,
        ),
        Direction::BottomLeft => vline_drawn(
            hline_drawn(
                placed(grid, center_x, point_y as int, '┘'),
                point_x as int,
                point_y as int,
                (center_x - point_x) as nat,
                false,
            ),
            edge_x,
            edge_y + 1,
            (point_y - edge_y - 1) as nat,
            false,
        ),
        Direction::TopRight => vline_drawn(
            hline_drawn(
                placed(grid, center_x, point_y as int, '┌'),
                center_x + 1,
                point_y as int,
                (point_x - center_x - 1) as nat,
                false,
            ),
            edge_x,
            point_y + 1,
            (edge_y - point_y - 1) as nat,
            false,
        ),
        Direction::TopLeft => vline_drawn(
            hline_drawn(
                placed(grid, center_x, point_y as int, '┐'),
                point_x as int,
                point_y as int,
                (center_x - point_x) as nat,
                false,
            ),
            edge_x,
            point_y + 1,
            (edge_y - point_y - 1) as nat,
            false,
        ),
        Direction::Center => grid,
    }
}

/// The grid after a rectangle is connected to a point: the junction piece,
/// the line, and the point's own mark.
pub open spec fn connected(grid: Seq<Seq<char>>, quad: Quad, point_x: usize, point_y: usize) -> Seq<
    Seq<char>,
> {
    let direction = direction_spec(quad, point_x, point_y);
    placed(
        line_drawn(junction_set(grid, quad, direction), quad, direction, point_x, point_y),
        point_x as int,
        point_y as int,
        '■',
    )
}

/// Growing a grid that already holds the cell changes nothing.
pub proof fn lemma_expanded_twice(grid: Seq<Seq<char>>, x: int, y: int)
    requires
        0 <= x,
        0 <= y,
    ensures
        y < expanded(grid, x, y).len(),
        x < expanded(grid, x, y)[y].len(),
        expanded(expanded(grid, x, y), x, y) == expanded(grid, x, y),
        forall|character: char|
            placed(expanded(grid, x, y), x, y, character) == placed(grid, x, y, character),
{
}

/// A grid of characters that grows as cells beyond its edges are used.
pub struct CLIRenderer {
    buffer: Vec<Vec<char>>,
}

impl View for CLIRenderer {
    type V = Seq<Seq<char>>;

    closed spec fn view(&self) -> Seq<Seq<char>> {
        Seq::new(self.buffer@.len(), |r: int| self.buffer@[r]@)
    }
}

/// A row of `width` spaces.
fn spaces(width: usize) -> (row: Vec<char>)
    ensures
        row@ == blank_row(width as nat),
{
    let mut row: Vec<char> = Vec::with_capacity(width);
    let mut i: usize = 0;
    while i < width
        invariant
            i <= width,
            row@.len() == i,
            forall|p: int| 0 <= p < i ==> row@[p] == ' ',
        decreases width - i,
    {
        row.push(' ');
        i += 1;
    }
    row
}

impl CLIRenderer {
    /// A grid of one blank row of the given width.
    pub fn new(width: usize) -> (r: CLIRenderer)
        ensures
            r@ == seq![blank_row(width as nat)],
    {
        let mut buffer: Vec<Vec<char>> = Vec::with_capacity(1);
        buffer.push(spaces(width));
        let renderer = CLIRenderer { buffer };
        renderer
    }

    /// Grows the grid so that it holds the cell `(x, y)`.
    fn expand(&mut self, x: usize, y: usize)
        requires
            x < usize::MAX,
            y < usize::MAX,
        ensures
            final(self)@ == expanded(old(self)@, x as int, y as int),
            y < final(self).buffer@.len(),
            x < final(self).buffer@[y as int]@.len(),
    {
        let ghost before = self@;
        if y >= self.buffer.len() {
            let width = if self.buffer.len() == 0 {
                0
            } else {
                self.buffer[0].len()
            };
            while self.buffer.len() <= y
                invariant
                    y < usize::MAX,
                    before.len() <= self.buffer@.len() <= y + 1,
                    width == first_width(before),
                    forall|r: int| 0 <= r < before.len() ==> self.buffer@[r]@ == before[r],
                    forall|r: int|
                        before.len() <= r < self.buffer@.len() ==> self.buffer@[r]@ == blank_row(
                            width as nat,
                        ),
                decreases y + 1 - self.buffer@.len(),
            {
                self.buffer.push(spaces(width));
            }
        }
        let ghost tall = self@;
        proof {
            if y >= before.len() {
                assert(tall =~= before + Seq::new(
                    (y + 1 - before.len()) as nat,
                    |r: int| blank_row(first_width(before)),
                ));
            }
        }
        while self.buffer[y].len() <= x
            invariant
                x < usize::MAX,
                y < self.buffer@.len(),
                self.buffer@.len() == tall.len(),
                forall|r: int| 0 <= r < tall.len() && r != y ==> self.buffer@[r]@ == tall[r],
                tall[y as int].len() <= self.buffer@[y as int]@.len(),
                self.buffer@[y as int]@.len() <= x + 1 || self.buffer@[y as int]@ == tall[y as int],
                forall|p: int|
                    0 <= p < tall[y as int].len() ==> self.buffer@[y as int]@[p] == tall[y as int][p],
                forall|p: int|
                    tall[y as int].len() <= p < self.buffer@[y as int]@.len()
                        ==> self.buffer@[y as int]@[p] == ' ',
            decreases x + 1 - self.buffer@[y as int]@.len(),
        {
            self.buffer[y].push(' ');
        }
        proof {
            let row = tall[y as int];
            if x >= row.len() {
                assert(self.buffer@[y as int]@ =~= row + blank_row((x + 1 - row.len()) as nat));
            } else {
                assert(self.buffer@[y as int]@ =~= row);
            }
        }
    }

    /// Writes a character at `(x, y)`, growing the grid where needed.
    pub fn place(&mut self, x: usize, y: usize, character: char)
        requires
            x < usize::MAX,
            y < usize::MAX,
        ensures
            final(self)@ == placed(old(self)@, x as int, y as int, character),
    {
        self.expand(x, y);
        self.buffer[y][x] = character;
    }

    /// Reads the character at `(x, y)`, growing the grid where needed.
    pub fn get(&mut self, x: usize, y: usize) -> (character: char)
        requires
            x < usize::MAX,
            y < usize::MAX,
        ensures
            final(self)@ == expanded(old(self)@, x as int, y as int),
            character == final(self)@[y as int][x as int],
    {
        self.expand(x, y);
        self.buffer[y][x]
    }

    /// The rows of the grid, joined by line breaks.
    pub fn to_string(&self) -> (text: String)
        ensures
            text@ == joined(self@, self@.len()),
    {
        let mut text = String::new();
        let rows = self.buffer.len();
        let mut r: usize = 0;
        while r < rows
            invariant
                rows == self.buffer@.len(),
                r <= rows,
                text@ == joined(self@, r as nat),
            decreases rows - r,
        {
            if r > 0 {
                push_char(&mut text, '\n');
            }
            let ghost start = text@;
            let length = self.buffer[r].len();
            let mut c: usize = 0;
            while c < length
                invariant
                    r < self.buffer@.len(),
                    length == self.buffer@[r as int]@.len(),
                    c <= length,
                    text@ == start + self.buffer@[r as int]@.subrange(0, c as int),
                decreases length - c,
            {
                push_char(&mut text, self.buffer[r][c]);
                proof {
                    assert(self.buffer@[r as int]@.subrange(0, c + 1) =~= self.buffer@[r as int]@.subrange(
                        0,
                        c as int,
                    ).push(self.buffer@[r as int]@[c as int]));
                }
                c += 1;
            }
            proof {
                if r == 0 {
                }
            }
            r += 1;
        }
        text
    }

    /// Writes a text from `(x, y)` to the right.
    pub fn draw_text(&mut self, x: usize, y: usize, text: &'static str)
        requires
            x + text.spec_bytes().len() < usize::MAX,
            y < usize::MAX,
        ensures
            final(self)@ == text_drawn(old(self)@, x as int, y as int, text.spec_bytes()),
    {
        let bytes = text.as_bytes();
        let length = bytes.len();
        self.expand(x + length, y);
        let ghost grown = self@;
        let mut i: usize = 0;
        while i < length
            invariant
                bytes@ == text.spec_bytes(),
                length == bytes@.len(),
                x + length < usize::MAX,
                y < usize::MAX,
                i <= length,
                self@ == text_strokes(grown, x as int, y as int, bytes@, i as nat),
            decreases length - i,
        {
            self.place(x + i, y, bytes[i] as char);
            i += 1;
        }
    }

    /// Draws a vertical line of `height` cells from `(x, y)` downwards.
    pub fn draw_vline(&mut self, x: usize, y: usize, height: usize, thick: bool)
        requires
            x < usize::MAX,
            y + height < usize::MAX,
        ensures
            final(self)@ == vline_drawn(old(self)@, x as int, y as int, height as nat, thick),
    {
        self.expand(x, y + height);
        let ghost grown = self@;
        let mut n: usize = 0;
        while n < height
            invariant
                x < usize::MAX,
                y + height < usize::MAX,
                n <= height,
                self@ == vertical_strokes(grown, x as int, y as int, n as nat, thick),
            decreases height - n,
        {
            let ghost above = self@;
            let existing = self.get(x, y + n);
            proof {
                lemma_expanded_twice(above, x as int, y + n);
            }
            self.place(x, y + n, vertical_stroke(existing, thick));
            n += 1;
        }
    }

    /// Draws a horizontal line of `width` cells from `(x, y)` to the right.
    pub fn draw_hline(&mut self, x: usize, y: usize, width: usize, thick: bool)
        requires
            x + width < usize::MAX,
            y < usize::MAX,
        ensures
            final(self)@ == hline_drawn(old(self)@, x as int, y as int, width as nat, thick),
    {
        self.expand(x + width, y);
        let ghost grown = self@;
        let mut n: usize = 0;
        while n < width
            invariant
                x + width < usize::MAX,
                y < usize::MAX,
                n <= width,
                self@ == horizontal_strokes(grown, x as int, y as int, n as nat, thick),
            decreases width - n,
        {
            let ghost left = self@;
            let existing = self.get(x + n, y);
            proof {
                lemma_expanded_twice(left, x + n, y as int);
            }
            self.place(x + n, y, horizontal_stroke(existing, thick));
            n += 1;
        }
    }

    /// Draws the outline of a rectangle.
    pub fn draw_quad(&mut self, quad: Quad, thick: bool)
        requires
            quad.x + quad.width < usize::MAX,
            quad.y + quad.height < usize::MAX,
        ensures
            final(self)@ == quad_drawn(old(self)@, quad, thick),
    {
        self.expand(quad.x + quad.width, quad.y + quad.height);
        let ghost grown = self@;
        let mut m: usize = 0;
        while m < quad.width
            invariant
                quad.x + quad.width < usize::MAX,
                quad.y + quad.height < usize::MAX,
                m <= quad.width,
                self@ == quad_columns(grown, quad, m as nat, thick),
            decreases quad.width - m,
        {
            let ghost left = self@;
            let x = quad.x + m;
            let mut n: usize = 0;
            while n < quad.height
                invariant
                    quad.x + quad.width < usize::MAX,
                    quad.y + quad.height < usize::MAX,
                    m < quad.width,
                    x == quad.x + m,
                    n <= quad.height,
                    self@ == quad_column(left, quad, x as int, n as nat, thick),
                decreases quad.height - n,
            {
                let y = quad.y + n;
                let right = quad.x + quad.width - 1;
                let bottom = quad.y + quad.height - 1;
                if x == quad.x && y == quad.y {
                    self.place(
                        x,
                        y,
                        if thick {
                            '╔'
                        } else {
                            '┌'
                        },
                    );
                } else if x == right && y == quad.y {
                    self.place(
                        x,
                        y,
                        if thick {
                            '╗'
                        } else {
                            '┐'
                        },
                    );
                } else if x == quad.x && y == bottom {
                    self.place(
                        x,
                        y,
                        if thick {
                            '╚'
                        } else {
                            '└'
                        },
                    );
                } else if x == right && y == bottom {
                    self.place(
                        x,
                        y,
                        if thick {
                            '╝'
                        } else {
                            '┘'
                        },
                    );
                } else if y == quad.y || y == bottom {
                    self.draw_hline(x, y, 1, thick);
                } else if x == quad.x || x == right {
                    self.draw_vline(x, y, 1, thick);
                }
                n += 1;
            }
            m += 1;
        }
    }
}

impl CLIRenderer {
    /// Connects a rectangle to a point by a line that starts on the
    /// rectangle's outline and ends in a mark on the point.
    pub fn connect(&mut self, quad: Quad, point: (usize, usize))
        requires
            quad.x + quad.width < usize::MAX,
            quad.y + quad.height < usize::MAX,
            point.0 < usize::MAX,
            point.1 < usize::MAX,
            connectable(quad, point.0, point.1),
        ensures
            final(self)@ == connected(old(self)@, quad, point.0, point.1),
    {
        let center_x = center(quad.x, quad.width);
        let center_y = center(quad.y, quad.height);
        let point_x = point.0;
        let point_y = point.1;
        let direction = direction_of(quad, point_x, point_y);
        let mut edge_x: usize = 0;
        let mut edge_y: usize = 0;
        match direction {
            Direction::Bottom | Direction::BottomLeft | Direction::BottomRight => {
                edge_x = center_x;
                edge_y = quad.y + quad.height - 1;
            },
            Direction::Top | Direction::TopLeft | Direction::TopRight => {
                edge_x = center_x;
                edge_y = quad.y;
            },
            Direction::Right => {
                edge_x = quad.x + quad.width - 1;
                edge_y = center_y;
            },
            Direction::Left => {
                edge_x = quad.x;
                edge_y = center_y;
            },
            Direction::Center => {},
        }
        let ghost before = self@;
        match direction {
            Direction::Center => {},
            _ => {
                let existing = self.get(edge_x, edge_y);
                proof {
                    lemma_expanded_twice(before, edge_x as int, edge_y as int);
                }
                self.place(edge_x, edge_y, junction(direction, existing));
            },
        }
        match direction {
            Direction::Top => {
                self.draw_vline(edge_x, point_y, edge_y - point_y, false);
            },
            Direction::Bottom => {
                self.draw_vline(edge_x, edge_y + 1, point_y - edge_y - 1, false);
            },
            Direction::Right => {
                self.draw_hline(edge_x + 1, edge_y, point_x - edge_x - 1, false);
            },
            Direction::Left => {
                self.draw_hline(point_x + 1, edge_y, edge_x - point_x - 1, false);
            },
            Direction::BottomRight => {
                self.place(center_x, point_y, '└');
                self.draw_hline(center_x + 1, point_y, point_x - center_x - 1, false);
                self.draw_vline(edge_x, edge_y + 1, point_y - edge_y - 1, false);
            },
            Direction::BottomLeft => {
                self.place(center_x, point_y, '┘');
                self.draw_hline(point_x, point_y, center_x - point_x, false);
                self.draw_vline(edge_x, edge_y + 1, point_y - edge_y - 1, false);
            },
            Direction::TopRight => {
                self.place(center_x, point_y, '┌');
                self.draw_hline(center_x + 1, point_y, point_x - center_x - 1, false);
                self.draw_vline(edge_x, point_y + 1, edge_y - point_y - 1, false);
            },
            Direction::TopLeft => {
                self.place(center_x, point_y, '┐');
                self.draw_hline(point_x, point_y, center_x - point_x, false);
                self.draw_vline(edge_x, point_y + 1, edge_y - point_y - 1, false);
            },
            Direction::Center => {},
        }
        self.place(point_x, point_y, '■');
    }
}

/// Half of `start + size`, rounded up.
pub fn center(start: usize, size: usize) -> (r: usize)
    requires
        start + size <= usize::MAX,
    ensures
        r == center_spec(start, size),
        r <= start + size,
{
    let sum = start + size;
    sum / 2 + sum % 2
}

/// Where the point lies as seen from the rectangle's centre.
pub fn direction_of(quad: Quad, point_x: usize, point_y: usize) -> (r: Direction)
    requires
        quad.x + quad.width <= usize::MAX,
        quad.y + quad.height <= usize::MAX,
    ensures
        r == direction_spec(quad, point_x, point_y),
{
    let center_x = center(quad.x, quad.width);
    let center_y = center(quad.y, quad.height);
    if point_y > center_y && point_x == center_x {
        Direction::Bottom
    } else if point_y > center_y && point_x < center_x {
        Direction::BottomLeft
    } else if point_y > center_y && point_x > center_x {
        Direction::BottomRight
    } else if point_y < center_y && point_x == center_x {
        Direction::Top
    } else if point_y < center_y && point_x < center_x {
        Direction::TopLeft
    } else if point_y < center_y && point_x > center_x {
        Direction::TopRight
    } else if point_x > center_x && point_y == center_y {
        Direction::Right
    } else if point_x < center_x && point_y == center_y {
        Direction::Left
    } else {
        Direction::Center
    }
}

/// The junction piece that replaces the outline where a connection starts.
pub fn junction(direction: Direction, existing: char) -> (r: char)
    ensures
        r == junction_spec(direction, existing),
{
    match direction {
        Direction::Bottom | Direction::BottomLeft | Direction::BottomRight => if existing == '─' {
            '┬'
        } else {
            '╤'
        },
        Direction::Top | Direction::TopLeft | Direction::TopRight => if existing == '─' {
            '┴'
        } else {
            '╧'
        },
        Direction::Right => if existing == '│' {
            '├'
        } else {
            '╟'
        },
        Direction::Left => if existing == '│' {
            '┤'
        } else {
            '╢'
        },
        Direction::Center => existing,
    }
}

/// What a vertical stroke leaves on a cell.
pub fn vertical_stroke(existing: char, thick: bool) -> (r: char)
    ensures
        r == vertical_stroke_spec(existing, thick),
{
    if existing == '─' {
        if thick {
            '╫'
        } else {
            '┼'
        }
    } else if existing == '═' {
        if thick {
            '║'
        } else {
            '╫'
        }
    } else {
        if thick {
            '║'
        } else {
            '│'
        }
    }
}

/// What a horizontal stroke leaves on a cell.
pub fn horizontal_stroke(existing: char, thick: bool) -> (r: char)
    ensures
        r == horizontal_stroke_spec(existing, thick),
{
    if existing == '│' {
        if thick {
            '╪'
        } else {
            '┼'
        }
    } else if existing == '║' {
        if thick {
            '║'
        } else {
            '╫'
        }
    } else {
        if thick {
            '═'
        } else {
            '─'
        }
    }
}

/// Appends one character to a string, as `String::push` of the standard
/// library does: the string's characters are then the old ones followed by
/// the new one.
#[verifier::external_body]
fn push_char(text: &mut String, character: char)
    ensures
        final(text)@ == old(text)@.push(character),
{
    text.push(character);
}

} // verus!
