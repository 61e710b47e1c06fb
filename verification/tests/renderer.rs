use libpsi::visualizer::renderer::{center, direction_of, horizontal_stroke, junction, vertical_stroke};
use libpsi::{CLIRenderer, Direction, Quad};

#[test]
fn quad_new_keeps_its_fields() {
    let quad = Quad::new(1, 2, 3, 4);
    assert_eq!((quad.x, quad.y, quad.width, quad.height), (1, 2, 3, 4));
}

#[test]
fn renderer_starts_with_one_blank_row() {
    assert_eq!(CLIRenderer::new(4).to_string(), "    ");
    assert_eq!(CLIRenderer::new(0).to_string(), "");
}

#[test]
fn place_writes_inside_the_grid() {
    let mut renderer = CLIRenderer::new(3);
    renderer.place(1, 0, 'x');
    assert_eq!(renderer.to_string(), " x ");
}

#[test]
fn place_grows_the_grid() {
    let mut renderer = CLIRenderer::new(2);
    renderer.place(4, 2, 'z');
    assert_eq!(renderer.to_string(), "  \n  \n    z");
    renderer.place(3, 1, 'y');
    assert_eq!(renderer.to_string(), "  \n   y\n    z");
}

#[test]
fn get_reads_and_grows() {
    let mut renderer = CLIRenderer::new(2);
    renderer.place(0, 0, 'a');
    assert_eq!(renderer.get(0, 0), 'a');
    assert_eq!(renderer.get(3, 1), ' ');
    assert_eq!(renderer.to_string(), "a \n    ");
}

#[test]
fn text_is_written_to_the_right() {
    let mut renderer = CLIRenderer::new(1);
    renderer.draw_text(2, 1, "q0:");
    assert_eq!(renderer.to_string(), " \n  q0: ");
    renderer.draw_text(0, 0, "");
    assert_eq!(renderer.to_string(), " \n  q0: ");
}

#[test]
fn text_bytes_become_characters_of_their_value() {
    let mut renderer = CLIRenderer::new(0);
    renderer.draw_text(0, 0, "é");
    assert_eq!(renderer.to_string(), "\u{c3}\u{a9} ");
}

#[test]
fn strokes_cross_the_lines_they_meet() {
    assert_eq!(vertical_stroke(' ', false), '│');
    assert_eq!(vertical_stroke(' ', true), '║');
    assert_eq!(vertical_stroke('─', false), '┼');
    assert_eq!(vertical_stroke('─', true), '╫');
    assert_eq!(vertical_stroke('═', false), '╫');
    assert_eq!(vertical_stroke('═', true), '║');
    assert_eq!(horizontal_stroke(' ', false), '─');
    assert_eq!(horizontal_stroke(' ', true), '═');
    assert_eq!(horizontal_stroke('│', false), '┼');
    assert_eq!(horizontal_stroke('│', true), '╪');
    assert_eq!(horizontal_stroke('║', false), '╫');
    assert_eq!(horizontal_stroke('║', true), '║');
}

#[test]
fn vertical_line_goes_down() {
    let mut renderer = CLIRenderer::new(3);
    renderer.draw_vline(1, 0, 2, false);
    assert_eq!(renderer.to_string(), " │ \n │ \n   ");
    let mut thick = CLIRenderer::new(1);
    thick.draw_vline(0, 1, 1, true);
    assert_eq!(thick.to_string(), " \n║\n ");
}

#[test]
fn horizontal_line_goes_right() {
    let mut renderer = CLIRenderer::new(1);
    renderer.draw_hline(1, 0, 3, false);
    assert_eq!(renderer.to_string(), " ─── ");
    let mut thick = CLIRenderer::new(0);
    thick.draw_hline(0, 0, 2, true);
    assert_eq!(thick.to_string(), "══ ");
}

#[test]
fn lines_of_no_length_only_grow_the_grid() {
    let mut renderer = CLIRenderer::new(1);
    renderer.draw_hline(2, 1, 0, false);
    assert_eq!(renderer.to_string(), " \n   ");
    renderer.draw_vline(0, 2, 0, true);
    assert_eq!(renderer.to_string(), " \n   \n ");
}

#[test]
fn crossing_lines_meet_in_a_cross() {
    let mut renderer = CLIRenderer::new(3);
    renderer.draw_hline(0, 1, 3, false);
    renderer.draw_vline(1, 0, 3, false);
    assert_eq!(renderer.to_string(), " │ \n─┼─ \n │ \n   ");
    let mut other = CLIRenderer::new(3);
    other.draw_vline(1, 0, 3, false);
    other.draw_hline(0, 1, 3, true);
    assert_eq!(other.to_string(), " │ \n═╪═ \n │ \n   ");
}

#[test]
fn quad_outline() {
    let mut renderer = CLIRenderer::new(0);
    renderer.draw_quad(Quad::new(0, 0, 4, 3), false);
    assert_eq!(renderer.to_string(), "┌──┐\n│  │\n└──┘\n     ");
    let mut thick = CLIRenderer::new(0);
    thick.draw_quad(Quad::new(1, 1, 3, 3), true);
    assert_eq!(thick.to_string(), "\n ╔═╗\n ║ ║\n ╚═╝\n     ");
}

#[test]
fn quad_of_no_area_only_grows_the_grid() {
    let mut renderer = CLIRenderer::new(1);
    renderer.draw_quad(Quad::new(1, 1, 0, 2), false);
    assert_eq!(renderer.to_string(), " \n \n \n  ");
}

#[test]
fn quad_of_one_cell_is_its_top_left_corner() {
    let mut renderer = CLIRenderer::new(0);
    renderer.draw_quad(Quad::new(0, 0, 1, 1), false);
    assert_eq!(renderer.to_string(), "┌\n  ");
}

#[test]
fn centre_is_half_rounded_up() {
    assert_eq!(center(0, 0), 0);
    assert_eq!(center(0, 3), 2);
    assert_eq!(center(2, 4), 3);
    assert_eq!(center(1, 4), 3);
    assert_eq!(center(usize::MAX - 1, 1), usize::MAX / 2 + 1);
}

#[test]
fn directions_as_seen_from_the_centre() {
    let quad = Quad::new(0, 0, 4, 4);
    assert_eq!(direction_of(quad, 2, 5), Direction::Bottom);
    assert_eq!(direction_of(quad, 0, 5), Direction::BottomLeft);
    assert_eq!(direction_of(quad, 7, 5), Direction::BottomRight);
    assert_eq!(direction_of(quad, 2, 0), Direction::Top);
    assert_eq!(direction_of(quad, 1, 1), Direction::TopLeft);
    assert_eq!(direction_of(quad, 3, 1), Direction::TopRight);
    assert_eq!(direction_of(quad, 9, 2), Direction::Right);
    assert_eq!(direction_of(quad, 0, 2), Direction::Left);
    assert_eq!(direction_of(quad, 2, 2), Direction::Center);
}

#[test]
fn junction_pieces() {
    assert_eq!(junction(Direction::Bottom, '─'), '┬');
    assert_eq!(junction(Direction::BottomLeft, '═'), '╤');
    assert_eq!(junction(Direction::Top, '─'), '┴');
    assert_eq!(junction(Direction::TopRight, ' '), '╧');
    assert_eq!(junction(Direction::Right, '│'), '├');
    assert_eq!(junction(Direction::Right, '║'), '╟');
    assert_eq!(junction(Direction::Left, '│'), '┤');
    assert_eq!(junction(Direction::Left, '║'), '╢');
    assert_eq!(junction(Direction::Center, 'x'), 'x');
}

#[test]
fn connect_straight_down() {
    let mut renderer = CLIRenderer::new(0);
    let quad = Quad::new(0, 0, 4, 2);
    renderer.draw_quad(quad, false);
    renderer.connect(quad, (2, 4));
    assert_eq!(renderer.to_string(), "┌──┐\n└─┬┘\n  │  \n  │ \n  ■ ");
}

#[test]
fn connect_down_and_to_the_right() {
    let mut renderer = CLIRenderer::new(0);
    let quad = Quad::new(0, 0, 4, 2);
    renderer.draw_quad(quad, false);
    renderer.connect(quad, (5, 3));
    assert_eq!(renderer.to_string(), "┌──┐\n└─┬┘\n  │  \n  └──■");
}

#[test]
fn connect_down_and_to_the_left() {
    let mut renderer = CLIRenderer::new(0);
    let quad = Quad::new(2, 0, 4, 2);
    renderer.draw_quad(quad, false);
    renderer.connect(quad, (0, 3));
    assert_eq!(renderer.to_string(), "  ┌──┐\n  └┬─┘\n   │   \n■──┘  ");
}

#[test]
fn connect_to_the_right() {
    let mut renderer = CLIRenderer::new(0);
    let quad = Quad::new(0, 0, 3, 4);
    renderer.draw_quad(quad, false);
    renderer.connect(quad, (5, 2));
    assert_eq!(renderer.to_string(), "┌─┐\n│ │\n│ ├──■\n└─┘\n    ");
    let mut near = CLIRenderer::new(0);
    near.draw_quad(quad, false);
    near.connect(quad, (3, 2));
    assert_eq!(near.to_string(), "┌─┐\n│ │\n│ ├■\n└─┘\n    ");
    let mut corner = CLIRenderer::new(0);
    let square = Quad::new(0, 0, 3, 3);
    corner.draw_quad(square, false);
    corner.connect(square, (5, 2));
    assert_eq!(corner.to_string(), "┌─┐\n│ │\n└─╟──■\n    ");
}

#[test]
fn connect_to_the_left() {
    let mut renderer = CLIRenderer::new(0);
    let quad = Quad::new(3, 0, 3, 4);
    renderer.draw_quad(quad, true);
    renderer.connect(quad, (0, 2));
    assert_eq!(renderer.to_string(), "   ╔═╗\n   ║ ║\n■──╢ ║\n   ╚═╝\n       ");
}

#[test]
fn connect_straight_up() {
    let mut renderer = CLIRenderer::new(0);
    let quad = Quad::new(0, 3, 4, 3);
    renderer.draw_quad(quad, false);
    renderer.connect(quad, (2, 0));
    assert_eq!(renderer.to_string(), "  ■\n  │\n  │\n┌─┴┐\n│  │\n└──┘\n     ");
}

#[test]
fn connect_up_and_to_the_side() {
    let mut renderer = CLIRenderer::new(0);
    let quad = Quad::new(0, 3, 4, 3);
    renderer.draw_quad(quad, false);
    renderer.connect(quad, (5, 1));
    assert_eq!(renderer.to_string(), "\n  ┌──■\n  │\n┌─┴┐\n│  │\n└──┘\n     ");
    let mut left = CLIRenderer::new(0);
    let other = Quad::new(2, 3, 4, 3);
    left.draw_quad(other, false);
    left.connect(other, (0, 1));
    assert_eq!(left.to_string(), "\n■──┐\n   │\n  ┌┴─┐\n  │  │\n  └──┘\n       ");
}

#[test]
fn connect_to_the_centre_only_marks_the_point() {
    let mut renderer = CLIRenderer::new(0);
    renderer.connect(Quad::new(0, 0, 2, 2), (1, 1));
    assert_eq!(renderer.to_string(), "\n ■");
}
