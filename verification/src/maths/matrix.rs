//! Dense row-major matrices over a floating element.

use crate::maths::layout::lemma_cell_place;
use crate::maths::numeric::Float;
use core::ops::{
    Add, AddAssign, Div, DivAssign, Index, IndexMut, Mul, MulAssign, Sub, SubAssign,
};
use vstd::prelude::*;
use vstd::std_specs::ops::{AddSpec, DivSpec, MulSpec, SubSpec};

verus! {

/// The mathematical content of a matrix: its shape and its entries, row by row.
pub struct MatrixView<T> {
    pub rows: nat,
    pub cols: nat,
    pub data: Seq<T>,
}

impl<T: Float> MatrixView<T> {
    /// There is one entry for each cell.
    pub open spec fn wf(self) -> bool {
        self.data.len() == self.rows * self.cols
    }

    /// The entry at `(row, col)`.
    pub open spec fn at(self, row: int, col: int) -> T {
        self.data[row * self.cols + col]
    }

    /// This matrix with the entry at `(row, col)` replaced.
    pub open spec fn with_entry(self, row: int, col: int, value: T) -> MatrixView<T> {
        MatrixView {
            rows: self.rows,
            cols: self.cols,
            data: self.data.update(row * self.cols + col, value),
        }
    }

    /// The sum of the first `n` terms of row `row` of `self` times column
    /// `col` of `other`, accumulated from the left, starting at zero.
    pub open spec fn product_prefix(self, other: MatrixView<T>, row: int, col: int, n: nat) -> T
        decreases n,
    {
        if n == 0 {
            T::zero_spec()
        } else {
            self.product_prefix(other, row, col, (n - 1) as nat).add_spec(
                self.at(row, n - 1).mul_spec(other.at(n - 1, col)),
            )
        }
    }

    /// The matrix product `self * other`.
    pub open spec fn product(self, other: MatrixView<T>) -> MatrixView<T> {
        MatrixView {
            rows: self.rows,
            cols: other.cols,
            data: Seq::new(
                self.rows * other.cols,
                |place: int|
                    self.product_prefix(
                        other,
                        place / (other.cols as int),
                        place % (other.cols as int),
                        self.cols,
                    ),
            ),
        }
    }

    /// The Kronecker product: the entry at
    /// `(i * other.rows + k, j * other.cols + l)` is
    /// `self.at(i, j) * other.at(k, l)`.
    pub open spec fn kronecker(self, other: MatrixView<T>) -> MatrixView<T> {
        let rows = self.rows * other.rows;
        let cols = self.cols * other.cols;
        MatrixView {
            rows,
            cols,
            data: Seq::new(
                rows * cols,
                |place: int|
                    {
                        let row = place / (cols as int);
                        let col = place % (cols as int);
                        self.at(row / (other.rows as int), col / (other.cols as int)).mul_spec(
                            other.at(row % (other.rows as int), col % (other.cols as int)),
                        )
                    },
            ),
        }
    }

    /// The transpose: the entry at `(col, row)` is `self.at(row, col)`.
    pub open spec fn transposed(self) -> MatrixView<T> {
        MatrixView {
            rows: self.cols,
            cols: self.rows,
            data: Seq::new(
                self.cols * self.rows,
                |place: int| self.at(place % (self.rows as int), place / (self.rows as int)),
            ),
        }
    }

    /// The entrywise sum.
    pub open spec fn plus(self, other: MatrixView<T>) -> MatrixView<T> {
        MatrixView {
            rows: self.rows,
            cols: self.cols,
            data: Seq::new(
                self.data.len(),
                |place: int| self.data[place].add_spec(other.data[place]),
            ),
        }
    }

    /// The entrywise difference.
    pub open spec fn minus(self, other: MatrixView<T>) -> MatrixView<T> {
        MatrixView {
            rows: self.rows,
            cols: self.cols,
            data: Seq::new(
                self.data.len(),
                |place: int| self.data[place].sub_spec(other.data[place]),
            ),
        }
    }

    /// Every entry multiplied, on its right, by `scalar`.
    pub open spec fn scaled(self, scalar: T) -> MatrixView<T> {
        MatrixView {
            rows: self.rows,
            cols: self.cols,
            data: Seq::new(self.data.len(), |place: int| self.data[place].mul_spec(scalar)),
        }
    }
}

/// The error of an operation in place whose operands do not fit: nothing
/// was changed.
#[derive(Clone, Copy, Debug, PartialEq, Eq, Structural)]
pub struct ShapeMismatch;

/// A dense matrix of `rows` by `cols` entries, stored row by row.
pub struct Matrix<T: Float> {
    pub data: Vec<T>,
    pub rows: usize,
    pub cols: usize,
}

impl<T: Float> View for Matrix<T> {
    type V = MatrixView<T>;

    open spec fn view(&self) -> MatrixView<T> {
        MatrixView { rows: self.rows as nat, cols: self.cols as nat, data: self.data@ }
    }
}

impl<T: Float> Matrix<T> {
    /// The backing sequence holds one entry for each cell.
    pub open spec fn wf(&self) -> bool {
        self@.wf()
    }

    /// A matrix of the given shape from its entries, row by row.
    pub fn new(rows: usize, cols: usize, data: Vec<T>) -> (r: Self)
        requires
            data@.len() == rows * cols,
        ensures
            r.rows == rows,
            r.cols == cols,
            r.data == data,
            r.wf(),
    {
        Matrix { data, rows, cols }
    }

    /// The entry at `(row, col)`.
    pub fn get(&self, row: usize, col: usize) -> (r: T)
        requires
            self.wf(),
            row < self.rows,
            col < self.cols,
        ensures
            r == self@.at(row as int, col as int),
    {
        proof {
            lemma_cell_place(self.rows as int, self.cols as int, row as int, col as int);
            assert(self.data@.len() == self.data.len());
        }
        self.data[row * self.cols + col]
    }

    /// Replaces the entry at `(row, col)`.
    pub fn set(&mut self, row: usize, col: usize, value: T)
        requires
            old(self).wf(),
            row < old(self).rows,
            col < old(self).cols,
        ensures
            final(self)@ == old(self)@.with_entry(row as int, col as int, value),
            final(self).wf(),
    {
        proof {
            lemma_cell_place(self.rows as int, self.cols as int, row as int, col as int);
            assert(self.data@.len() == self.data.len());
        }
        let place = row * self.cols + col;
        self.data.set(place, value);
    }

    /// The matrix product, or nothing where the inner dimensions differ.
    pub fn dot(&self, other: &Self) -> (r: Option<Matrix<T>>)
        requires
            self.wf(),
            other.wf(),
            self.cols == other.rows ==> self.rows * other.cols <= usize::MAX,
        ensures
            r.is_some() <==> self.cols == other.rows,
            r matches Some(m) ==> m.wf() && m@ == self@.product(other@),
    {
        if self.cols != other.rows {
            return None;
        }
        proof {
            T::arithmetic_is_total();
        }
        let ghost expected = self@.product(other@);
        let mut data: Vec<T> = Vec::new();
        let mut i: usize = 0;
        while i < self.rows
            invariant
                self.wf(),
                other.wf(),
                self.cols == other.rows,
                self.rows * other.cols <= usize::MAX,
                expected == self@.product(other@),
                T::obeys_add_spec(),
                T::obeys_mul_spec(),
                forall|a: T, b: T| #[trigger] a.add_req(b),
                forall|a: T, b: T| #[trigger] a.mul_req(b),
                i <= self.rows,
                data@.len() == i * other.cols,
                forall|place: int| 0 <= place < data@.len() ==> data@[place] == expected.data[place],
            decreases self.rows - i,
        {
            let mut j: usize = 0;
            while j < other.cols
                invariant
                    self.wf(),
                    other.wf(),
                    self.cols == other.rows,
                    self.rows * other.cols <= usize::MAX,
                    expected == self@.product(other@),
                    T::obeys_add_spec(),
                    T::obeys_mul_spec(),
                    forall|a: T, b: T| #[trigger] a.add_req(b),
                    forall|a: T, b: T| #[trigger] a.mul_req(b),
                    i < self.rows,
                    j <= other.cols,
                    data@.len() == i * other.cols + j,
                    forall|place: int|
                        0 <= place < data@.len() ==> data@[place] == expected.data[place],
                decreases other.cols - j,
            {
                let mut sum = T::zero();
                let mut k: usize = 0;
                while k < self.cols
                    invariant
                        self.wf(),
                        other.wf(),
                        self.cols == other.rows,
                        T::obeys_add_spec(),
                        T::obeys_mul_spec(),
                        forall|a: T, b: T| #[trigger] a.add_req(b),
                        forall|a: T, b: T| #[trigger] a.mul_req(b),
                        i < self.rows,
                        j < other.cols,
                        k <= self.cols,
                        sum == self@.product_prefix(other@, i as int, j as int, k as nat),
                    decreases self.cols - k,
                {
                    sum = sum + self.get(i, k) * other.get(k, j);
                    k += 1;
                }
                proof {
                    lemma_cell_place(self.rows as int, other.cols as int, i as int, j as int);
                }
                data.push(sum);
                j += 1;
            }
            proof {
                assert(i * other.cols + other.cols == (i + 1) * other.cols) by (nonlinear_arith);
            }
            i += 1;
        }
        let result = Matrix { data, rows: self.rows, cols: other.cols };
        proof {
            assert(result@.data =~= expected.data);
        }
        Some(result)
    }

    /// The Kronecker (tensor) product.
    pub fn kronecker(&self, other: &Self) -> (r: Matrix<T>)
        requires
            self.wf(),
            other.wf(),
            self.rows * other.rows <= usize::MAX,
            self.cols * other.cols <= usize::MAX,
            (self.rows * other.rows) * (self.cols * other.cols) <= usize::MAX,
        ensures
            r.wf(),
            r@ == self@.kronecker(other@),
    {
        proof {
            T::arithmetic_is_total();
        }
        let new_rows = self.rows * other.rows;
        let new_cols = self.cols * other.cols;
        let ghost expected = self@.kronecker(other@);
        let mut data: Vec<T> = Vec::new();
        let mut i: usize = 0;
        while i < self.rows
            invariant
                self.wf(),
                other.wf(),
                new_rows == self.rows * other.rows,
                new_cols == self.cols * other.cols,
                expected == self@.kronecker(other@),
                T::obeys_mul_spec(),
                forall|a: T, b: T| #[trigger] a.mul_req(b),
                i <= self.rows,
                data@.len() == (i * other.rows) * new_cols,
                forall|place: int| 0 <= place < data@.len() ==> data@[place] == expected.data[place],
            decreases self.rows - i,
        {
            let mut k: usize = 0;
            while k < other.rows
                invariant
                    self.wf(),
                    other.wf(),
                    new_rows == self.rows * other.rows,
                    new_cols == self.cols * other.cols,
                    expected == self@.kronecker(other@),
                    T::obeys_mul_spec(),
                    forall|a: T, b: T| #[trigger] a.mul_req(b),
                    i < self.rows,
                    k <= other.rows,
                    data@.len() == (i * other.rows + k) * new_cols,
                    forall|place: int|
                        0 <= place < data@.len() ==> data@[place] == expected.data[place],
                decreases other.rows - k,
            {
                let ghost row = i * other.rows + k;
                let mut j: usize = 0;
                while j < self.cols
                    invariant
                        self.wf(),
                        other.wf(),
                        new_rows == self.rows * other.rows,
                        new_cols == self.cols * other.cols,
                        expected == self@.kronecker(other@),
                        T::obeys_mul_spec(),
                        forall|a: T, b: T| #[trigger] a.mul_req(b),
                        i < self.rows,
                        k < other.rows,
                        row == i * other.rows + k,
                        j <= self.cols,
                        data@.len() == row * new_cols + j * other.cols,
                        forall|place: int|
                            0 <= place < data@.len() ==> data@[place] == expected.data[place],
                    decreases self.cols - j,
                {
                    let self_val = self.get(i, j);
                    let mut l: usize = 0;
                    while l < other.cols
                        invariant
                            self.wf(),
                            other.wf(),
                            new_rows == self.rows * other.rows,
                            new_cols == self.cols * other.cols,
                            expected == self@.kronecker(other@),
                            T::obeys_mul_spec(),
                            forall|a: T, b: T| #[trigger] a.mul_req(b),
                            i < self.rows,
                            k < other.rows,
                            row == i * other.rows + k,
                            j < self.cols,
                            l <= other.cols,
                            self_val == self@.at(i as int, j as int),
                            data@.len() == row * new_cols + j * other.cols + l,
                            forall|place: int|
                                0 <= place < data@.len() ==> data@[place] == expected.data[place],
                        decreases other.cols - l,
                    {
                        proof {
                            let col = j * other.cols + l;
                            lemma_cell_place(
                                self.rows as int,
                                other.rows as int,
                                i as int,
                                k as int,
                            );
                            lemma_cell_place(
                                self.cols as int,
                                other.cols as int,
                                j as int,
                                l as int,
                            );
                            lemma_cell_place(new_rows as int, new_cols as int, row, col);
                        }
                        data.push(self_val * other.get(k, l));
                        l += 1;
                    }
                    proof {
                        assert(j * other.cols + other.cols == (j + 1) * other.cols)
                            by (nonlinear_arith);
                    }
                    j += 1;
                }
                proof {
                    assert(row * new_cols + new_cols == (row + 1) * new_cols) by (nonlinear_arith);
                }
                k += 1;
            }
            proof {
                assert(i * other.rows + other.rows == (i + 1) * other.rows) by (nonlinear_arith);
            }
            i += 1;
        }
        let result = Matrix { data, rows: new_rows, cols: new_cols };
        proof {
            assert(result@.data =~= expected.data);
        }
        result
    }

    /// The transpose.
    pub fn transpose(&self) -> (r: Matrix<T>)
        requires
            self.wf(),
        ensures
            r.wf(),
            r@ == self@.transposed(),
    {
        let ghost expected = self@.transposed();
        let mut data: Vec<T> = Vec::new();
        let mut j: usize = 0;
        while j < self.cols
            invariant
                self.wf(),
                expected == self@.transposed(),
                j <= self.cols,
                data@.len() == j * self.rows,
                forall|place: int| 0 <= place < data@.len() ==> data@[place] == expected.data[place],
            decreases self.cols - j,
        {
            let mut i: usize = 0;
            while i < self.rows
                invariant
                    self.wf(),
                    expected == self@.transposed(),
                    j < self.cols,
                    i <= self.rows,
                    data@.len() == j * self.rows + i,
                    forall|place: int|
                        0 <= place < data@.len() ==> data@[place] == expected.data[place],
                decreases self.rows - i,
            {
                proof {
                    lemma_cell_place(self.cols as int, self.rows as int, j as int, i as int);
                }
                data.push(self.get(i, j));
                i += 1;
            }
            proof {
                assert(j * self.rows + self.rows == (j + 1) * self.rows) by (nonlinear_arith);
            }
            j += 1;
        }
        let result = Matrix { data, rows: self.cols, cols: self.rows };
        proof {
            assert(result@.data =~= expected.data);
        }
        result
    }

    /// The entrywise sum, or nothing where the shapes differ.
    pub fn add_to(&self, other: &Self) -> (r: Option<Matrix<T>>)
        requires
            self.wf(),
            other.wf(),
        ensures
            r.is_some() <==> self.rows == other.rows && self.cols == other.cols,
            r matches Some(m) ==> m.wf() && m@ == self@.plus(other@),
    {
        if self.rows != other.rows || self.cols != other.cols {
            return None;
        }
        proof {
            T::arithmetic_is_total();
        }
        let n = self.data.len();
        let mut data: Vec<T> = Vec::new();
        let mut place: usize = 0;
        while place < n
            invariant
                n == self.data@.len(),
                n == other.data@.len(),
                T::obeys_add_spec(),
                forall|a: T, b: T| #[trigger] a.add_req(b),
                place <= n,
                data@.len() == place,
                forall|p: int|
                    0 <= p < place ==> data@[p] == self.data@[p].add_spec(other.data@[p]),
            decreases n - place,
        {
            data.push(self.data[place] + other.data[place]);
            place += 1;
        }
        let result = Matrix { data, rows: self.rows, cols: self.cols };
        proof {
            assert(result@.data =~= self@.plus(other@).data);
        }
        Some(result)
    }

    /// The entrywise difference, or nothing where the shapes differ.
    pub fn subtract(&self, other: &Self) -> (r: Option<Matrix<T>>)
        requires
            self.wf(),
            other.wf(),
        ensures
            r.is_some() <==> self.rows == other.rows && self.cols == other.cols,
            r matches Some(m) ==> m.wf() && m@ == self@.minus(other@),
    {
        if self.rows != other.rows || self.cols != other.cols {
            return None;
        }
        proof {
            T::arithmetic_is_total();
        }
        let n = self.data.len();
        let mut data: Vec<T> = Vec::new();
        let mut place: usize = 0;
        while place < n
            invariant
                n == self.data@.len(),
                n == other.data@.len(),
                T::obeys_sub_spec(),
                forall|a: T, b: T| #[trigger] a.sub_req(b),
                place <= n,
                data@.len() == place,
                forall|p: int|
                    0 <= p < place ==> data@[p] == self.data@[p].sub_spec(other.data@[p]),
            decreases n - place,
        {
            data.push(self.data[place] - other.data[place]);
            place += 1;
        }
        let result = Matrix { data, rows: self.rows, cols: self.cols };
        proof {
            assert(result@.data =~= self@.minus(other@).data);
        }
        Some(result)
    }

    /// Every entry multiplied by `scalar`.
    pub fn scale(&self, scalar: T) -> (r: Matrix<T>)
        requires
            self.wf(),
        ensures
            r.wf(),
            r@ == self@.scaled(scalar),
    {
        proof {
            T::arithmetic_is_total();
        }
        let n = self.data.len();
        let mut data: Vec<T> = Vec::new();
        let mut place: usize = 0;
        while place < n
            invariant
                n == self.data@.len(),
                T::obeys_mul_spec(),
                forall|a: T, b: T| #[trigger] a.mul_req(b),
                place <= n,
                data@.len() == place,
                forall|p: int| 0 <= p < place ==> data@[p] == self.data@[p].mul_spec(scalar),
            decreases n - place,
        {
            data.push(self.data[place] * scalar);
            place += 1;
        }
        let result = Matrix { data, rows: self.rows, cols: self.cols };
        proof {
            assert(result@.data =~= self@.scaled(scalar).data);
        }
        result
    }
}

impl<T: Float> Matrix<T> {
    /// Adds `other` in place, or reports that the shapes differ and changes
    /// nothing.
    pub fn try_add_assign(&mut self, other: &Matrix<T>) -> (r: Result<(), ShapeMismatch>)
        requires
            old(self).wf(),
            other.wf(),
        ensures
            final(self).wf(),
            r.is_ok() <==> old(self).rows == other.rows && old(self).cols == other.cols,
            r.is_ok() ==> final(self)@ == old(self)@.plus(other@),
            r.is_err() ==> *final(self) == *old(self),
    {
        match self.add_to(other) {
            Some(result) => {
                *self = result;
                Ok(())
            },
            None => Err(ShapeMismatch),
        }
    }

    /// Subtracts `other` in place, or reports that the shapes differ and
    /// changes nothing.
    pub fn try_sub_assign(&mut self, other: &Matrix<T>) -> (r: Result<(), ShapeMismatch>)
        requires
            old(self).wf(),
            other.wf(),
        ensures
            final(self).wf(),
            r.is_ok() <==> old(self).rows == other.rows && old(self).cols == other.cols,
            r.is_ok() ==> final(self)@ == old(self)@.minus(other@),
            r.is_err() ==> *final(self) == *old(self),
    {
        match self.subtract(other) {
            Some(result) => {
                *self = result;
                Ok(())
            },
            None => Err(ShapeMismatch),
        }
    }
}

impl<T: Float> Clone for Matrix<T> {
    fn clone(&self) -> (r: Self)
        ensures
            r@ == self@,
    {
        let n = self.data.len();
        let mut data: Vec<T> = Vec::new();
        let mut place: usize = 0;
        while place < n
            invariant
                n == self.data@.len(),
                place <= n,
                data@.len() == place,
                forall|p: int| 0 <= p < place ==> data@[p] == self.data@[p],
            decreases n - place,
        {
            data.push(self.data[place]);
            place += 1;
        }
        proof {
            assert(data@ =~= self.data@);
        }
        Matrix { data, rows: self.rows, cols: self.cols }
    }
}

impl<T: Float> Index<(usize, usize)> for Matrix<T> {
    type Output = T;

    fn index(&self, index: (usize, usize)) -> (r: &T)
        ensures
            *r == self@.at(index.0 as int, index.1 as int),
    {
        proof {
            lemma_cell_place(self.rows as int, self.cols as int, index.0 as int, index.1 as int);
            assert(self.data@.len() == self.data.len());
        }
        &self.data[index.0 * self.cols + index.1]
    }
}

impl<T: Float> vstd::std_specs::core::IndexSpecImpl<(usize, usize)> for Matrix<T> {
    open spec fn index_req(&self, index: &(usize, usize)) -> bool {
        self.wf() && index.0 < self.rows && index.1 < self.cols
    }
}

impl<T: Float> IndexMut<(usize, usize)> for Matrix<T> {
    fn index_mut(&mut self, index: (usize, usize)) -> (r: &mut T)
        requires
            old(self).wf(),
            index.0 < old(self).rows,
            index.1 < old(self).cols,
        ensures
            *r == old(self)@.at(index.0 as int, index.1 as int),
            final(self)@ == old(self)@.with_entry(index.0 as int, index.1 as int, *final(r)),
    {
        proof {
            lemma_cell_place(self.rows as int, self.cols as int, index.0 as int, index.1 as int);
            assert(self.data@.len() == self.data.len());
        }
        &mut self.data[index.0 * self.cols + index.1]
    }
}

impl<'a, T: Float> Add<&'a Matrix<T>> for Matrix<T> {
    type Output = Option<Matrix<T>>;

    fn add(self, other: &'a Matrix<T>) -> (r: Option<Matrix<T>>)
        ensures
            r.is_some() <==> self.rows == other.rows && self.cols == other.cols,
            r matches Some(m) ==> m.wf() && m@ == self@.plus(other@),
    {
        self.add_to(other)
    }
}

impl<'a, T: Float> vstd::std_specs::ops::AddSpecImpl<&'a Matrix<T>> for Matrix<T> {
    /// The sum is stated over views, by the operator's own postcondition.
    open spec fn obeys_add_spec() -> bool {
        false
    }

    open spec fn add_req(self, other: &'a Matrix<T>) -> bool {
        self.wf() && other.wf()
    }

    open spec fn add_spec(self, other: &'a Matrix<T>) -> Option<Matrix<T>> {
        arbitrary()
    }
}

impl<'a, T: Float> Sub<&'a Matrix<T>> for Matrix<T> {
    type Output = Option<Matrix<T>>;

    fn sub(self, other: &'a Matrix<T>) -> (r: Option<Matrix<T>>)
        ensures
            r.is_some() <==> self.rows == other.rows && self.cols == other.cols,
            r matches Some(m) ==> m.wf() && m@ == self@.minus(other@),
    {
        self.subtract(other)
    }
}

impl<'a, T: Float> vstd::std_specs::ops::SubSpecImpl<&'a Matrix<T>> for Matrix<T> {
    /// The difference is stated over views, by the operator's own postcondition.
    open spec fn obeys_sub_spec() -> bool {
        false
    }

    open spec fn sub_req(self, other: &'a Matrix<T>) -> bool {
        self.wf() && other.wf()
    }

    open spec fn sub_spec(self, other: &'a Matrix<T>) -> Option<Matrix<T>> {
        arbitrary()
    }
}

impl<T: Float> Mul<T> for Matrix<T> {
    type Output = Matrix<T>;

    fn mul(self, scalar: T) -> (r: Matrix<T>)
        ensures
            r.wf(),
            r@ == self@.scaled(scalar),
    {
        self.scale(scalar)
    }
}

impl<T: Float> vstd::std_specs::ops::MulSpecImpl<T> for Matrix<T> {
    /// The scaled matrix is stated over views, by the operator's own postcondition.
    open spec fn obeys_mul_spec() -> bool {
        false
    }

    open spec fn mul_req(self, scalar: T) -> bool {
        self.wf()
    }

    open spec fn mul_spec(self, scalar: T) -> Matrix<T> {
        arbitrary()
    }
}

impl<T: Float> Div<T> for Matrix<T> {
    type Output = Matrix<T>;

    /// Division scales by the reciprocal `1 / scalar`.
    fn div(self, scalar: T) -> (r: Matrix<T>)
        ensures
            r.wf(),
            r@ == self@.scaled(T::one_spec().div_spec(scalar)),
    {
        proof {
            T::arithmetic_is_total();
        }
        self.scale(T::one() / scalar)
    }
}

impl<T: Float> vstd::std_specs::ops::DivSpecImpl<T> for Matrix<T> {
    /// The scaled matrix is stated over views, by the operator's own postcondition.
    open spec fn obeys_div_spec() -> bool {
        false
    }

    open spec fn div_req(self, scalar: T) -> bool {
        self.wf()
    }

    open spec fn div_spec(self, scalar: T) -> Matrix<T> {
        arbitrary()
    }
}

impl<'a, T: Float> AddAssign<&'a Matrix<T>> for Matrix<T> {
    /// Adds `other` in place; where the shapes differ, nothing changes.
    fn add_assign(&mut self, other: &'a Matrix<T>)
        requires
            old(self).wf(),
            other.wf(),
        ensures
            final(self).wf(),
            old(self).rows == other.rows && old(self).cols == other.cols ==> final(self)@ == old(
                self,
            )@.plus(other@),
            !(old(self).rows == other.rows && old(self).cols == other.cols) ==> *final(self)
                == *old(self),
    {
        if let Some(result) = self.add_to(other) {
            *self = result;
        }
    }
}

impl<'a, T: Float> SubAssign<&'a Matrix<T>> for Matrix<T> {
    /// Subtracts `other` in place; where the shapes differ, nothing changes.
    fn sub_assign(&mut self, other: &'a Matrix<T>)
        requires
            old(self).wf(),
            other.wf(),
        ensures
            final(self).wf(),
            old(self).rows == other.rows && old(self).cols == other.cols ==> final(self)@ == old(
                self,
            )@.minus(other@),
            !(old(self).rows == other.rows && old(self).cols == other.cols) ==> *final(self)
                == *old(self),
    {
        if let Some(result) = self.subtract(other) {
            *self = result;
        }
    }
}

impl<T: Float> MulAssign<T> for Matrix<T> {
    fn mul_assign(&mut self, scalar: T)
        requires
            old(self).wf(),
        ensures
            final(self).wf(),
            final(self)@ == old(self)@.scaled(scalar),
    {
        *self = self.scale(scalar);
    }
}

impl<T: Float> DivAssign<T> for Matrix<T> {
    /// Division scales by the reciprocal `1 / scalar`.
    fn div_assign(&mut self, scalar: T)
        requires
            old(self).wf(),
        ensures
            final(self).wf(),
            final(self)@ == old(self)@.scaled(T::one_spec().div_spec(scalar)),
    {
        proof {
            T::arithmetic_is_total();
        }
        *self = self.scale(T::one() / scalar);
    }
}

} // verus!
