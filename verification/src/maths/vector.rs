//! Row and column vectors over a floating element.

use crate::maths::matrix::{Matrix, MatrixView, ShapeMismatch};
use crate::maths::numeric::{comparable, is_greater, order_is_specified, Float};
use core::ops::{
    Add, AddAssign, Div, DivAssign, Index, IndexMut, Mul, MulAssign, Sub, SubAssign,
};
use vstd::prelude::*;
use vstd::std_specs::ops::{AddSpec, DivSpec, MulSpec, SubSpec};

verus! {

/// The sum of the products `a[i] * b[i]` for `i < n`, accumulated from the
/// left, starting at zero.
pub open spec fn dot_prefix<T: Float>(a: Seq<T>, b: Seq<T>, n: nat) -> T
    decreases n,
{
    if n == 0 {
        T::zero_spec()
    } else {
        dot_prefix(a, b, (n - 1) as nat).add_spec(a[n - 1].mul_spec(b[n - 1]))
    }
}

/// The dot product over the positions that both vectors have.
pub open spec fn dot_spec<T: Float>(a: Seq<T>, b: Seq<T>) -> T {
    dot_prefix(a, b, if a.len() <= b.len() { a.len() } else { b.len() })
}

/// The sum of the first `n` elements, accumulated from the left, starting at zero.
pub open spec fn sum_prefix<T: Float>(a: Seq<T>, n: nat) -> T
    decreases n,
{
    if n == 0 {
        T::zero_spec()
    } else {
        sum_prefix(a, (n - 1) as nat).add_spec(a[n - 1])
    }
}

/// The sum of all elements.
pub open spec fn sum_spec<T: Float>(a: Seq<T>) -> T {
    sum_prefix(a, a.len())
}

/// The Euclidean norm: the square root of the sum of the squares.
pub open spec fn norm_spec<T: Float>(a: Seq<T>) -> T {
    dot_prefix(a, a, a.len()).sqrt_spec()
}

/// The sum of `matrix.at(row, j) * v[j]` for `j < n`, accumulated from the
/// left, starting at zero.
pub open spec fn matrix_row_prefix<T: Float>(matrix: MatrixView<T>, v: Seq<T>, row: int, n: nat) -> T
    decreases n,
{
    if n == 0 {
        T::zero_spec()
    } else {
        matrix_row_prefix(matrix, v, row, (n - 1) as nat).add_spec(
            matrix.at(row, n - 1).mul_spec(v[n - 1]),
        )
    }
}

/// The sum of `v[i] * matrix.at(i, col)` for `i < n`, accumulated from the
/// left, starting at zero.
pub open spec fn matrix_col_prefix<T: Float>(v: Seq<T>, matrix: MatrixView<T>, col: int, n: nat) -> T
    decreases n,
{
    if n == 0 {
        T::zero_spec()
    } else {
        matrix_col_prefix(v, matrix, col, (n - 1) as nat).add_spec(
            v[n - 1].mul_spec(matrix.at(n - 1, col)),
        )
    }
}

/// `matrix * v` for a column vector `v`: one element for each row of the matrix.
pub open spec fn matrix_times_column<T: Float>(matrix: MatrixView<T>, v: Seq<T>) -> Seq<T> {
    Seq::new(matrix.rows, |row: int| matrix_row_prefix(matrix, v, row, matrix.cols))
}

/// `v * matrix` for a row vector `v`: one element for each column of the matrix.
pub open spec fn row_times_matrix<T: Float>(v: Seq<T>, matrix: MatrixView<T>) -> Seq<T> {
    Seq::new(matrix.cols, |col: int| matrix_col_prefix(v, matrix, col, matrix.rows))
}

/// The elementwise sum of two sequences of one length.
pub open spec fn plus_spec<T: Float>(a: Seq<T>, b: Seq<T>) -> Seq<T> {
    Seq::new(a.len(), |i: int| a[i].add_spec(b[i]))
}

/// The elementwise difference of two sequences of one length.
pub open spec fn minus_spec<T: Float>(a: Seq<T>, b: Seq<T>) -> Seq<T> {
    Seq::new(a.len(), |i: int| a[i].sub_spec(b[i]))
}

/// Every element multiplied, on its right, by `scalar`.
pub open spec fn scaled_spec<T: Float>(a: Seq<T>, scalar: T) -> Seq<T> {
    Seq::new(a.len(), |i: int| a[i].mul_spec(scalar))
}

/// The greatest of the first `n` elements (`n >= 1`): going from the left, the
/// candidate is kept only where it is strictly above the next element, so of
/// several greatest elements the last is taken.
pub open spec fn max_prefix<T: Float>(a: Seq<T>, n: nat) -> T
    decreases n,
{
    if n <= 1 {
        a[0]
    } else {
        let best = max_prefix(a, (n - 1) as nat);
        if is_greater(best, a[n - 1]) {
            best
        } else {
            a[n - 1]
        }
    }
}

/// The least of the first `n` elements (`n >= 1`): going from the left, the
/// candidate gives way only where it is strictly above the next element, so
/// of several least elements the first is taken.
pub open spec fn min_prefix<T: Float>(a: Seq<T>, n: nat) -> T
    decreases n,
{
    if n <= 1 {
        a[0]
    } else {
        let best = min_prefix(a, (n - 1) as nat);
        if is_greater(best, a[n - 1]) {
            a[n - 1]
        } else {
            best
        }
    }
}

/// Each comparison that the search for the greatest element makes has an answer.
pub open spec fn max_defined<T: Float>(a: Seq<T>) -> bool {
    forall|n: nat| 1 <= n < a.len() ==> comparable(#[trigger] max_prefix(a, n), a[n as int])
}

/// Each comparison that the search for the least element makes has an answer.
pub open spec fn min_defined<T: Float>(a: Seq<T>) -> bool {
    forall|n: nat| 1 <= n < a.len() ==> comparable(#[trigger] min_prefix(a, n), a[n as int])
}

/// The greatest element, or zero for the empty sequence.
pub open spec fn max_spec<T: Float>(a: Seq<T>) -> T {
    if a.len() == 0 {
        T::zero_spec()
    } else {
        max_prefix(a, a.len())
    }
}

/// The least element, or zero for the empty sequence.
pub open spec fn min_spec<T: Float>(a: Seq<T>) -> T {
    if a.len() == 0 {
        T::zero_spec()
    } else {
        min_prefix(a, a.len())
    }
}

/// A one-column matrix with the given entries.
pub open spec fn column_matrix<T>(entries: Seq<T>) -> MatrixView<T> {
    MatrixView { rows: entries.len(), cols: 1, data: entries }
}

/// A one-row matrix with the given entries.
pub open spec fn row_matrix<T>(entries: Seq<T>) -> MatrixView<T> {
    MatrixView { rows: 1, cols: entries.len(), data: entries }
}

/// What every vector offers, whatever its orientation.
pub trait Vector<T: Float>: View<V = Seq<T>> + Sized {
    /// A vector of the given elements.
    fn new(data: Vec<T>) -> (r: Self)
        ensures
            r@ == data@,
    ;

    /// The element at `index`.
    fn get(&self, index: usize) -> (r: T)
        requires
            index < self@.len(),
        ensures
            r == self@[index as int],
    ;

    /// Replaces the element at `index`.
    fn set(&mut self, index: usize, value: T)
        requires
            index < old(self)@.len(),
        ensures
            final(self)@ == old(self)@.update(index as int, value),
    ;

    /// The number of elements.
    fn size(&self) -> (r: usize)
        ensures
            r == self@.len(),
    ;

    /// The dot product, over the positions that both vectors have.
    fn dot(&self, other: &Self) -> (r: T)
        ensures
            r == dot_spec(self@, other@),
    ;

    /// The Euclidean norm.
    fn norm(&self) -> (r: T)
        ensures
            r == norm_spec(self@),
    ;

    /// The greatest element, or zero for a vector without elements.
    fn max(&self) -> (r: T)
        requires
            max_defined(self@),
        ensures
            r == max_spec(self@),
    ;

    /// The least element, or zero for a vector without elements.
    fn min(&self) -> (r: T)
        requires
            min_defined(self@),
        ensures
            r == min_spec(self@),
    ;

    /// The sum of the elements.
    fn sum(&self) -> (r: T)
        ensures
            r == sum_spec(self@),
    ;
}

/// Conversion between a vector and the matrix of one row or one column that
/// holds the same entries.
pub trait VectorMatrix<T: Float>: View<V = Seq<T>> + Sized {
    /// The shape that a vector of this orientation has as a matrix.
    spec fn as_matrix(entries: Seq<T>) -> MatrixView<T>;

    /// The vector of the matrix's entries, row by row.
    fn from_matrix(matrix: &Matrix<T>) -> (r: Self)
        ensures
            r@ == matrix@.data,
    ;

    /// The matrix of one row or one column with the vector's elements.
    fn to_matrix(&self) -> (r: Matrix<T>)
        ensures
            r.wf(),
            r@ == Self::as_matrix(self@),
    ;
}

/// A vector whose orientation is part of its type: `ROWS` is 1 for a row
/// vector, `COLS` is 1 for a column vector.
pub struct VectorImpl<T: Float, const ROWS: usize, const COLS: usize>(Vec<T>);

/// A row vector.
pub type RowVector<T> = VectorImpl<T, 1, 0>;

/// A column vector.
pub type ColumnVector<T> = VectorImpl<T, 0, 1>;

impl<T: Float, const ROWS: usize, const COLS: usize> View for VectorImpl<T, ROWS, COLS> {
    type V = Seq<T>;

    closed spec fn view(&self) -> Seq<T> {
        self.0@
    }
}

impl<T: Float, const ROWS: usize, const COLS: usize> Vector<T> for VectorImpl<T, ROWS, COLS> {
    fn new(data: Vec<T>) -> (r: Self) {
        VectorImpl(data)
    }

    fn get(&self, index: usize) -> (r: T) {
        self.0[index]
    }

    fn set(&mut self, index: usize, value: T) {
        self.0.set(index, value);
    }

    fn size(&self) -> (r: usize) {
        self.0.len()
    }

    fn dot(&self, other: &Self) -> (r: T) {
        proof {
            T::arithmetic_is_total();
        }
        let n = if self.0.len() <= other.0.len() {
            self.0.len()
        } else {
            other.0.len()
        };
        let mut acc = T::zero();
        let mut i: usize = 0;
        while i < n
            invariant
                T::obeys_add_spec(),
                T::obeys_mul_spec(),
                forall|a: T, b: T| #[trigger] a.add_req(b),
                forall|a: T, b: T| #[trigger] a.mul_req(b),
                n <= self.0@.len(),
                n <= other.0@.len(),
                i <= n,
                acc == dot_prefix(self@, other@, i as nat),
            decreases n - i,
        {
            acc = acc + self.0[i] * other.0[i];
            i += 1;
        }
        acc
    }

    fn norm(&self) -> (r: T) {
        proof {
            T::arithmetic_is_total();
        }
        let n = self.0.len();
        let mut acc = T::zero();
        let mut i: usize = 0;
        while i < n
            invariant
                T::obeys_add_spec(),
                T::obeys_mul_spec(),
                forall|a: T, b: T| #[trigger] a.add_req(b),
                forall|a: T, b: T| #[trigger] a.mul_req(b),
                n == self.0@.len(),
                i <= n,
                acc == dot_prefix(self@, self@, i as nat),
            decreases n - i,
        {
            acc = acc + self.0[i] * self.0[i];
            i += 1;
        }
        acc.sqrt()
    }

    fn max(&self) -> (r: T) {
        proof {
            T::arithmetic_is_total();
        }
        let n = self.0.len();
        if n == 0 {
            return T::zero();
        }
        let mut best = self.0[0];
        let mut i: usize = 1;
        while i < n
            invariant
                order_is_specified::<T>(),
                max_defined(self@),
                n == self.0@.len(),
                1 <= i <= n,
                best == max_prefix(self@, i as nat),
            decreases n - i,
        {
            let next = self.0[i];
            if !(best > next) {
                best = next;
            }
            i += 1;
        }
        best
    }

    fn min(&self) -> (r: T) {
        proof {
            T::arithmetic_is_total();
        }
        let n = self.0.len();
        if n == 0 {
            return T::zero();
        }
        let mut best = self.0[0];
        let mut i: usize = 1;
        while i < n
            invariant
                order_is_specified::<T>(),
                min_defined(self@),
                n == self.0@.len(),
                1 <= i <= n,
                best == min_prefix(self@, i as nat),
            decreases n - i,
        {
            let next = self.0[i];
            if best > next {
                best = next;
            }
            i += 1;
        }
        best
    }

    fn sum(&self) -> (r: T) {
        proof {
            T::arithmetic_is_total();
        }
        let n = self.0.len();
        let mut acc = T::zero();
        let mut i: usize = 0;
        while i < n
            invariant
                T::obeys_add_spec(),
                forall|a: T, b: T| #[trigger] a.add_req(b),
                n == self.0@.len(),
                i <= n,
                acc == sum_prefix(self@, i as nat),
            decreases n - i,
        {
            acc = acc + self.0[i];
            i += 1;
        }
        acc
    }
}

impl<T: Float, const ROWS: usize, const COLS: usize> VectorImpl<T, ROWS, COLS> {
    /// The elementwise sum, or nothing where the sizes differ.
    pub fn add_to(&self, other: &Self) -> (r: Option<VectorImpl<T, ROWS, COLS>>)
        ensures
            r.is_some() <==> self@.len() == other@.len(),
            r matches Some(v) ==> v@ == plus_spec(self@, other@),
    {
        if self.0.len() != other.0.len() {
            return None;
        }
        proof {
            T::arithmetic_is_total();
        }
        let n = self.0.len();
        let mut data: Vec<T> = Vec::new();
        let mut i: usize = 0;
        while i < n
            invariant
                T::obeys_add_spec(),
                forall|a: T, b: T| #[trigger] a.add_req(b),
                n == self.0@.len(),
                n == other.0@.len(),
                i <= n,
                data@.len() == i,
                forall|p: int| 0 <= p < i ==> data@[p] == self.0@[p].add_spec(other.0@[p]),
            decreases n - i,
        {
            data.push(self.0[i] + other.0[i]);
            i += 1;
        }
        Some(VectorImpl(data))
    }

    /// The elementwise difference, or nothing where the sizes differ.
    pub fn subtract(&self, other: &Self) -> (r: Option<VectorImpl<T, ROWS, COLS>>)
        ensures
            r.is_some() <==> self@.len() == other@.len(),
            r matches Some(v) ==> v@ == minus_spec(self@, other@),
    {
        if self.0.len() != other.0.len() {
            return None;
        }
        proof {
            T::arithmetic_is_total();
        }
        let n = self.0.len();
        let mut data: Vec<T> = Vec::new();
        let mut i: usize = 0;
        while i < n
            invariant
                T::obeys_sub_spec(),
                forall|a: T, b: T| #[trigger] a.sub_req(b),
                n == self.0@.len(),
                n == other.0@.len(),
                i <= n,
                data@.len() == i,
                forall|p: int| 0 <= p < i ==> data@[p] == self.0@[p].sub_spec(other.0@[p]),
            decreases n - i,
        {
            data.push(self.0[i] - other.0[i]);
            i += 1;
        }
        Some(VectorImpl(data))
    }

    /// Every element multiplied by `scalar`.
    pub fn scale(&self, scalar: T) -> (r: VectorImpl<T, ROWS, COLS>)
        ensures
            r@ == scaled_spec(self@, scalar),
    {
        proof {
            T::arithmetic_is_total();
        }
        let n = self.0.len();
        let mut data: Vec<T> = Vec::new();
        let mut i: usize = 0;
        while i < n
            invariant
                T::obeys_mul_spec(),
                forall|a: T, b: T| #[trigger] a.mul_req(b),
                n == self.0@.len(),
                i <= n,
                data@.len() == i,
                forall|p: int| 0 <= p < i ==> data@[p] == self.0@[p].mul_spec(scalar),
            decreases n - i,
        {
            data.push(self.0[i] * scalar);
            i += 1;
        }
        VectorImpl(data)
    }

    /// Adds `other` in place, or reports that the sizes differ and changes
    /// nothing.
    pub fn try_add_assign(&mut self, other: &Self) -> (r: Result<(), ShapeMismatch>)
        ensures
            r.is_ok() <==> old(self)@.len() == other@.len(),
            r.is_ok() ==> final(self)@ == plus_spec(old(self)@, other@),
            r.is_err() ==> final(self)@ == old(self)@,
    {
        match self.add_to(other) {
            Some(result) => {
                *self = result;
                Ok(())
            },
            None => Err(ShapeMismatch),
        }
    }

    /// Subtracts `other` in place, or reports that the sizes differ and
    /// changes nothing.
    pub fn try_sub_assign(&mut self, other: &Self) -> (r: Result<(), ShapeMismatch>)
        ensures
            r.is_ok() <==> old(self)@.len() == other@.len(),
            r.is_ok() ==> final(self)@ == minus_spec(old(self)@, other@),
            r.is_err() ==> final(self)@ == old(self)@,
    {
        match self.subtract(other) {
            Some(result) => {
                *self = result;
                Ok(())
            },
            None => Err(ShapeMismatch),
        }
    }

    /// A copy of the elements.
    fn copy_elements(&self) -> (data: Vec<T>)
        ensures
            data@ == self@,
    {
        copy_of(&self.0)
    }
}

/// A vector with the same elements, copied one by one.
pub fn copy_of<T: Float>(source: &Vec<T>) -> (data: Vec<T>)
    ensures
        data@ == source@,
{
    let n = source.len();
    let mut data: Vec<T> = Vec::new();
    let mut i: usize = 0;
    while i < n
        invariant
            n == source@.len(),
            i <= n,
            data@.len() == i,
            forall|p: int| 0 <= p < i ==> data@[p] == source@[p],
        decreases n - i,
    {
        data.push(source[i]);
        i += 1;
    }
    data
}

impl<T: Float, const ROWS: usize, const COLS: usize> Clone for VectorImpl<T, ROWS, COLS> {
    fn clone(&self) -> (r: Self)
        ensures
            r@ == self@,
    {
        VectorImpl(self.copy_elements())
    }
}

impl<T: Float> ColumnVector<T> {
    /// `matrix * self`, or nothing where the matrix has not as many columns
    /// as the vector has elements.
    pub fn mul_matrix(&self, matrix: &Matrix<T>) -> (r: Option<ColumnVector<T>>)
        requires
            matrix.wf(),
        ensures
            r.is_some() <==> matrix.cols == self@.len(),
            r matches Some(v) ==> v@ == matrix_times_column(matrix@, self@),
    {
        if matrix.cols != self.0.len() {
            return None;
        }
        proof {
            T::arithmetic_is_total();
        }
        let mut data: Vec<T> = Vec::new();
        let mut i: usize = 0;
        while i < matrix.rows
            invariant
                T::obeys_add_spec(),
                T::obeys_mul_spec(),
                forall|a: T, b: T| #[trigger] a.add_req(b),
                forall|a: T, b: T| #[trigger] a.mul_req(b),
                matrix.wf(),
                matrix.cols == self.0@.len(),
                i <= matrix.rows,
                data@.len() == i,
                forall|p: int|
                    0 <= p < i ==> data@[p] == matrix_row_prefix(
                        matrix@,
                        self@,
                        p,
                        matrix.cols as nat,
                    ),
            decreases matrix.rows - i,
        {
            let mut sum = T::zero();
            let mut j: usize = 0;
            while j < matrix.cols
                invariant
                    T::obeys_add_spec(),
                    T::obeys_mul_spec(),
                    forall|a: T, b: T| #[trigger] a.add_req(b),
                    forall|a: T, b: T| #[trigger] a.mul_req(b),
                    matrix.wf(),
                    matrix.cols == self.0@.len(),
                    i < matrix.rows,
                    j <= matrix.cols,
                    sum == matrix_row_prefix(matrix@, self@, i as int, j as nat),
                decreases matrix.cols - j,
            {
                sum = sum + matrix.get(i, j) * self.0[j];
                j += 1;
            }
            data.push(sum);
            i += 1;
        }
        Some(VectorImpl(data))
    }

    /// Multiplies by `matrix` in place, or reports that the shapes do not
    /// fit and changes nothing.
    pub fn try_mul_assign(&mut self, matrix: &Matrix<T>) -> (r: Result<(), ShapeMismatch>)
        requires
            matrix.wf(),
        ensures
            r.is_ok() <==> matrix.cols == old(self)@.len(),
            r.is_ok() ==> final(self)@ == matrix_times_column(matrix@, old(self)@),
            r.is_err() ==> final(self)@ == old(self)@,
    {
        match self.mul_matrix(matrix) {
            Some(result) => {
                *self = result;
                Ok(())
            },
            None => Err(ShapeMismatch),
        }
    }

    /// The row vector with the same elements.
    pub fn transpose(&self) -> (r: RowVector<T>)
        ensures
            r@ == self@,
    {
        VectorImpl(self.copy_elements())
    }
}

impl<T: Float> RowVector<T> {
    /// `self * matrix`, or nothing where the vector has not as many elements
    /// as the matrix has rows.
    pub fn mul_matrix(&self, matrix: &Matrix<T>) -> (r: Option<RowVector<T>>)
        requires
            matrix.wf(),
        ensures
            r.is_some() <==> self@.len() == matrix.rows,
            r matches Some(v) ==> v@ == row_times_matrix(self@, matrix@),
    {
        if self.0.len() != matrix.rows {
            return None;
        }
        proof {
            T::arithmetic_is_total();
        }
        let mut data: Vec<T> = Vec::new();
        let mut j: usize = 0;
        while j < matrix.cols
            invariant
                T::obeys_add_spec(),
                T::obeys_mul_spec(),
                forall|a: T, b: T| #[trigger] a.add_req(b),
                forall|a: T, b: T| #[trigger] a.mul_req(b),
                matrix.wf(),
                matrix.rows == self.0@.len(),
                j <= matrix.cols,
                data@.len() == j,
                forall|p: int|
                    0 <= p < j ==> data@[p] == matrix_col_prefix(
                        self@,
                        matrix@,
                        p,
                        matrix.rows as nat,
                    ),
            decreases matrix.cols - j,
        {
            let mut sum = T::zero();
            let mut i: usize = 0;
            while i < matrix.rows
                invariant
                    T::obeys_add_spec(),
                    T::obeys_mul_spec(),
                    forall|a: T, b: T| #[trigger] a.add_req(b),
                    forall|a: T, b: T| #[trigger] a.mul_req(b),
                    matrix.wf(),
                    matrix.rows == self.0@.len(),
                    j < matrix.cols,
                    i <= matrix.rows,
                    sum == matrix_col_prefix(self@, matrix@, j as int, i as nat),
                decreases matrix.rows - i,
            {
                sum = sum + self.0[i] * matrix.get(i, j);
                i += 1;
            }
            data.push(sum);
            j += 1;
        }
        Some(VectorImpl(data))
    }

    /// Multiplies by `matrix` in place, or reports that the shapes do not
    /// fit and changes nothing.
    pub fn try_mul_assign(&mut self, matrix: &Matrix<T>) -> (r: Result<(), ShapeMismatch>)
        requires
            matrix.wf(),
        ensures
            r.is_ok() <==> old(self)@.len() == matrix.rows,
            r.is_ok() ==> final(self)@ == row_times_matrix(old(self)@, matrix@),
            r.is_err() ==> final(self)@ == old(self)@,
    {
        match self.mul_matrix(matrix) {
            Some(result) => {
                *self = result;
                Ok(())
            },
            None => Err(ShapeMismatch),
        }
    }

    /// The column vector with the same elements.
    pub fn transpose(&self) -> (r: ColumnVector<T>)
        ensures
            r@ == self@,
    {
        VectorImpl(self.copy_elements())
    }
}

impl<T: Float> VectorMatrix<T> for RowVector<T> {
    open spec fn as_matrix(entries: Seq<T>) -> MatrixView<T> {
        row_matrix(entries)
    }

    fn to_matrix(&self) -> (r: Matrix<T>) {
        let data = self.copy_elements();
        Matrix::new(1, data.len(), data)
    }

    fn from_matrix(matrix: &Matrix<T>) -> (r: Self) {
        VectorImpl(copy_of(&matrix.data))
    }
}

impl<T: Float> VectorMatrix<T> for ColumnVector<T> {
    open spec fn as_matrix(entries: Seq<T>) -> MatrixView<T> {
        column_matrix(entries)
    }

    fn to_matrix(&self) -> (r: Matrix<T>) {
        let data = self.copy_elements();
        Matrix::new(data.len(), 1, data)
    }

    fn from_matrix(matrix: &Matrix<T>) -> (r: Self) {
        VectorImpl(copy_of(&matrix.data))
    }
}

impl<T: Float, const ROWS: usize, const COLS: usize> Index<usize> for VectorImpl<T, ROWS, COLS> {
    type Output = T;

    fn index(&self, index: usize) -> (r: &T)
        ensures
            *r == self@[index as int],
    {
        &self.0[index]
    }
}

impl<T: Float, const ROWS: usize, const COLS: usize> vstd::std_specs::core::IndexSpecImpl<usize> for VectorImpl<T, ROWS, COLS> {
    open spec fn index_req(&self, index: &usize) -> bool {
        *index < self@.len()
    }
}

impl<T: Float, const ROWS: usize, const COLS: usize> IndexMut<usize> for VectorImpl<T, ROWS, COLS> {
    fn index_mut(&mut self, index: usize) -> (r: &mut T)
        requires
            index < old(self)@.len(),
        ensures
            *r == old(self)@[index as int],
            final(self)@ == old(self)@.update(index as int, *final(r)),
    {
        &mut self.0[index]
    }
}

impl<'a, T: Float, const ROWS: usize, const COLS: usize> Add<&'a VectorImpl<T, ROWS, COLS>> for VectorImpl<T, ROWS, COLS> {
    type Output = Option<VectorImpl<T, ROWS, COLS>>;

    fn add(self, other: &'a VectorImpl<T, ROWS, COLS>) -> (r: Option<VectorImpl<T, ROWS, COLS>>)
        ensures
            r.is_some() <==> self@.len() == other@.len(),
            r matches Some(v) ==> v@ == plus_spec(self@, other@),
    {
        self.add_to(other)
    }
}

impl<'a, T: Float, const ROWS: usize, const COLS: usize> vstd::std_specs::ops::AddSpecImpl<&'a VectorImpl<T, ROWS, COLS>> for VectorImpl<T, ROWS, COLS> {
    /// The sum is stated over views, by the operator's own postcondition.
    open spec fn obeys_add_spec() -> bool {
        false
    }

    open spec fn add_req(self, other: &'a VectorImpl<T, ROWS, COLS>) -> bool {
        true
    }

    open spec fn add_spec(self, other: &'a VectorImpl<T, ROWS, COLS>) -> Option<VectorImpl<T, ROWS, COLS>> {
        arbitrary()
    }
}

impl<'a, T: Float, const ROWS: usize, const COLS: usize> Sub<&'a VectorImpl<T, ROWS, COLS>> for VectorImpl<T, ROWS, COLS> {
    type Output = Option<VectorImpl<T, ROWS, COLS>>;

    fn sub(self, other: &'a VectorImpl<T, ROWS, COLS>) -> (r: Option<VectorImpl<T, ROWS, COLS>>)
        ensures
            r.is_some() <==> self@.len() == other@.len(),
            r matches Some(v) ==> v@ == minus_spec(self@, other@),
    {
        self.subtract(other)
    }
}

impl<'a, T: Float, const ROWS: usize, const COLS: usize> vstd::std_specs::ops::SubSpecImpl<&'a VectorImpl<T, ROWS, COLS>> for VectorImpl<T, ROWS, COLS> {
    /// The difference is stated over views, by the operator's own postcondition.
    open spec fn obeys_sub_spec() -> bool {
        false
    }

    open spec fn sub_req(self, other: &'a VectorImpl<T, ROWS, COLS>) -> bool {
        true
    }

    open spec fn sub_spec(self, other: &'a VectorImpl<T, ROWS, COLS>) -> Option<VectorImpl<T, ROWS, COLS>> {
        arbitrary()
    }
}

impl<T: Float, const ROWS: usize, const COLS: usize> Mul<T> for VectorImpl<T, ROWS, COLS> {
    type Output = VectorImpl<T, ROWS, COLS>;

    fn mul(self, scalar: T) -> (r: VectorImpl<T, ROWS, COLS>)
        ensures
            r@ == scaled_spec(self@, scalar),
    {
        self.scale(scalar)
    }
}

impl<T: Float, const ROWS: usize, const COLS: usize> vstd::std_specs::ops::MulSpecImpl<T> for VectorImpl<T, ROWS, COLS> {
    /// The scaled vector is stated over views, by the operator's own postcondition.
    open spec fn obeys_mul_spec() -> bool {
        false
    }

    open spec fn mul_req(self, other: T) -> bool {
        true
    }

    open spec fn mul_spec(self, other: T) -> VectorImpl<T, ROWS, COLS> {
        arbitrary()
    }
}

impl<T: Float, const ROWS: usize, const COLS: usize> Div<T> for VectorImpl<T, ROWS, COLS> {
    type Output = VectorImpl<T, ROWS, COLS>;

    /// Division scales by the reciprocal `1 / scalar`.
    fn div(self, scalar: T) -> (r: VectorImpl<T, ROWS, COLS>)
        ensures
            r@ == scaled_spec(self@, T::one_spec().div_spec(scalar)),
    {
        proof {
            T::arithmetic_is_total();
        }
        self.scale(T::one() / scalar)
    }
}

impl<T: Float, const ROWS: usize, const COLS: usize> vstd::std_specs::ops::DivSpecImpl<T> for VectorImpl<T, ROWS, COLS> {
    /// The scaled vector is stated over views, by the operator's own postcondition.
    open spec fn obeys_div_spec() -> bool {
        false
    }

    open spec fn div_req(self, other: T) -> bool {
        true
    }

    open spec fn div_spec(self, other: T) -> VectorImpl<T, ROWS, COLS> {
        arbitrary()
    }
}

impl<T: Float, const ROWS: usize, const COLS: usize> AddAssign<VectorImpl<T, ROWS, COLS>> for VectorImpl<T, ROWS, COLS> {
    /// Adds `other` in place; where the sizes differ, nothing changes.
    fn add_assign(&mut self, other: VectorImpl<T, ROWS, COLS>)
        ensures
            old(self)@.len() == other@.len() ==> final(self)@ == plus_spec(old(self)@, other@),
            old(self)@.len() != other@.len() ==> final(self)@ == old(self)@,
    {
        if let Some(result) = self.add_to(&other) {
            *self = result;
        }
    }
}

impl<T: Float, const ROWS: usize, const COLS: usize> SubAssign<VectorImpl<T, ROWS, COLS>> for VectorImpl<T, ROWS, COLS> {
    /// Subtracts `other` in place; where the sizes differ, nothing changes.
    fn sub_assign(&mut self, other: VectorImpl<T, ROWS, COLS>)
        ensures
            old(self)@.len() == other@.len() ==> final(self)@ == minus_spec(old(self)@, other@),
            old(self)@.len() != other@.len() ==> final(self)@ == old(self)@,
    {
        if let Some(result) = self.subtract(&other) {
            *self = result;
        }
    }
}

impl<T: Float, const ROWS: usize, const COLS: usize> MulAssign<T> for VectorImpl<T, ROWS, COLS> {
    fn mul_assign(&mut self, scalar: T)
        ensures
            final(self)@ == scaled_spec(old(self)@, scalar),
    {
        *self = self.scale(scalar);
    }
}

impl<T: Float, const ROWS: usize, const COLS: usize> DivAssign<T> for VectorImpl<T, ROWS, COLS> {
    /// Division scales by the reciprocal `1 / scalar`.
    fn div_assign(&mut self, scalar: T)
        ensures
            final(self)@ == scaled_spec(old(self)@, T::one_spec().div_spec(scalar)),
    {
        proof {
            T::arithmetic_is_total();
        }
        *self = self.scale(T::one() / scalar);
    }
}

impl<'a, T: Float> Mul<&'a Matrix<T>> for RowVector<T> {
    type Output = Option<RowVector<T>>;

    fn mul(self, matrix: &'a Matrix<T>) -> (r: Option<RowVector<T>>)
        ensures
            r.is_some() <==> self@.len() == matrix.rows,
            r matches Some(v) ==> v@ == row_times_matrix(self@, matrix@),
    {
        self.mul_matrix(matrix)
    }
}

impl<'a, T: Float> vstd::std_specs::ops::MulSpecImpl<&'a Matrix<T>> for RowVector<T> {
    /// The product is stated over views, by the operator's own postcondition.
    open spec fn obeys_mul_spec() -> bool {
        false
    }

    open spec fn mul_req(self, matrix: &'a Matrix<T>) -> bool {
        matrix.wf()
    }

    open spec fn mul_spec(self, matrix: &'a Matrix<T>) -> Option<RowVector<T>> {
        arbitrary()
    }
}

impl<'a, T: Float> MulAssign<&'a Matrix<T>> for RowVector<T> {
    /// Multiplies by `matrix` in place; where the shapes do not fit, nothing changes.
    fn mul_assign(&mut self, matrix: &'a Matrix<T>)
        requires
            matrix.wf(),
        ensures
            old(self)@.len() == matrix.rows ==> final(self)@ == row_times_matrix(old(self)@, matrix@),
            !(old(self)@.len() == matrix.rows) ==> final(self)@ == old(self)@,
    {
        if let Some(result) = self.mul_matrix(matrix) {
            *self = result;
        }
    }
}

impl<'a, T: Float> Mul<&'a Matrix<T>> for ColumnVector<T> {
    type Output = Option<ColumnVector<T>>;

    fn mul(self, matrix: &'a Matrix<T>) -> (r: Option<ColumnVector<T>>)
        ensures
            r.is_some() <==> matrix.cols == self@.len(),
            r matches Some(v) ==> v@ == matrix_times_column(matrix@, self@),
    {
        self.mul_matrix(matrix)
    }
}

impl<'a, T: Float> vstd::std_specs::ops::MulSpecImpl<&'a Matrix<T>> for ColumnVector<T> {
    /// The product is stated over views, by the operator's own postcondition.
    open spec fn obeys_mul_spec() -> bool {
        false
    }

    open spec fn mul_req(self, matrix: &'a Matrix<T>) -> bool {
        matrix.wf()
    }

    open spec fn mul_spec(self, matrix: &'a Matrix<T>) -> Option<ColumnVector<T>> {
        arbitrary()
    }
}

impl<'a, T: Float> MulAssign<&'a Matrix<T>> for ColumnVector<T> {
    /// Multiplies by `matrix` in place; where the shapes do not fit, nothing changes.
    fn mul_assign(&mut self, matrix: &'a Matrix<T>)
        requires
            matrix.wf(),
        ensures
            matrix.cols == old(self)@.len() ==> final(self)@ == matrix_times_column(matrix@, old(self)@),
            !(matrix.cols == old(self)@.len()) ==> final(self)@ == old(self)@,
    {
        if let Some(result) = self.mul_matrix(matrix) {
            *self = result;
        }
    }
}

} // verus!
