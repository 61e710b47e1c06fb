//! What holds of the matrix and vector operations taken together.

use crate::maths::vector::{column_matrix, row_matrix};
use crate::maths::layout::{lemma_cell_place, lemma_place_cell};
use crate::maths::matrix::MatrixView;
use crate::maths::numeric::{Float, Numeric};
use vstd::prelude::*;
use vstd::std_specs::ops::{AddSpec, MulSpec};

verus! {

/// The Kronecker product of two matrices has as many rows as the product of
/// their row counts and as many columns as the product of their column
/// counts, and holds one entry for each of its cells.
pub proof fn lemma_kronecker_shape<T: Float>(a: MatrixView<T>, b: MatrixView<T>)
    ensures
        a.kronecker(b).rows == a.rows * b.rows,
        a.kronecker(b).cols == a.cols * b.cols,
        a.kronecker(b).wf(),
{
}

/// The entry of a Kronecker product at `(i * b.rows + k, j * b.cols + l)` is
/// the product of the entries `a.at(i, j)` and `b.at(k, l)`.
pub proof fn lemma_kronecker_entry<T: Float>(
    a: MatrixView<T>,
    b: MatrixView<T>,
    i: int,
    j: int,
    k: int,
    l: int,
)
    requires
        0 <= i < a.rows,
        0 <= j < a.cols,
        0 <= k < b.rows,
        0 <= l < b.cols,
    ensures
        a.kronecker(b).at(i * b.rows + k, j * b.cols + l) == vstd::std_specs::ops::MulSpec::mul_spec(
            a.at(i, j),
            b.at(k, l),
        ),
{
    let rows = (a.rows * b.rows) as int;
    let cols = (a.cols * b.cols) as int;
    let row = i * b.rows + k;
    let col = j * b.cols + l;
    lemma_cell_place(a.rows as int, b.rows as int, i, k);
    lemma_cell_place(a.cols as int, b.cols as int, j, l);
    lemma_cell_place(rows, cols, row, col);
}

/// A column vector turned into a matrix and back has its own elements again.
pub proof fn lemma_column_round_trip<T: Float>(entries: Seq<T>)
    ensures
        column_matrix(entries).wf(),
        column_matrix(entries).data == entries,
{
}

/// A row vector turned into a matrix and back has its own elements again.
pub proof fn lemma_row_round_trip<T: Float>(entries: Seq<T>)
    ensures
        row_matrix(entries).wf(),
        row_matrix(entries).data == entries,
{
}

/// The addition and multiplication of `T` obey the laws of a semiring:
/// addition is commutative and associative with zero as its identity,
/// multiplication is associative, distributes over addition from both sides,
/// and gives zero where a factor is zero.
///
/// Exact arithmetic has these laws. Rounded floating-point arithmetic does
/// not: there, what the laws imply holds only up to rounding.
#[verifier::opaque]
pub open spec fn semiring_laws<T: Float>() -> bool {
    &&& forall|a: T, b: T| #[trigger] a.add_spec(b) == b.add_spec(a)
    &&& forall|a: T, b: T, c: T| #[trigger] a.add_spec(b).add_spec(c) == a.add_spec(b.add_spec(c))
    &&& forall|a: T| #[trigger] a.add_spec(T::zero_spec()) == a
    &&& forall|a: T, b: T, c: T| #[trigger] a.mul_spec(b).mul_spec(c) == a.mul_spec(b.mul_spec(c))
    &&& forall|a: T, b: T, c: T|
        #[trigger] a.mul_spec(b.add_spec(c)) == a.mul_spec(b).add_spec(a.mul_spec(c))
    &&& forall|a: T, b: T, c: T|
        #[trigger] a.add_spec(b).mul_spec(c) == a.mul_spec(c).add_spec(b.mul_spec(c))
    &&& forall|a: T| #[trigger] a.mul_spec(T::zero_spec()) == T::zero_spec()
    &&& forall|a: T| #[trigger] T::zero_spec().mul_spec(a) == T::zero_spec()
}

proof fn lemma_add_zero<T: Float>(a: T)
    requires
        semiring_laws::<T>(),
    ensures
        a.add_spec(T::zero_spec()) == a,
{
    reveal(semiring_laws);
}

proof fn lemma_zero_times<T: Float>(a: T)
    requires
        semiring_laws::<T>(),
    ensures
        T::zero_spec().mul_spec(a) == T::zero_spec(),
        a.mul_spec(T::zero_spec()) == T::zero_spec(),
{
    reveal(semiring_laws);
}

proof fn lemma_mul_associative<T: Float>(a: T, b: T, c: T)
    requires
        semiring_laws::<T>(),
    ensures
        a.mul_spec(b).mul_spec(c) == a.mul_spec(b.mul_spec(c)),
{
    reveal(semiring_laws);
}

proof fn lemma_distributes_left<T: Float>(a: T, b: T, c: T)
    requires
        semiring_laws::<T>(),
    ensures
        a.mul_spec(b.add_spec(c)) == a.mul_spec(b).add_spec(a.mul_spec(c)),
{
    reveal(semiring_laws);
}

proof fn lemma_distributes_right<T: Float>(a: T, b: T, c: T)
    requires
        semiring_laws::<T>(),
    ensures
        a.add_spec(b).mul_spec(c) == a.mul_spec(c).add_spec(b.mul_spec(c)),
{
    reveal(semiring_laws);
}

/// `(x + t) + (u + v) == (x + u) + (t + v)`.
proof fn lemma_add_shuffle<T: Float>(x: T, t: T, u: T, v: T)
    requires
        semiring_laws::<T>(),
    ensures
        x.add_spec(t).add_spec(u.add_spec(v)) == x.add_spec(u).add_spec(t.add_spec(v)),
{
    reveal(semiring_laws);
    // (x + t) + (u + v) == x + (t + (u + v)) == x + ((t + u) + v)
    assert(x.add_spec(t).add_spec(u.add_spec(v)) == x.add_spec(t.add_spec(u.add_spec(v))));
    assert(t.add_spec(u).add_spec(v) == t.add_spec(u.add_spec(v)));
    // (x + u) + (t + v) == x + (u + (t + v)) == x + ((u + t) + v)
    assert(x.add_spec(u).add_spec(t.add_spec(v)) == x.add_spec(u.add_spec(t.add_spec(v))));
    assert(u.add_spec(t).add_spec(v) == u.add_spec(t.add_spec(v)));
    // t + u == u + t
    assert(t.add_spec(u) == u.add_spec(t));
}

/// The sum over `k < terms` of
/// `(a.at(row, 0) * b.at(0, k) + .. + a.at(row, inner - 1) * b.at(inner - 1, k)) * c.at(k, col)`:
/// the entry of `(a * b) * c`, with the sums over the first `inner` columns of `a`.
pub open spec fn grouped_left<T: Float>(
    a: MatrixView<T>,
    b: MatrixView<T>,
    c: MatrixView<T>,
    row: int,
    col: int,
    inner: nat,
    terms: nat,
) -> T
    decreases terms,
{
    if terms == 0 {
        T::zero_spec()
    } else {
        grouped_left(a, b, c, row, col, inner, (terms - 1) as nat).add_spec(
            a.product_prefix(b, row, terms - 1, inner).mul_spec(c.at(terms - 1, col)),
        )
    }
}

/// The sum over `j < terms` of
/// `a.at(row, j) * (b.at(j, 0) * c.at(0, col) + .. + b.at(j, inner - 1) * c.at(inner - 1, col))`:
/// the entry of `a * (b * c)`, with the sums over the first `inner` rows of `c`.
pub open spec fn grouped_right<T: Float>(
    a: MatrixView<T>,
    b: MatrixView<T>,
    c: MatrixView<T>,
    row: int,
    col: int,
    terms: nat,
    inner: nat,
) -> T
    decreases terms,
{
    if terms == 0 {
        T::zero_spec()
    } else {
        grouped_right(a, b, c, row, col, (terms - 1) as nat, inner).add_spec(
            a.at(row, terms - 1).mul_spec(b.product_prefix(c, terms - 1, col, inner)),
        )
    }
}

/// The sum over `k < terms` of `(factor * b.at(j, k)) * c.at(k, col)`.
pub open spec fn scaled_row<T: Float>(
    factor: T,
    b: MatrixView<T>,
    c: MatrixView<T>,
    j: int,
    col: int,
    terms: nat,
) -> T
    decreases terms,
{
    if terms == 0 {
        T::zero_spec()
    } else {
        scaled_row(factor, b, c, j, col, (terms - 1) as nat).add_spec(
            factor.mul_spec(b.at(j, terms - 1)).mul_spec(c.at(terms - 1, col)),
        )
    }
}

proof fn lemma_scaled_row<T: Float>(
    factor: T,
    b: MatrixView<T>,
    c: MatrixView<T>,
    j: int,
    col: int,
    terms: nat,
)
    requires
        semiring_laws::<T>(),
    ensures
        scaled_row(factor, b, c, j, col, terms) == factor.mul_spec(
            b.product_prefix(c, j, col, terms),
        ),
    decreases terms,
{
    if terms == 0 {
        lemma_zero_times(factor);
    } else {
        let before = (terms - 1) as nat;
        lemma_scaled_row(factor, b, c, j, col, before);
        let x = b.at(j, terms - 1);
        let y = c.at(terms - 1, col);
        lemma_mul_associative(factor, x, y);
        lemma_distributes_left(factor, b.product_prefix(c, j, col, before), x.mul_spec(y));
    }
}

proof fn lemma_grouped_left_of_nothing<T: Float>(
    a: MatrixView<T>,
    b: MatrixView<T>,
    c: MatrixView<T>,
    row: int,
    col: int,
    terms: nat,
)
    requires
        semiring_laws::<T>(),
    ensures
        grouped_left(a, b, c, row, col, 0, terms) == T::zero_spec(),
    decreases terms,
{
    if terms > 0 {
        lemma_grouped_left_of_nothing(a, b, c, row, col, (terms - 1) as nat);
        lemma_zero_times(c.at(terms - 1, col));
        lemma_add_zero(T::zero_spec());
    }
}

proof fn lemma_grouped_left_grows<T: Float>(
    a: MatrixView<T>,
    b: MatrixView<T>,
    c: MatrixView<T>,
    row: int,
    col: int,
    inner: nat,
    terms: nat,
)
    requires
        semiring_laws::<T>(),
        inner >= 1,
    ensures
        grouped_left(a, b, c, row, col, inner, terms) == grouped_left(
            a,
            b,
            c,
            row,
            col,
            (inner - 1) as nat,
            terms,
        ).add_spec(scaled_row(a.at(row, inner - 1), b, c, inner - 1, col, terms)),
    decreases terms,
{
    let fewer = (inner - 1) as nat;
    let factor = a.at(row, inner - 1);
    if terms == 0 {
        lemma_add_zero(T::zero_spec());
    } else {
        let before = (terms - 1) as nat;
        lemma_grouped_left_grows(a, b, c, row, col, inner, before);
        let y = c.at(terms - 1, col);
        let short = a.product_prefix(b, row, terms - 1, fewer);
        let last = factor.mul_spec(b.at(inner - 1, terms - 1));
        lemma_distributes_right(short, last, y);
        lemma_add_shuffle(
            grouped_left(a, b, c, row, col, fewer, before),
            scaled_row(factor, b, c, inner - 1, col, before),
            short.mul_spec(y),
            last.mul_spec(y),
        );
    }
}

proof fn lemma_groupings_agree<T: Float>(
    a: MatrixView<T>,
    b: MatrixView<T>,
    c: MatrixView<T>,
    row: int,
    col: int,
    inner: nat,
    terms: nat,
)
    requires
        semiring_laws::<T>(),
    ensures
        grouped_left(a, b, c, row, col, inner, terms) == grouped_right(
            a,
            b,
            c,
            row,
            col,
            inner,
            terms,
        ),
    decreases inner,
{
    if inner == 0 {
        lemma_grouped_left_of_nothing(a, b, c, row, col, terms);
    } else {
        lemma_groupings_agree(a, b, c, row, col, (inner - 1) as nat, terms);
        lemma_grouped_left_grows(a, b, c, row, col, inner, terms);
        lemma_scaled_row(a.at(row, inner - 1), b, c, inner - 1, col, terms);
    }
}

/// The entry of a product at `(row, col)` is the sum that defines it.
pub proof fn lemma_product_entry<T: Float>(a: MatrixView<T>, b: MatrixView<T>, row: int, col: int)
    requires
        0 <= row < a.rows,
        0 <= col < b.cols,
    ensures
        a.product(b).at(row, col) == a.product_prefix(b, row, col, a.cols),
{
    lemma_cell_place(a.rows as int, b.cols as int, row, col);
}

proof fn lemma_left_entry<T: Float>(
    a: MatrixView<T>,
    b: MatrixView<T>,
    c: MatrixView<T>,
    row: int,
    col: int,
    terms: nat,
)
    requires
        0 <= row < a.rows,
        terms <= b.cols,
    ensures
        a.product(b).product_prefix(c, row, col, terms) == grouped_left(
            a,
            b,
            c,
            row,
            col,
            a.cols,
            terms,
        ),
    decreases terms,
{
    if terms > 0 {
        lemma_left_entry(a, b, c, row, col, (terms - 1) as nat);
        lemma_product_entry(a, b, row, terms - 1);
    }
}

proof fn lemma_right_entry<T: Float>(
    a: MatrixView<T>,
    b: MatrixView<T>,
    c: MatrixView<T>,
    row: int,
    col: int,
    terms: nat,
)
    requires
        0 <= col < c.cols,
        terms <= b.rows,
    ensures
        a.product_prefix(b.product(c), row, col, terms) == grouped_right(
            a,
            b,
            c,
            row,
            col,
            terms,
            b.cols,
        ),
    decreases terms,
{
    if terms > 0 {
        lemma_right_entry(a, b, c, row, col, (terms - 1) as nat);
        lemma_product_entry(b, c, terms - 1, col);
    }
}

/// The matrix product is associative over an element type whose arithmetic
/// obeys the semiring laws: for matrices of fitting shapes,
/// `(a * b) * c` and `a * (b * c)` are the same matrix.
pub proof fn lemma_product_associative<T: Float>(
    a: MatrixView<T>,
    b: MatrixView<T>,
    c: MatrixView<T>,
)
    requires
        semiring_laws::<T>(),
        a.wf(),
        b.wf(),
        c.wf(),
        a.cols == b.rows,
        b.cols == c.rows,
    ensures
        a.product(b).product(c) == a.product(b.product(c)),
{
    let left = a.product(b).product(c);
    let right = a.product(b.product(c));
    assert forall|place: int| 0 <= place < left.data.len() implies left.data[place]
        == right.data[place] by {
        lemma_place_cell(a.rows as int, c.cols as int, place);
        let row = place / (c.cols as int);
        let col = place % (c.cols as int);
        lemma_left_entry(a, b, c, row, col, b.cols);
        lemma_right_entry(a, b, c, row, col, b.rows);
        lemma_groupings_agree(a, b, c, row, col, a.cols, b.cols);
    }
    assert(left.data =~= right.data);
}

} // verus!
