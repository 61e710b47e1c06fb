use libpsi::{Float, Numeric, Real};
use std::ops::{Add, Div, Mul, Neg, Sub};

/// A double-precision element for the tests.
#[derive(Clone, Copy, Debug, PartialEq, PartialOrd)]
struct F(f64);

impl Add for F {
    type Output = F;
    fn add(self, other: F) -> F {
        F(self.0 + other.0)
    }
}

impl Sub for F {
    type Output = F;
    fn sub(self, other: F) -> F {
        F(self.0 - other.0)
    }
}

impl Mul for F {
    type Output = F;
    fn mul(self, other: F) -> F {
        F(self.0 * other.0)
    }
}

impl Div for F {
    type Output = F;
    fn div(self, other: F) -> F {
        F(self.0 / other.0)
    }
}

impl Neg for F {
    type Output = F;
    fn neg(self) -> F {
        F(-self.0)
    }
}

impl Numeric for F {
    fn zero_spec() -> F {
        F(0.0)
    }
    fn one_spec() -> F {
        F(1.0)
    }
    fn zero() -> F {
        F(0.0)
    }
    fn one() -> F {
        F(1.0)
    }
}

impl Float for F {
    fn sqrt_spec(self) -> F {
        F(libm::sqrt(self.0))
    }
    fn atan2_spec(y: F, x: F) -> F {
        F(libm::atan2(y.0, x.0))
    }
    fn sqrt(self) -> F {
        F(libm::sqrt(self.0))
    }
    fn atan2(y: F, x: F) -> F {
        F(libm::atan2(y.0, x.0))
    }
    fn arithmetic_is_total() {}
}

impl Real for F {
    fn cos_spec(self) -> F {
        F(libm::cos(self.0))
    }
    fn sin_spec(self) -> F {
        F(libm::sin(self.0))
    }
    fn cos(self) -> F {
        F(libm::cos(self.0))
    }
    fn sin(self) -> F {
        F(libm::sin(self.0))
    }
}

use libpsi::{
    ColumnVector, Complex, Integer, Matrix, RowVector, ShapeMismatch, Vector, VectorMatrix,
};
use std::ops::{AddAssign, DivAssign, MulAssign, SubAssign};

fn c(re: f64, im: f64) -> Complex<F> {
    Complex::new(F(re), F(im))
}

fn reals(values: &[f64]) -> Vec<F> {
    values.iter().map(|v| F(*v)).collect()
}

fn matrix(rows: usize, cols: usize, values: &[f64]) -> Matrix<F> {
    assert_eq!(values.len(), rows * cols);
    Matrix::new(rows, cols, reals(values))
}

fn entries(m: &Matrix<F>) -> Vec<f64> {
    m.data.iter().map(|v| v.0).collect()
}

fn elements<V: Vector<F>>(v: &V) -> Vec<f64> {
    (0..v.size()).map(|i| v.get(i).0).collect()
}

fn close(a: f64, b: f64) -> bool {
    (a - b).abs() < 1e-9
}

fn identity_of<T: Integer>() -> (T, T) {
    (T::zero(), T::one())
}

#[test]
fn integers_have_their_identities() {
    assert_eq!(<i32 as Numeric>::zero(), 0);
    assert_eq!(<i32 as Numeric>::one(), 1);
    assert_eq!(<i64 as Numeric>::zero(), 0);
    assert_eq!(<i64 as Numeric>::one(), 1);
    assert_eq!(identity_of::<i32>(), (0, 1));
    assert_eq!(identity_of::<i64>(), (0, 1));
}

#[test]
fn complex_new_keeps_both_parts() {
    let z = c(1.5, -2.5);
    assert_eq!(z.real, F(1.5));
    assert_eq!(z.imaginary, F(-2.5));
}

#[test]
fn complex_conjugate_negates_the_imaginary_part() {
    let z = c(3.0, 4.0);
    assert_eq!(z.get_conjugate(), c(3.0, -4.0));
    let mut w = c(3.0, 4.0);
    w.conjugate();
    assert_eq!(w, c(3.0, -4.0));
}

#[test]
fn complex_norm_abs_and_phase() {
    let z = c(3.0, 4.0);
    assert_eq!(z.norm(), F(25.0));
    assert_eq!(z.norm2(), F(25.0));
    assert_eq!(z.abs(), F(5.0));
    assert!(close(c(1.0, 1.0).phase().0, std::f64::consts::FRAC_PI_4));
    assert!(close(c(-1.0, 0.0).phase().0, std::f64::consts::PI));
}

#[test]
fn complex_arithmetic_follows_the_field_rules() {
    let a = c(1.0, 2.0);
    let b = c(3.0, -1.0);
    assert_eq!(a + b, c(4.0, 1.0));
    assert_eq!(a - b, c(-2.0, 3.0));
    assert_eq!(a * b, c(5.0, 5.0));
    assert_eq!(c(5.0, 5.0) / b, c(1.0, 2.0));
    assert_eq!(-a, c(-1.0, -2.0));
}

#[test]
fn complex_arithmetic_with_a_real_number() {
    let a = c(1.0, 2.0);
    assert_eq!(a + F(2.0), c(3.0, 2.0));
    assert_eq!(a - F(2.0), c(-1.0, 2.0));
    assert_eq!(a * F(2.0), c(2.0, 4.0));
    assert_eq!(a / F(2.0), c(0.5, 1.0));
}

#[test]
fn complex_compound_assignment() {
    let mut z = c(1.0, 2.0);
    z.add_assign(c(3.0, -1.0));
    assert_eq!(z, c(4.0, 1.0));
    z.sub_assign(c(1.0, 1.0));
    assert_eq!(z, c(3.0, 0.0));
    z.mul_assign(c(0.0, 1.0));
    assert_eq!(z, c(0.0, 3.0));
    z.div_assign(c(0.0, 1.0));
    assert_eq!(z, c(3.0, 0.0));
    z.add_assign(F(1.0));
    assert_eq!(z, c(4.0, 0.0));
    z.sub_assign(F(2.0));
    assert_eq!(z, c(2.0, 0.0));
    z.mul_assign(F(3.0));
    assert_eq!(z, c(6.0, 0.0));
    z.div_assign(F(4.0));
    assert_eq!(z, c(1.5, 0.0));
}

#[test]
fn complex_division_by_zero_gives_the_float_result() {
    let z = c(1.0, 1.0) / c(0.0, 0.0);
    assert!(z.real.0.is_infinite() || z.real.0.is_nan());
    assert!(z.imaginary.0.is_infinite() || z.imaginary.0.is_nan());
    let w = c(1.0, -1.0) / F(0.0);
    assert_eq!(w.real.0, f64::INFINITY);
    assert_eq!(w.imaginary.0, f64::NEG_INFINITY);
}

#[test]
fn complex_from_a_real_number_and_identities() {
    assert_eq!(Complex::from(F(2.5)), c(2.5, 0.0));
    assert_eq!(Complex::<F>::zero(), c(0.0, 0.0));
    assert_eq!(Complex::<F>::one(), c(1.0, 0.0));
}

#[test]
fn complex_order_is_lexicographic() {
    assert!(c(1.0, 5.0) < c(2.0, 0.0));
    assert!(c(1.0, 1.0) < c(1.0, 2.0));
    assert!(c(1.0, 2.0) > c(1.0, 1.0));
    assert!(c(1.0, 1.0) == c(1.0, 1.0));
    assert!(c(1.0, 1.0) != c(1.0, 2.0));
    assert_eq!(c(f64::NAN, 0.0).partial_cmp(&c(1.0, 0.0)), None);
}

#[test]
fn complex_square_root_squares_back() {
    let samples = [
        (4.0, 0.0),
        (-4.0, 0.0),
        (0.0, 2.0),
        (-3.0, 4.0),
        (3.0, -4.0),
        (1.0e-3, 7.5),
        (0.0, 0.0),
        (-0.25, -0.75),
    ];
    for (re, im) in samples {
        let z = c(re, im);
        let root = z.sqrt();
        let back = root * root;
        assert!(close(back.real.0, re));
        assert!(close(back.imaginary.0, im));
    }
}

#[test]
fn complex_square_root_is_the_principal_one() {
    let root = c(-4.0, 0.0).sqrt();
    assert!(close(root.real.0, 0.0));
    assert!(close(root.imaginary.0, 2.0));
    let unit = c(0.0, 2.0).sqrt();
    assert!(close(unit.real.0, 1.0));
    assert!(close(unit.imaginary.0, 1.0));
}

#[test]
fn complex_arctangent_goes_part_by_part() {
    let r = Complex::atan2(c(1.0, 0.0), c(1.0, -1.0));
    assert!(close(r.real.0, std::f64::consts::FRAC_PI_4));
    assert!(close(r.imaginary.0, std::f64::consts::PI));
}

#[test]
fn matrix_get_and_set_are_row_major() {
    let mut m = matrix(2, 3, &[1.0, 2.0, 3.0, 4.0, 5.0, 6.0]);
    assert_eq!(m.rows, 2);
    assert_eq!(m.cols, 3);
    assert_eq!(m.get(0, 2), F(3.0));
    assert_eq!(m.get(1, 0), F(4.0));
    assert_eq!(m[(1, 2)], F(6.0));
    m.set(1, 1, F(9.0));
    assert_eq!(entries(&m), vec![1.0, 2.0, 3.0, 4.0, 9.0, 6.0]);
}

#[test]
fn matrix_dot_is_the_matrix_product() {
    let a = matrix(2, 2, &[1.0, 2.0, 3.0, 4.0]);
    let b = matrix(2, 2, &[5.0, 6.0, 7.0, 8.0]);
    let p = a.dot(&b).unwrap();
    assert_eq!((p.rows, p.cols), (2, 2));
    assert_eq!(entries(&p), vec![19.0, 22.0, 43.0, 50.0]);
    let wide = matrix(2, 3, &[1.0, 0.0, 2.0, 0.0, 1.0, 3.0]);
    let tall = matrix(3, 1, &[4.0, 5.0, 6.0]);
    let q = wide.dot(&tall).unwrap();
    assert_eq!((q.rows, q.cols), (2, 1));
    assert_eq!(entries(&q), vec![16.0, 23.0]);
}

#[test]
fn matrix_dot_of_unfit_shapes_is_absent() {
    let a = matrix(2, 3, &[1.0; 6]);
    let b = matrix(2, 3, &[1.0; 6]);
    assert!(a.dot(&b).is_none());
}

#[test]
fn matrix_dot_with_no_inner_dimension_is_all_zero() {
    let a = matrix(2, 0, &[]);
    let b = matrix(0, 2, &[]);
    let p = a.dot(&b).unwrap();
    assert_eq!((p.rows, p.cols), (2, 2));
    assert_eq!(entries(&p), vec![0.0; 4]);
}

#[test]
fn matrix_product_is_associative_on_exact_values() {
    let a = matrix(2, 3, &[1.0, 2.0, 3.0, 4.0, 5.0, 6.0]);
    let b = matrix(3, 2, &[7.0, 8.0, 9.0, 10.0, 11.0, 12.0]);
    let d = matrix(2, 2, &[1.0, -1.0, 2.0, 3.0]);
    let left = a.dot(&b).unwrap().dot(&d).unwrap();
    let right = a.dot(&b.dot(&d).unwrap()).unwrap();
    assert_eq!((left.rows, left.cols), (2, 2));
    assert_eq!(entries(&left), entries(&right));
    assert_eq!(entries(&left), vec![186.0, 134.0, 447.0, 323.0]);
}

#[test]
fn matrix_kronecker_places_every_product() {
    let a = matrix(2, 2, &[1.0, 2.0, 3.0, 4.0]);
    let b = matrix(2, 2, &[0.0, 5.0, 6.0, 7.0]);
    let k = a.kronecker(&b);
    assert_eq!((k.rows, k.cols), (4, 4));
    assert_eq!(
        entries(&k),
        vec![
            0.0, 5.0, 0.0, 10.0, 6.0, 7.0, 12.0, 14.0, 0.0, 15.0, 0.0, 20.0, 18.0, 21.0, 24.0,
            28.0
        ]
    );
    for i in 0..2 {
        for j in 0..2 {
            for r in 0..2 {
                for s in 0..2 {
                    assert_eq!(k.get(i * 2 + r, j * 2 + s), a.get(i, j) * b.get(r, s));
                }
            }
        }
    }
}

#[test]
fn matrix_kronecker_multiplies_the_dimensions() {
    let a = matrix(2, 3, &[1.0; 6]);
    let b = matrix(4, 1, &[2.0; 4]);
    let k = a.kronecker(&b);
    assert_eq!(k.rows, 8);
    assert_eq!(k.cols, 3);
    assert_eq!(k.data.len(), 24);
    let empty = matrix(0, 3, &[]);
    let e = empty.kronecker(&b);
    assert_eq!((e.rows, e.cols), (0, 3));
}

#[test]
fn matrix_transpose_swaps_rows_and_columns() {
    let m = matrix(2, 3, &[1.0, 2.0, 3.0, 4.0, 5.0, 6.0]);
    let t = m.transpose();
    assert_eq!((t.rows, t.cols), (3, 2));
    assert_eq!(entries(&t), vec![1.0, 4.0, 2.0, 5.0, 3.0, 6.0]);
}

#[test]
fn matrix_add_subtract_and_scale() {
    let a = matrix(2, 2, &[1.0, 2.0, 3.0, 4.0]);
    let b = matrix(2, 2, &[10.0, 20.0, 30.0, 40.0]);
    assert_eq!(entries(&a.add_to(&b).unwrap()), vec![11.0, 22.0, 33.0, 44.0]);
    assert_eq!(entries(&b.subtract(&a).unwrap()), vec![9.0, 18.0, 27.0, 36.0]);
    assert_eq!(entries(&a.scale(F(3.0))), vec![3.0, 6.0, 9.0, 12.0]);
}

#[test]
fn matrix_shape_mismatch_is_absent() {
    let small = matrix(2, 2, &[1.0; 4]);
    let large = matrix(3, 3, &[1.0; 9]);
    assert!(small.add_to(&large).is_none());
    assert!(small.subtract(&large).is_none());
    assert!(large.add_to(&small).is_none());
    let flat = matrix(1, 4, &[1.0; 4]);
    assert!(small.add_to(&flat).is_none());
    assert!(small.subtract(&flat).is_none());
}

#[test]
fn matrix_operators() {
    let a = matrix(2, 2, &[1.0, 2.0, 3.0, 4.0]);
    let b = matrix(2, 2, &[4.0, 3.0, 2.0, 1.0]);
    assert_eq!(entries(&(a.clone() + &b).unwrap()), vec![5.0; 4]);
    assert_eq!(entries(&(a.clone() - &b).unwrap()), vec![-3.0, -1.0, 1.0, 3.0]);
    assert_eq!(entries(&(a.clone() * F(2.0))), vec![2.0, 4.0, 6.0, 8.0]);
    assert_eq!(entries(&(a.clone() / F(2.0))), vec![0.5, 1.0, 1.5, 2.0]);
    assert!((a + &matrix(3, 3, &[0.0; 9])).is_none());
}

#[test]
fn matrix_compound_assignment_leaves_a_mismatch_unchanged() {
    let mut a = matrix(2, 2, &[1.0, 2.0, 3.0, 4.0]);
    a.add_assign(&matrix(2, 2, &[1.0; 4]));
    assert_eq!(entries(&a), vec![2.0, 3.0, 4.0, 5.0]);
    a.sub_assign(&matrix(2, 2, &[2.0; 4]));
    assert_eq!(entries(&a), vec![0.0, 1.0, 2.0, 3.0]);
    a.add_assign(&matrix(3, 3, &[1.0; 9]));
    assert_eq!((a.rows, a.cols), (2, 2));
    assert_eq!(entries(&a), vec![0.0, 1.0, 2.0, 3.0]);
    a.sub_assign(&matrix(1, 4, &[1.0; 4]));
    assert_eq!(entries(&a), vec![0.0, 1.0, 2.0, 3.0]);
    a.mul_assign(F(4.0));
    assert_eq!(entries(&a), vec![0.0, 4.0, 8.0, 12.0]);
    a.div_assign(F(8.0));
    assert_eq!(entries(&a), vec![0.0, 0.5, 1.0, 1.5]);
}

#[test]
fn matrix_clone_is_a_copy() {
    let a = matrix(1, 2, &[1.0, 2.0]);
    let mut b = a.clone();
    b.set(0, 0, F(7.0));
    assert_eq!(entries(&a), vec![1.0, 2.0]);
    assert_eq!(entries(&b), vec![7.0, 2.0]);
}

#[test]
fn matrix_of_complex_numbers_multiplies_by_the_field_rule() {
    let i = c(0.0, 1.0);
    let a = Matrix::new(1, 2, vec![i, c(1.0, 0.0)]);
    let b = Matrix::new(2, 1, vec![i, c(2.0, 0.0)]);
    let p = a.dot(&b).unwrap();
    assert_eq!(p.get(0, 0), c(1.0, 0.0));
}

#[test]
fn vector_access_and_size() {
    let mut v = ColumnVector::new(reals(&[1.0, 2.0, 3.0]));
    assert_eq!(v.size(), 3);
    assert_eq!(v.get(1), F(2.0));
    assert_eq!(v[2], F(3.0));
    v.set(0, F(5.0));
    assert_eq!(elements(&v), vec![5.0, 2.0, 3.0]);
}

#[test]
fn vector_dot_norm_and_sum() {
    let v = RowVector::new(reals(&[3.0, 4.0]));
    let w = RowVector::new(reals(&[2.0, -1.0]));
    assert_eq!(v.dot(&w), F(2.0));
    assert_eq!(v.norm(), F(5.0));
    assert_eq!(v.sum(), F(7.0));
    let longer = RowVector::new(reals(&[1.0, 1.0, 100.0]));
    assert_eq!(v.dot(&longer), F(7.0));
    let none = RowVector::<F>::new(Vec::new());
    assert_eq!(none.sum(), F(0.0));
    assert_eq!(none.norm(), F(0.0));
    assert_eq!(none.dot(&v), F(0.0));
}

#[test]
fn vector_max_and_min() {
    let v = ColumnVector::new(reals(&[2.0, -7.0, 9.0, 4.0]));
    assert_eq!(v.max(), F(9.0));
    assert_eq!(v.min(), F(-7.0));
    let one = ColumnVector::new(reals(&[3.0]));
    assert_eq!(one.max(), F(3.0));
    assert_eq!(one.min(), F(3.0));
}

#[test]
fn vector_max_and_min_of_nothing_are_zero() {
    let none = ColumnVector::<F>::new(Vec::new());
    assert_eq!(none.max(), F(0.0));
    assert_eq!(none.min(), F(0.0));
}

#[test]
fn vector_max_takes_the_last_and_min_the_first_of_equals() {
    let v = ColumnVector::new(vec![c(1.0, 0.0), c(1.0, 0.0), c(0.5, 9.0)]);
    assert_eq!(v.max(), c(1.0, 0.0));
    let zeros = ColumnVector::new(reals(&[0.0, -0.0]));
    assert!(zeros.max().0.is_sign_negative());
    assert!(zeros.min().0.is_sign_positive());
}

#[test]
fn vector_add_subtract_and_scale() {
    let v = RowVector::new(reals(&[1.0, 2.0, 3.0]));
    let w = RowVector::new(reals(&[10.0, 20.0, 30.0]));
    assert_eq!(elements(&v.add_to(&w).unwrap()), vec![11.0, 22.0, 33.0]);
    assert_eq!(elements(&w.subtract(&v).unwrap()), vec![9.0, 18.0, 27.0]);
    assert_eq!(elements(&v.scale(F(2.0))), vec![2.0, 4.0, 6.0]);
}

#[test]
fn vector_size_mismatch_is_absent() {
    let v = ColumnVector::new(reals(&[1.0, 2.0]));
    let w = ColumnVector::new(reals(&[1.0, 2.0, 3.0]));
    assert!(v.add_to(&w).is_none());
    assert!(v.subtract(&w).is_none());
    assert!(w.add_to(&v).is_none());
}

#[test]
fn vector_operators() {
    let v = RowVector::new(reals(&[1.0, 2.0]));
    let w = RowVector::new(reals(&[3.0, 5.0]));
    assert_eq!(elements(&(v.clone() + &w).unwrap()), vec![4.0, 7.0]);
    assert_eq!(elements(&(v.clone() - &w).unwrap()), vec![-2.0, -3.0]);
    assert_eq!(elements(&(v.clone() * F(3.0))), vec![3.0, 6.0]);
    assert_eq!(elements(&(v.clone() / F(2.0))), vec![0.5, 1.0]);
    let mut u = v.clone();
    u.add_assign(w.clone());
    assert_eq!(elements(&u), vec![4.0, 7.0]);
    u.sub_assign(v.clone());
    assert_eq!(elements(&u), vec![3.0, 5.0]);
    u.add_assign(RowVector::new(reals(&[1.0])));
    assert_eq!(elements(&u), vec![3.0, 5.0]);
    u.sub_assign(RowVector::new(reals(&[1.0, 2.0, 3.0])));
    assert_eq!(elements(&u), vec![3.0, 5.0]);
    u.mul_assign(F(2.0));
    assert_eq!(elements(&u), vec![6.0, 10.0]);
    u.div_assign(F(4.0));
    assert_eq!(elements(&u), vec![1.5, 2.5]);
}

#[test]
fn column_vector_times_matrix() {
    let m = matrix(2, 3, &[1.0, 2.0, 3.0, 4.0, 5.0, 6.0]);
    let v = ColumnVector::new(reals(&[1.0, 0.0, -1.0]));
    let r = v.mul_matrix(&m).unwrap();
    assert_eq!(elements(&r), vec![-2.0, -2.0]);
    assert_eq!(elements(&(v.clone() * &m).unwrap()), vec![-2.0, -2.0]);
    let short = ColumnVector::new(reals(&[1.0, 0.0]));
    assert!(short.mul_matrix(&m).is_none());
    let mut w = v.clone();
    w.mul_assign(&m);
    assert_eq!(elements(&w), vec![-2.0, -2.0]);
    w.mul_assign(&matrix(3, 3, &[1.0; 9]));
    assert_eq!(elements(&w), vec![-2.0, -2.0]);
}

#[test]
fn row_vector_times_matrix() {
    let m = matrix(2, 3, &[1.0, 2.0, 3.0, 4.0, 5.0, 6.0]);
    let v = RowVector::new(reals(&[1.0, -1.0]));
    let r = v.mul_matrix(&m).unwrap();
    assert_eq!(elements(&r), vec![-3.0, -3.0, -3.0]);
    assert_eq!(elements(&(v.clone() * &m).unwrap()), vec![-3.0, -3.0, -3.0]);
    let long = RowVector::new(reals(&[1.0, 0.0, 2.0]));
    assert!(long.mul_matrix(&m).is_none());
    let mut w = v.clone();
    w.mul_assign(&m);
    assert_eq!(elements(&w), vec![-3.0, -3.0, -3.0]);
    w.mul_assign(&m);
    assert_eq!(elements(&w), vec![-3.0, -3.0, -3.0]);
}

#[test]
fn vector_transpose_keeps_the_elements() {
    let v = ColumnVector::new(reals(&[1.0, 2.0]));
    let row: RowVector<F> = v.transpose();
    assert_eq!(elements(&row), vec![1.0, 2.0]);
    let back: ColumnVector<F> = row.transpose();
    assert_eq!(elements(&back), vec![1.0, 2.0]);
}

#[test]
fn vector_to_matrix_has_one_row_or_one_column() {
    let column = ColumnVector::new(reals(&[1.0, 2.0, 3.0]));
    let m = column.to_matrix();
    assert_eq!((m.rows, m.cols), (3, 1));
    assert_eq!(entries(&m), vec![1.0, 2.0, 3.0]);
    let row = RowVector::new(reals(&[1.0, 2.0, 3.0]));
    let n = row.to_matrix();
    assert_eq!((n.rows, n.cols), (1, 3));
    assert_eq!(entries(&n), vec![1.0, 2.0, 3.0]);
}

#[test]
fn vector_round_trip_through_a_matrix_is_exact() {
    let values = [0.1, -2.5e300, 3.0e-300, f64::INFINITY, -0.0];
    let column = ColumnVector::new(reals(&values));
    let back = ColumnVector::from_matrix(&column.to_matrix());
    assert_eq!(back.size(), values.len());
    for i in 0..values.len() {
        assert_eq!(back.get(i).0.to_bits(), values[i].to_bits());
    }
    let row = RowVector::new(reals(&values));
    let again = RowVector::from_matrix(&row.to_matrix());
    for i in 0..values.len() {
        assert_eq!(again.get(i).0.to_bits(), values[i].to_bits());
    }
    let none = ColumnVector::<F>::new(Vec::new());
    assert_eq!(ColumnVector::from_matrix(&none.to_matrix()).size(), 0);
}

#[test]
fn matrix_checked_assignment_tells_a_mismatch_apart() {
    let mut a = matrix(2, 2, &[1.0, 2.0, 3.0, 4.0]);
    assert_eq!(a.try_add_assign(&matrix(2, 2, &[1.0; 4])), Ok(()));
    assert_eq!(entries(&a), vec![2.0, 3.0, 4.0, 5.0]);
    assert_eq!(a.try_add_assign(&matrix(3, 3, &[1.0; 9])), Err(ShapeMismatch));
    assert_eq!((a.rows, a.cols), (2, 2));
    assert_eq!(entries(&a), vec![2.0, 3.0, 4.0, 5.0]);
    assert_eq!(a.try_sub_assign(&matrix(2, 2, &[2.0; 4])), Ok(()));
    assert_eq!(entries(&a), vec![0.0, 1.0, 2.0, 3.0]);
    assert_eq!(a.try_sub_assign(&matrix(4, 1, &[1.0; 4])), Err(ShapeMismatch));
    assert_eq!(entries(&a), vec![0.0, 1.0, 2.0, 3.0]);
}

#[test]
fn vector_checked_assignment_tells_a_mismatch_apart() {
    let mut v = ColumnVector::new(reals(&[1.0, 2.0]));
    assert_eq!(v.try_add_assign(&ColumnVector::new(reals(&[3.0, 4.0]))), Ok(()));
    assert_eq!(elements(&v), vec![4.0, 6.0]);
    assert_eq!(v.try_add_assign(&ColumnVector::new(reals(&[1.0]))), Err(ShapeMismatch));
    assert_eq!(elements(&v), vec![4.0, 6.0]);
    assert_eq!(v.try_sub_assign(&ColumnVector::new(reals(&[1.0, 1.0]))), Ok(()));
    assert_eq!(elements(&v), vec![3.0, 5.0]);
    assert_eq!(v.try_sub_assign(&ColumnVector::new(Vec::new())), Err(ShapeMismatch));
    assert_eq!(elements(&v), vec![3.0, 5.0]);
    let m = matrix(1, 2, &[2.0, 1.0]);
    assert_eq!(v.try_mul_assign(&m), Ok(()));
    assert_eq!(elements(&v), vec![11.0]);
    assert_eq!(v.try_mul_assign(&m), Err(ShapeMismatch));
    assert_eq!(elements(&v), vec![11.0]);
    let mut row = RowVector::new(reals(&[3.0]));
    assert_eq!(row.try_mul_assign(&m), Ok(()));
    assert_eq!(elements(&row), vec![6.0, 3.0]);
    assert_eq!(row.try_mul_assign(&m), Err(ShapeMismatch));
    assert_eq!(elements(&row), vec![6.0, 3.0]);
}

#[test]
fn index_operators_read_and_write() {
    let mut m = matrix(2, 2, &[1.0, 2.0, 3.0, 4.0]);
    m[(0, 1)] = F(7.0);
    assert_eq!(m[(0, 1)], F(7.0));
    assert_eq!(entries(&m), vec![1.0, 7.0, 3.0, 4.0]);
    let mut v = RowVector::new(reals(&[1.0, 2.0]));
    v[1] = F(5.0);
    assert_eq!(v[1], F(5.0));
    assert_eq!(elements(&v), vec![1.0, 5.0]);
}
