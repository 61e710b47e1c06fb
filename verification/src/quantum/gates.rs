//! The standard gates.

use crate::maths::complex::Complex;
use crate::maths::matrix::{Matrix, MatrixView};
use crate::maths::numeric::{Float, Numeric, Real};
use crate::quantum::components::QuantumGate;
use vstd::prelude::*;
use vstd::std_specs::ops::{AddSpec, DivSpec, NegSpec};

verus! {

/// The real number `re` as a complex number.
pub open spec fn real_spec<T: Real>(re: T) -> Complex<T> {
    Complex { real: re, imaginary: T::zero_spec() }
}

/// The imaginary number `im * i`.
pub open spec fn imaginary_spec<T: Real>(im: T) -> Complex<T> {
    Complex { real: T::zero_spec(), imaginary: im }
}

/// `1 / sqrt(1 + 1)`, the factor that normalises the Hadamard matrix.
pub open spec fn hadamard_factor<T: Real>() -> T {
    T::one_spec().div_spec(T::one_spec().add_spec(T::one_spec()).sqrt_spec())
}

/// The Hadamard matrix: `[[1, 1], [1, -1]]`, every entry times
/// `1 / sqrt(2)`.
pub open spec fn hadamard_spec<T: Real>() -> MatrixView<Complex<T>> {
    MatrixView {
        rows: 2,
        cols: 2,
        data: seq![
            real_spec(T::one_spec()),
            real_spec(T::one_spec()),
            real_spec(T::one_spec()),
            real_spec(T::one_spec().neg_spec()),
        ],
    }.scaled(real_spec(hadamard_factor::<T>()))
}

/// The Pauli-X matrix `[[0, 1], [1, 0]]`.
pub open spec fn pauli_x_spec<T: Real>() -> MatrixView<Complex<T>> {
    MatrixView {
        rows: 2,
        cols: 2,
        data: seq![
            Complex::<T>::zero_spec(),
            Complex::<T>::one_spec(),
            Complex::<T>::one_spec(),
            Complex::<T>::zero_spec(),
        ],
    }
}

/// The Pauli-Y matrix `[[0, -i], [i, 0]]`.
pub open spec fn pauli_y_spec<T: Real>() -> MatrixView<Complex<T>> {
    MatrixView {
        rows: 2,
        cols: 2,
        data: seq![
            Complex::<T>::zero_spec(),
            imaginary_spec(T::one_spec().neg_spec()),
            imaginary_spec(T::one_spec()),
            Complex::<T>::zero_spec(),
        ],
    }
}

/// The Pauli-Z matrix `[[1, 0], [0, -1]]`.
pub open spec fn pauli_z_spec<T: Real>() -> MatrixView<Complex<T>> {
    MatrixView {
        rows: 2,
        cols: 2,
        data: seq![
            Complex::<T>::one_spec(),
            Complex::<T>::zero_spec(),
            Complex::<T>::zero_spec(),
            real_spec(T::one_spec().neg_spec()),
        ],
    }
}

/// The controlled-NOT matrix: the identity on `|00>` and `|01>`, and
/// `|10>` and `|11>` exchanged.
pub open spec fn cnot_spec<T: Real>() -> MatrixView<Complex<T>> {
    let o = Complex::<T>::zero_spec();
    let l = Complex::<T>::one_spec();
    MatrixView { rows: 4, cols: 4, data: seq![l, o, o, o, o, l, o, o, o, o, o, l, o, o, l, o] }
}

/// A two by two matrix from its entries, row by row.
fn square_of_two<T: Real>(a: Complex<T>, b: Complex<T>, c: Complex<T>, d: Complex<T>) -> (r:
    Matrix<Complex<T>>)
    ensures
        r.wf(),
        r@ == (MatrixView { rows: 2, cols: 2, data: seq![a, b, c, d] }),
{
    let mut data: Vec<Complex<T>> = Vec::with_capacity(4);
    data.push(a);
    data.push(b);
    data.push(c);
    data.push(d);
    proof {
        assert(data@ =~= seq![a, b, c, d]);
    }
    Matrix::new(2, 2, data)
}

/// The Hadamard gate, named `H`.
pub fn hadamard<T: Real>() -> (r: QuantumGate<T>)
    ensures
        r.wf(),
        r.name == "H",
        r.matrix@ == hadamard_spec::<T>(),
{
    proof {
        T::arithmetic_is_total();
    }
    let one = Complex::new(T::one(), T::zero());
    let minus_one = Complex::new(T::one().neg(), T::zero());
    let factor = T::one() / (T::one() + T::one()).sqrt();
    let base = square_of_two(one, one, one, minus_one);
    QuantumGate { name: "H", matrix: base.scale(Complex::new(factor, T::zero())) }
}

/// The Pauli-X gate, named `Pauli-X`.
pub fn pauli_x<T: Real>() -> (r: QuantumGate<T>)
    ensures
        r.wf(),
        r.name == "Pauli-X",
        r.matrix@ == pauli_x_spec::<T>(),
{
    let o = Complex::zero();
    let l = Complex::one();
    QuantumGate { name: "Pauli-X", matrix: square_of_two(o, l, l, o) }
}

/// The Pauli-Y gate, named `Pauli-Y`.
pub fn pauli_y<T: Real>() -> (r: QuantumGate<T>)
    ensures
        r.wf(),
        r.name == "Pauli-Y",
        r.matrix@ == pauli_y_spec::<T>(),
{
    proof {
        T::arithmetic_is_total();
    }
    let o = Complex::zero();
    let minus_i = Complex::new(T::zero(), T::one().neg());
    let i = Complex::new(T::zero(), T::one());
    QuantumGate { name: "Pauli-Y", matrix: square_of_two(o, minus_i, i, o) }
}

/// The Pauli-Z gate, named `Pauli-Z`.
pub fn pauli_z<T: Real>() -> (r: QuantumGate<T>)
    ensures
        r.wf(),
        r.name == "Pauli-Z",
        r.matrix@ == pauli_z_spec::<T>(),
{
    proof {
        T::arithmetic_is_total();
    }
    let o = Complex::zero();
    let l = Complex::one();
    let minus_one = Complex::new(T::one().neg(), T::zero());
    QuantumGate { name: "Pauli-Z", matrix: square_of_two(l, o, o, minus_one) }
}

/// The controlled-NOT gate, named `CNOT`.
pub fn cnot<T: Real>() -> (r: QuantumGate<T>)
    ensures
        r.wf(),
        r.name == "CNOT",
        r.matrix@ == cnot_spec::<T>(),
{
    let o = Complex::<T>::zero();
    let l = Complex::<T>::one();
    let mut data: Vec<Complex<T>> = Vec::with_capacity(16);
    data.push(l);
    data.push(o);
    data.push(o);
    data.push(o);
    data.push(o);
    data.push(l);
    data.push(o);
    data.push(o);
    data.push(o);
    data.push(o);
    data.push(o);
    data.push(l);
    data.push(o);
    data.push(o);
    data.push(l);
    data.push(o);
    proof {
        assert(data@ =~= seq![l, o, o, o, o, l, o, o, o, o, o, l, o, o, l, o]);
    }
    QuantumGate { name: "CNOT", matrix: Matrix::new(4, 4, data) }
}

} // verus!
