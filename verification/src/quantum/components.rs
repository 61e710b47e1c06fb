//! Quantum bits, gates and registers, and the classical register that holds
//! what is measured.

use crate::maths::complex::Complex;
use crate::maths::matrix::{Matrix, MatrixView};
use crate::maths::numeric::{Numeric, Real};
use crate::maths::vector::{column_matrix, ColumnVector, Vector, VectorMatrix};
use core::ops::{Index, IndexMut};
use vstd::prelude::*;
use vstd::std_specs::cmp::PartialEqSpec;

verus! {

/// The state of a quantum system: a column vector of complex amplitudes.
pub type QuantumState<T> = ColumnVector<Complex<T>>;

/// A quantum bit: the two amplitudes `(alpha, beta)` of `|0>` and `|1>`.
pub type QuantumBit<T> = QuantumState<T>;

/// The amplitudes of `|0>`: `(1, 0)`.
pub open spec fn state_0_spec<T: Real>() -> Seq<Complex<T>> {
    seq![Complex::<T>::one_spec(), Complex::<T>::zero_spec()]
}

/// The amplitudes of `|1>`: `(0, 1)`.
pub open spec fn state_1_spec<T: Real>() -> Seq<Complex<T>> {
    seq![Complex::<T>::zero_spec(), Complex::<T>::one_spec()]
}

/// The classical value that a qubit's amplitudes stand for: 1 unless the
/// amplitude of `|1>` equals zero.
pub open spec fn classical_value<T: Real>(amplitudes: Seq<Complex<T>>) -> i32 {
    if amplitudes[1].eq_spec(&Complex::<T>::zero_spec()) {
        0
    } else {
        1
    }
}

impl<T: Real> QuantumBit<T> {
    /// The basis state `|0>`.
    pub fn state_0() -> (r: QuantumBit<T>)
        ensures
            r@ == state_0_spec::<T>(),
    {
        let mut amplitudes: Vec<Complex<T>> = Vec::new();
        amplitudes.push(Complex::one());
        amplitudes.push(Complex::zero());
        ColumnVector::new(amplitudes)
    }

    /// The basis state `|1>`.
    pub fn state_1() -> (r: QuantumBit<T>)
        ensures
            r@ == state_1_spec::<T>(),
    {
        let mut amplitudes: Vec<Complex<T>> = Vec::new();
        amplitudes.push(Complex::zero());
        amplitudes.push(Complex::one());
        ColumnVector::new(amplitudes)
    }

    /// The classical value of the qubit.
    pub fn get_state(&self) -> (r: i32)
        requires
            self@.len() >= 2,
        ensures
            r == classical_value(self@),
    {
        if self.get(1) != Complex::zero() {
            1
        } else {
            0
        }
    }
}

/// A named gate: a square complex matrix whose side is a power of two.
pub struct QuantumGate<T: Real> {
    pub name: &'static str,
    pub matrix: Matrix<Complex<T>>,
}

impl<T: Real> QuantumGate<T> {
    /// The matrix is square and holds one entry for each cell.
    pub open spec fn wf(&self) -> bool {
        self.matrix.wf() && self.matrix.rows == self.matrix.cols
    }
}

impl<T: Real> Clone for QuantumGate<T> {
    fn clone(&self) -> (r: Self)
        ensures
            r.name == self.name,
            r.matrix@ == self.matrix@,
    {
        QuantumGate { name: self.name, matrix: self.matrix.clone() }
    }
}

/// An ordered list of classical bits.
pub struct ClassicalRegister {
    bits: Vec<i32>,
}

impl View for ClassicalRegister {
    type V = Seq<i32>;

    closed spec fn view(&self) -> Seq<i32> {
        self.bits@
    }
}

impl ClassicalRegister {
    /// A register of `count` bits, all zero.
    pub fn new(count: usize) -> (r: ClassicalRegister)
        ensures
            r@ == Seq::new(count as nat, |i: int| 0i32),
    {
        let mut bits: Vec<i32> = Vec::with_capacity(count);
        let mut i: usize = 0;
        while i < count
            invariant
                i <= count,
                bits@.len() == i,
                forall|p: int| 0 <= p < i ==> bits@[p] == 0,
            decreases count - i,
        {
            bits.push(0);
            i += 1;
        }
        ClassicalRegister { bits }
    }

    /// Replaces all bits.
    pub fn set_bits(&mut self, bits: Vec<i32>)
        ensures
            final(self)@ == bits@,
    {
        self.bits = bits;
    }

    /// A copy of the bits.
    pub fn get_bits(&self) -> (r: Vec<i32>)
        ensures
            r@ == self@,
    {
        let n = self.bits.len();
        let mut bits: Vec<i32> = Vec::with_capacity(n);
        let mut i: usize = 0;
        while i < n
            invariant
                n == self.bits@.len(),
                i <= n,
                bits@.len() == i,
                forall|p: int| 0 <= p < i ==> bits@[p] == self.bits@[p],
            decreases n - i,
        {
            bits.push(self.bits[i]);
            i += 1;
        }
        bits
    }
}

impl Clone for ClassicalRegister {
    fn clone(&self) -> (r: Self)
        ensures
            r@ == self@,
    {
        ClassicalRegister { bits: self.get_bits() }
    }
}

impl Index<usize> for ClassicalRegister {
    type Output = i32;

    fn index(&self, index: usize) -> (r: &i32)
        ensures
            *r == self@[index as int],
    {
        &self.bits[index]
    }
}

impl IndexMut<usize> for ClassicalRegister {
    fn index_mut(&mut self, index: usize) -> (r: &mut i32)
        requires
            index < old(self)@.len(),
        ensures
            *r == old(self)@[index as int],
            final(self)@ == old(self)@.update(index as int, *final(r)),
    {
        &mut self.bits[index]
    }
}

impl vstd::std_specs::core::IndexSpecImpl<usize> for ClassicalRegister {
    open spec fn index_req(&self, index: &usize) -> bool {
        *index < self@.len()
    }
}

/// The amplitudes of each qubit of a list.
pub open spec fn amplitudes_of<T: Real>(bits: Seq<QuantumBit<T>>) -> Seq<Seq<Complex<T>>> {
    Seq::new(bits.len(), |i: int| bits[i]@)
}

/// The joint state of the first `n` qubits (`n >= 1`) as a one-column matrix:
/// the Kronecker product of their column matrices, taken from the left, so
/// that the first qubit is the most significant.
pub open spec fn joint_matrix<T: Real>(qubits: Seq<Seq<Complex<T>>>, n: nat) -> MatrixView<
    Complex<T>,
>
    decreases n,
{
    if n <= 1 {
        column_matrix(qubits[0])
    } else {
        joint_matrix(qubits, (n - 1) as nat).kronecker(column_matrix(qubits[n - 1]))
    }
}

/// The joint state of all qubits of a non-empty list.
pub open spec fn joint_state<T: Real>(qubits: Seq<Seq<Complex<T>>>) -> Seq<Complex<T>> {
    joint_matrix(qubits, qubits.len()).data
}

/// The joint state of every non-empty prefix of the list has a length that
/// a machine word can hold.
pub open spec fn joint_state_fits<T: Real>(qubits: Seq<Seq<Complex<T>>>) -> bool {
    forall|n: nat| 1 <= n <= qubits.len() ==> (#[trigger] joint_matrix(qubits, n)).rows <= usize::MAX
}

/// The joint matrix of a prefix is a well-formed one-column matrix.
pub proof fn lemma_joint_matrix_is_column<T: Real>(qubits: Seq<Seq<Complex<T>>>, n: nat)
    requires
        1 <= n <= qubits.len(),
    ensures
        joint_matrix(qubits, n).cols == 1,
        joint_matrix(qubits, n).wf(),
    decreases n,
{
    if n > 1 {
        lemma_joint_matrix_is_column(qubits, (n - 1) as nat);
        let left = joint_matrix(qubits, (n - 1) as nat);
        let right = column_matrix(qubits[n - 1]);
        let joint = left.kronecker(right);
        assert(joint.cols == 1) by (nonlinear_arith)
            requires
                joint.cols == left.cols * right.cols,
                left.cols == 1,
                right.cols == 1,
        ;
    }
}

/// Two to the power `k`: the length of the joint state of `k` qubits.
pub open spec fn two_to(k: nat) -> nat
    decreases k,
{
    if k == 0 {
        1
    } else {
        2 * two_to((k - 1) as nat)
    }
}

/// The joint state of `k` qubits has a length that a machine word can hold.
pub open spec fn qubits_fit(k: nat) -> bool {
    two_to(k) <= usize::MAX
}

/// Every qubit of the list has exactly two amplitudes.
pub open spec fn all_pairs<T: Real>(qubits: Seq<Seq<Complex<T>>>) -> bool {
    forall|i: int| 0 <= i < qubits.len() ==> (#[trigger] qubits[i]).len() == 2
}

/// `two_to` grows with its argument.
pub proof fn lemma_two_to_grows(a: nat, b: nat)
    requires
        a <= b,
    ensures
        1 <= two_to(a) <= two_to(b),
    decreases b,
{
    if b > 0 {
        if a < b {
            lemma_two_to_grows(a, (b - 1) as nat);
        } else {
            lemma_two_to_grows((a - 1) as nat, (b - 1) as nat);
        }
    }
}

/// The joint state of `n` qubits of two amplitudes each has `two_to(n)`
/// amplitudes.
pub proof fn lemma_joint_length<T: Real>(qubits: Seq<Seq<Complex<T>>>, n: nat)
    requires
        all_pairs(qubits),
        1 <= n <= qubits.len(),
    ensures
        joint_matrix(qubits, n).rows == two_to(n),
        joint_matrix(qubits, n).data.len() == two_to(n),
    decreases n,
{
    lemma_joint_matrix_is_column(qubits, n);
    if n > 1 {
        lemma_joint_length(qubits, (n - 1) as nat);
        let left = joint_matrix(qubits, (n - 1) as nat);
        assert(left.rows * 2 == 2 * left.rows) by (nonlinear_arith);
    } else {
        assert(two_to(1) == 2 * two_to(0));
    }
}

/// Qubits of two amplitudes each, few enough for a machine word, have a
/// joint state that fits at every prefix.
pub proof fn lemma_pairs_fit<T: Real>(qubits: Seq<Seq<Complex<T>>>)
    requires
        all_pairs(qubits),
        qubits_fit(qubits.len()),
    ensures
        joint_state_fits(qubits),
{
    assert forall|n: nat| 1 <= n <= qubits.len() implies (
    #[trigger] joint_matrix(qubits, n)).rows <= usize::MAX by {
        lemma_joint_length(qubits, n);
        lemma_two_to_grows(n, qubits.len());
    }
}

/// Two to the power `k`, or nothing where that does not fit a machine word.
pub fn power_of_two(k: usize) -> (r: Option<usize>)
    ensures
        r.is_some() <==> qubits_fit(k as nat),
        r matches Some(p) ==> p == two_to(k as nat),
{
    let mut power: usize = 1;
    let mut i: usize = 0;
    while i < k
        invariant
            i <= k,
            power == two_to(i as nat),
        decreases k - i,
    {
        if power > usize::MAX / 2 {
            proof {
                lemma_two_to_grows((i + 1) as nat, k as nat);
            }
            return None;
        }
        power = power * 2;
        i += 1;
    }
    Some(power)
}

/// `two_to(k)` is above `k`.
pub proof fn lemma_two_to_exceeds(k: nat)
    ensures
        k < two_to(k),
    decreases k,
{
    if k > 0 {
        lemma_two_to_exceeds((k - 1) as nat);
    }
}

/// The mathematical content of a quantum register.
pub struct QuantumRegisterView<T: Real> {
    pub qubits: Seq<Seq<Complex<T>>>,
    pub state: Seq<Complex<T>>,
}

/// An ordered, non-empty list of qubits together with their joint state.
pub struct QuantumRegister<T: Real> {
    state_vector: QuantumState<T>,
    qubits: Vec<QuantumBit<T>>,
}

impl<T: Real> View for QuantumRegister<T> {
    type V = QuantumRegisterView<T>;

    closed spec fn view(&self) -> QuantumRegisterView<T> {
        QuantumRegisterView { qubits: amplitudes_of(self.qubits@), state: self.state_vector@ }
    }
}

/// A copy of a list of qubits.
pub fn copy_qubits<T: Real>(bits: &[QuantumBit<T>]) -> (r: Vec<QuantumBit<T>>)
    ensures
        amplitudes_of(r@) == amplitudes_of(bits@),
{
    let n = bits.len();
    let mut copy: Vec<QuantumBit<T>> = Vec::new();
    let mut i: usize = 0;
    while i < n
        invariant
            n == bits@.len(),
            i <= n,
            copy@.len() == i,
            forall|p: int| 0 <= p < i ==> copy@[p]@ == bits@[p]@,
        decreases n - i,
    {
        copy.push(bits[i].clone());
        i += 1;
    }
    copy
}

impl<T: Real> QuantumRegister<T> {
    /// The cached joint state is the one that the qubits compose to.
    pub open spec fn wf(&self) -> bool {
        self@.qubits.len() >= 1 && self@.state == joint_state(self@.qubits)
    }

    /// Recomputes the joint state from the qubits.
    fn update(&mut self)
        requires
            old(self)@.qubits.len() >= 1,
            joint_state_fits(old(self)@.qubits),
        ensures
            final(self)@.qubits == old(self)@.qubits,
            final(self).wf(),
    {
        let ghost qubits = amplitudes_of(self.qubits@);
        proof {
            lemma_joint_matrix_is_column(qubits, 1);
        }
        let mut joint = self.qubits[0].to_matrix();
        let mut i: usize = 1;
        while i < self.qubits.len()
            invariant
                qubits == amplitudes_of(self.qubits@),
                joint_state_fits(qubits),
                1 <= i <= self.qubits@.len(),
                joint.wf(),
                joint@ == joint_matrix(qubits, i as nat),
                joint.cols == 1,
            decreases self.qubits@.len() - i,
        {
            let next = self.qubits[i].to_matrix();
            proof {
                lemma_joint_matrix_is_column(qubits, (i + 1) as nat);
                assert(joint.cols * next.cols == 1) by (nonlinear_arith)
                    requires
                        joint.cols == 1,
                        next.cols == 1,
                ;
                assert((joint.rows * next.rows) * (joint.cols * next.cols) == joint.rows
                    * next.rows) by (nonlinear_arith)
                    requires
                        joint.cols * next.cols == 1,
                ;
            }
            joint = joint.kronecker(&next);
            i += 1;
        }
        self.state_vector = ColumnVector::from_matrix(&joint);
    }

    /// A register of `count` qubits, each in the state `|0>`.
    pub fn new(count: usize) -> (r: QuantumRegister<T>)
        requires
            count >= 1,
            qubits_fit(count as nat),
        ensures
            r.wf(),
            r@.qubits == Seq::new(count as nat, |i: int| state_0_spec::<T>()),
    {
        let mut qubits: Vec<QuantumBit<T>> = Vec::new();
        let mut i: usize = 0;
        while i < count
            invariant
                i <= count,
                qubits@.len() == i,
                forall|p: int| 0 <= p < i ==> qubits@[p]@ == state_0_spec::<T>(),
            decreases count - i,
        {
            qubits.push(QuantumBit::state_0());
            i += 1;
        }
        proof {
            assert(amplitudes_of(qubits@) =~= Seq::new(
                count as nat,
                |i: int| state_0_spec::<T>(),
            ));
            lemma_pairs_fit(amplitudes_of(qubits@));
        }
        let mut register = QuantumRegister { qubits, state_vector: ColumnVector::new(Vec::new()) };
        register.update();
        register
    }

    /// A register of copies of the given qubits, in their order.
    pub fn from(bits: &[QuantumBit<T>]) -> (r: QuantumRegister<T>)
        requires
            bits@.len() >= 1,
            joint_state_fits(amplitudes_of(bits@)),
        ensures
            r.wf(),
            r@.qubits == amplitudes_of(bits@),
    {
        let mut register = QuantumRegister {
            qubits: copy_qubits(bits),
            state_vector: ColumnVector::new(Vec::new()),
        };
        register.update();
        register
    }

    /// Copies of the qubits.
    pub fn get_bits(&self) -> (r: Vec<QuantumBit<T>>)
        ensures
            amplitudes_of(r@) == self@.qubits,
    {
        copy_qubits(self.qubits.as_slice())
    }

    /// A copy of the joint state.
    pub fn get_state(&self) -> (r: QuantumState<T>)
        ensures
            r@ == self@.state,
    {
        self.state_vector.clone()
    }
}

impl<T: Real> Clone for QuantumRegister<T> {
    fn clone(&self) -> (r: Self)
        ensures
            r@ == self@,
    {
        QuantumRegister { state_vector: self.state_vector.clone(), qubits: self.get_bits() }
    }
}

impl<T: Real> Index<usize> for QuantumRegister<T> {
    type Output = QuantumBit<T>;

    fn index(&self, index: usize) -> (r: &QuantumBit<T>)
        ensures
            r@ == self@.qubits[index as int],
    {
        &self.qubits[index]
    }
}

impl<T: Real> vstd::std_specs::core::IndexSpecImpl<usize> for QuantumRegister<T> {
    open spec fn index_req(&self, index: &usize) -> bool {
        *index < self@.qubits.len()
    }
}

} // verus!
