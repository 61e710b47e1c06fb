//! What executing a circuit program means, and the steps that an execution
//! is made of.

use crate::maths::complex::Complex;
use crate::maths::matrix::MatrixView;
use crate::maths::numeric::{is_greater, is_less, Float, Numeric, Real};
use crate::maths::vector::{matrix_times_column, ColumnVector, Vector};
use crate::quantum::circuit::{
    program_of, CircuitView, Instruction, InstructionView, QuantumCircuit,
};
use crate::quantum::components::{
    all_pairs, amplitudes_of, joint_state, lemma_joint_length, lemma_pairs_fit,
    lemma_two_to_exceeds, lemma_two_to_grows, power_of_two, qubits_fit, two_to, ClassicalRegister,
    QuantumBit, QuantumGate, QuantumRegister, QuantumRegisterView, QuantumState,
};
use vstd::prelude::*;
use vstd::std_specs::ops::AddSpec;

verus! {

/// The sum of the squared magnitudes of the `n` amplitudes from `start` on,
/// accumulated from the left, starting at zero.
pub open spec fn norm_sum<T: Real>(state: Seq<Complex<T>>, start: int, n: nat) -> T
    decreases n,
{
    if n == 0 {
        T::zero_spec()
    } else {
        norm_sum(state, start, (n - 1) as nat).add_spec(state[start + n - 1].norm_spec())
    }
}

/// The sum of the `n` amplitudes from `start` on, accumulated from the left,
/// starting at zero.
pub open spec fn amplitude_sum<T: Real>(state: Seq<Complex<T>>, start: int, n: nat) -> Complex<T>
    decreases n,
{
    if n == 0 {
        Complex::<T>::zero_spec()
    } else {
        amplitude_sum(state, start, (n - 1) as nat).add_spec(state[start + n - 1])
    }
}

/// The qubits at the given indices, in the order of the indices.
pub open spec fn selected<T: Real>(qubits: Seq<Seq<Complex<T>>>, indices: Seq<usize>) -> Seq<
    Seq<Complex<T>>,
> {
    Seq::new(indices.len(), |i: int| qubits[indices[i] as int])
}

/// The control qubits hold a gate back: in their joint state, the first half
/// of the amplitudes carries strictly more probability mass than the second.
pub open spec fn controls_hold_back<T: Real>(
    qubits: Seq<Seq<Complex<T>>>,
    controls: Seq<usize>,
) -> bool {
    let joint = joint_state(selected(qubits, controls));
    let half = joint.len() / 2;
    is_greater(norm_sum(joint, 0, half), norm_sum(joint, half as int, (joint.len() - half) as nat))
}

/// An amplitude vector collapsed to one qubit: `alpha` is the sum of the
/// first half of the amplitudes, `beta` the sum of the second half.
pub open spec fn collapsed<T: Real>(amplitudes: Seq<Complex<T>>) -> Seq<Complex<T>> {
    let half = amplitudes.len() / 2;
    seq![
        amplitude_sum(amplitudes, 0, half),
        amplitude_sum(amplitudes, half as int, (amplitudes.len() - half) as nat),
    ]
}

/// The new state of the target qubit where a gate is applied: the joint
/// state of the controls followed by the target, multiplied by that gate's
/// matrix and collapsed.
pub open spec fn gate_outcome<T: Real>(
    qubits: Seq<Seq<Complex<T>>>,
    gate: MatrixView<Complex<T>>,
    controls: Seq<usize>,
    target: usize,
) -> Seq<Complex<T>> {
    let operands = selected(qubits, controls).push(qubits[target as int]);
    let joint = joint_state(operands);
    collapsed(matrix_times_column(gate, joint))
}

/// The qubits after one instruction. A gate under controls that hold it back
/// changes nothing; a measurement changes nothing.
pub open spec fn step<T: Real>(qubits: Seq<Seq<Complex<T>>>, instruction: InstructionView<T>) -> Seq<
    Seq<Complex<T>>,
> {
    match instruction {
        InstructionView::ApplyGate { name, gate, controls, target } => {
            if controls.len() > 0 && controls_hold_back(qubits, controls) {
                qubits
            } else {
                qubits.update(target as int, gate_outcome(qubits, gate, controls, target))
            }
        },
        InstructionView::Measure { qubit } => qubits,
    }
}

/// The qubits after the first `n` instructions of the program.
pub open spec fn run<T: Real>(
    qubits: Seq<Seq<Complex<T>>>,
    program: Seq<InstructionView<T>>,
    n: nat,
) -> Seq<Seq<Complex<T>>>
    decreases n,
{
    if n == 0 {
        qubits
    } else {
        step(run(qubits, program, (n - 1) as nat), program[n - 1])
    }
}

/// The qubits after the whole program.
pub open spec fn final_states<T: Real>(circuit: CircuitView<T>) -> Seq<Seq<Complex<T>>> {
    run(circuit.qubits, circuit.program, circuit.program.len())
}

/// An instruction can be carried out on `qubit_count` qubits: its indices
/// name qubits that exist, and its gate is square with the side that the
/// controls and the target call for.
pub open spec fn instruction_fits<T: Real>(instruction: InstructionView<T>, qubit_count: nat) -> bool {
    match instruction {
        InstructionView::ApplyGate { name, gate, controls, target } => {
            &&& forall|i: int| 0 <= i < controls.len() ==> (#[trigger] controls[i]) < qubit_count
            &&& target < qubit_count
            &&& qubits_fit(controls.len() + 1)
            &&& gate.wf()
            &&& gate.rows == gate.cols
            &&& gate.cols == two_to(controls.len() + 1)
        },
        InstructionView::Measure { qubit } => true,
    }
}

/// A circuit can be executed: it has at least one qubit, each qubit starts
/// with two amplitudes, the joint state of all qubits fits a machine word,
/// and every instruction fits.
pub open spec fn executable<T: Real>(circuit: CircuitView<T>) -> bool {
    &&& circuit.qubits.len() >= 1
    &&& all_pairs(circuit.qubits)
    &&& qubits_fit(circuit.qubits.len())
    &&& forall|i: int|
        0 <= i < circuit.program.len() ==> instruction_fits(
            #[trigger] circuit.program[i],
            circuit.qubits.len(),
        )
}

/// The classical bit that a qubit gives for a draw: 0 where the draw is
/// strictly below the squared magnitude of `alpha`, else 1.
pub open spec fn measure_spec<T: Real>(qubit: Seq<Complex<T>>, draw: T) -> i32 {
    if is_less(draw, qubit[0].norm_spec()) {
        0
    } else {
        1
    }
}

/// The bound below which a qubit's draw is taken: the squared magnitude of
/// `alpha` plus that of `beta`.
pub open spec fn measure_bound_spec<T: Real>(qubit: Seq<Complex<T>>) -> T {
    qubit[0].norm_spec().add_spec(qubit[1].norm_spec())
}

/// A step keeps the number of qubits, and keeps each at two amplitudes.
pub proof fn lemma_step_keeps_pairs<T: Real>(
    qubits: Seq<Seq<Complex<T>>>,
    instruction: InstructionView<T>,
)
    requires
        all_pairs(qubits),
        instruction_fits(instruction, qubits.len()),
    ensures
        step(qubits, instruction).len() == qubits.len(),
        all_pairs(step(qubits, instruction)),
{
}

/// Running a prefix of an executable program keeps the number of qubits, and
/// keeps each at two amplitudes.
pub proof fn lemma_run_keeps_pairs<T: Real>(circuit: CircuitView<T>, n: nat)
    requires
        executable(circuit),
        n <= circuit.program.len(),
    ensures
        run(circuit.qubits, circuit.program, n).len() == circuit.qubits.len(),
        all_pairs(run(circuit.qubits, circuit.program, n)),
    decreases n,
{
    if n > 0 {
        lemma_run_keeps_pairs(circuit, (n - 1) as nat);
        lemma_step_keeps_pairs(
            run(circuit.qubits, circuit.program, (n - 1) as nat),
            circuit.program[n - 1],
        );
    }
}

/// The probability mass of the `count` amplitudes from `start` on.
pub fn probability_mass<T: Real>(state: &QuantumState<T>, start: usize, count: usize) -> (r: T)
    requires
        start + count <= state@.len(),
    ensures
        r == norm_sum(state@, start as int, count as nat),
{
    proof {
        T::arithmetic_is_total();
    }
    let length = state.size();
    let mut mass = T::zero();
    let mut i: usize = 0;
    while i < count
        invariant
            T::obeys_add_spec(),
            forall|a: T, b: T| #[trigger] a.add_req(b),
            length == state@.len(),
            start + count <= length,
            i <= count,
            mass == norm_sum(state@, start as int, i as nat),
        decreases count - i,
    {
        mass = mass + state.get(start + i).norm();
        i += 1;
    }
    mass
}

/// The sum of the `count` amplitudes from `start` on.
pub fn sum_amplitudes<T: Real>(state: &QuantumState<T>, start: usize, count: usize) -> (r: Complex<
    T,
>)
    requires
        start + count <= state@.len(),
    ensures
        r == amplitude_sum(state@, start as int, count as nat),
{
    let length = state.size();
    let mut sum = Complex::<T>::zero();
    let mut i: usize = 0;
    while i < count
        invariant
            length == state@.len(),
            start + count <= length,
            i <= count,
            sum == amplitude_sum(state@, start as int, i as nat),
        decreases count - i,
    {
        sum = sum + state.get(start + i);
        i += 1;
    }
    sum
}

/// Copies of the qubits at the given indices, in the order of the indices.
pub fn select_qubits<T: Real>(qubits: &Vec<QuantumBit<T>>, indices: &Vec<usize>) -> (r: Vec<
    QuantumBit<T>,
>)
    requires
        forall|i: int| 0 <= i < indices@.len() ==> (#[trigger] indices@[i]) < qubits@.len(),
    ensures
        amplitudes_of(r@) == selected(amplitudes_of(qubits@), indices@),
{
    let n = indices.len();
    let mut chosen: Vec<QuantumBit<T>> = Vec::with_capacity(n);
    let mut i: usize = 0;
    while i < n
        invariant
            forall|i: int| 0 <= i < indices@.len() ==> (#[trigger] indices@[i]) < qubits@.len(),
            n == indices@.len(),
            i <= n,
            chosen@.len() == i,
            forall|p: int| 0 <= p < i ==> chosen@[p]@ == qubits@[indices@[p] as int]@,
        decreases n - i,
    {
        chosen.push(qubits[indices[i]].clone());
        i += 1;
    }
    chosen
}

/// Whether the control qubits hold a gate back.
pub fn controls_block<T: Real>(qubits: &Vec<QuantumBit<T>>, controls: &Vec<usize>) -> (r: bool)
    requires
        controls@.len() >= 1,
        forall|i: int| 0 <= i < controls@.len() ==> (#[trigger] controls@[i]) < qubits@.len(),
        all_pairs(amplitudes_of(qubits@)),
        qubits_fit(controls@.len()),
    ensures
        r == controls_hold_back(amplitudes_of(qubits@), controls@),
{
    proof {
        T::arithmetic_is_total();
    }
    let chosen = select_qubits(qubits, controls);
    proof {
        lemma_pairs_fit(amplitudes_of(chosen@));
    }
    let register = QuantumRegister::from(chosen.as_slice());
    let joint = register.get_state();
    let length = joint.size();
    let half = length / 2;
    let first = probability_mass(&joint, 0, half);
    let second = probability_mass(&joint, half, length - half);
    first > second
}

/// The qubit that an amplitude vector collapses to.
pub fn collapse<T: Real>(amplitudes: &QuantumState<T>) -> (r: QuantumBit<T>)
    ensures
        r@ == collapsed(amplitudes@),
{
    let length = amplitudes.size();
    let half = length / 2;
    let alpha = sum_amplitudes(amplitudes, 0, half);
    let beta = sum_amplitudes(amplitudes, half, length - half);
    let mut pair: Vec<Complex<T>> = Vec::with_capacity(2);
    pair.push(alpha);
    pair.push(beta);
    ColumnVector::new(pair)
}

/// Carries out one gate application on the qubits.
pub fn apply_gate<T: Real>(
    qubits: &mut Vec<QuantumBit<T>>,
    gate: &QuantumGate<T>,
    controls: &Vec<usize>,
    target: usize,
)
    requires
        all_pairs(amplitudes_of(old(qubits)@)),
        instruction_fits(
            InstructionView::ApplyGate {
                name: gate.name,
                gate: gate.matrix@,
                controls: controls@,
                target,
            },
            old(qubits)@.len() as nat,
        ),
    ensures
        amplitudes_of(final(qubits)@) == step(
            amplitudes_of(old(qubits)@),
            InstructionView::ApplyGate {
                name: gate.name,
                gate: gate.matrix@,
                controls: controls@,
                target,
            },
        ),
{
    let ghost before = amplitudes_of(qubits@);
    proof {
        lemma_two_to_grows(controls@.len(), controls@.len() + 1);
    }
    if controls.len() > 0 && controls_block(qubits, controls) {
        return ;
    }
    let mut operands = select_qubits(qubits, controls);
    operands.push(qubits[target].clone());
    proof {
        let views = amplitudes_of(operands@);
        assert(views =~= selected(before, controls@).push(before[target as int]));
        lemma_pairs_fit(views);
        lemma_joint_length(views, views.len());
    }
    let register = QuantumRegister::from(operands.as_slice());
    let joint = register.get_state();
    match joint.mul_matrix(&gate.matrix) {
        Some(amplitudes) => {
            let outcome = collapse(&amplitudes);
            qubits.set(target, outcome);
            proof {
                assert(amplitudes_of(qubits@) =~= before.update(
                    target as int,
                    gate_outcome(before, gate.matrix@, controls@, target),
                ));
            }
        },
        // A fitting gate has as many columns as the joint state has amplitudes.
        None => {},
    }
}

/// The classical bit that the qubit gives for the draw.
pub fn measure_qubit<T: Real>(qubit: &QuantumBit<T>, draw: T) -> (bit: i32)
    requires
        qubit@.len() >= 2,
    ensures
        bit == measure_spec(qubit@, draw),
{
    proof {
        T::arithmetic_is_total();
    }
    let weight = qubit.get(0).norm();
    if draw < weight {
        0
    } else {
        1
    }
}

/// The bound below which the qubit's draw is to be taken.
pub fn measure_bound<T: Real>(qubit: &QuantumBit<T>) -> (bound: T)
    requires
        qubit@.len() >= 2,
    ensures
        bound == measure_bound_spec(qubit@),
{
    proof {
        T::arithmetic_is_total();
    }
    qubit.get(0).norm() + qubit.get(1).norm()
}

/// What one trial of an execution leaves: the qubits with their joint
/// state, and the classical bits that were measured.
pub struct RuntimeData<T: Real> {
    pub quantum_register: QuantumRegister<T>,
    pub classical_states: ClassicalRegister,
}

impl<T: Real> RuntimeData<T> {
    /// A trial's result from its two parts.
    pub fn new(quantum_register: QuantumRegister<T>, classical_states: ClassicalRegister) -> (r:
        Self)
        ensures
            r.quantum_register == quantum_register,
            r.classical_states == classical_states,
    {
        RuntimeData { quantum_register, classical_states }
    }
}

/// A source of randomness for measurements. Nothing is assumed of what it
/// gives: an execution is specified for every value that comes back.
pub trait RandomSource<T: Real> {
    /// A value meant to be drawn uniformly from zero (included) to `bound`
    /// (excluded).
    fn draw_below(&mut self, bound: T) -> T;
}

/// The classical bits that the qubits give for the draws, each qubit
/// measured against the draw of its index.
pub open spec fn measured<T: Real>(qubits: Seq<Seq<Complex<T>>>, draws: Seq<T>) -> Seq<i32> {
    Seq::new(qubits.len(), |i: int| measure_spec(qubits[i], draws[i]))
}

/// The qubit can give the bit: there is a draw for which it does.
pub open spec fn measurable<T: Real>(qubit: Seq<Complex<T>>, bit: i32) -> bool {
    exists|draw: T| bit == #[trigger] measure_spec(qubit, draw)
}

/// One trial's result is a possible outcome of the circuit: the program
/// leaves as many qubits as it started with, the register holds them as the
/// program leaves them, with their joint state, and
/// there is one classical bit for each qubit, each a bit that its qubit
/// can give.
pub open spec fn possible_outcome<T: Real>(
    circuit: CircuitView<T>,
    register: QuantumRegisterView<T>,
    bits: Seq<i32>,
) -> bool {
    let qubits = final_states(circuit);
    &&& qubits.len() == circuit.qubits.len()
    &&& register.qubits == qubits
    &&& register.state == joint_state(qubits)
    &&& bits.len() == qubits.len()
    &&& forall|i: int| 0 <= i < bits.len() ==> measurable(qubits[i], #[trigger] bits[i])
}

/// A runtime executes a circuit program a number of times. Each runtime
/// says for itself which circuits it can execute and which results are the
/// outcomes of a trial.
pub trait Runtime<'a, T: Real>: Sized {
    /// This runtime was made for the circuit.
    spec fn holds(&self, circuit: &QuantumCircuit<T>) -> bool;

    /// The runtime holds a circuit that it can execute.
    spec fn ready(&self) -> bool;

    /// The result is a possible outcome of one trial.
    spec fn is_outcome(&self, result: &RuntimeData<T>) -> bool;

    /// A runtime for the circuit.
    fn new(circuit: &'a QuantumCircuit<T>) -> (r: Self)
        ensures
            r.holds(circuit),
    ;

    /// Executes the circuit `repeat` times, each trial on fresh qubits, and
    /// gives the trials' results in trial order.
    fn execute<R: RandomSource<T>>(&self, repeat: usize, source: &mut R) -> (r: Vec<
        RuntimeData<T>,
    >)
        requires
            self.ready(),
        ensures
            r@.len() == repeat,
            forall|t: int| 0 <= t < repeat ==> self.is_outcome(#[trigger] &r@[t]),
    ;

    /// The circuit that this runtime executes.
    fn get_circuit(&self) -> (r: &QuantumCircuit<T>)
        ensures
            self.holds(r),
    ;
}

/// Whether the instruction can be carried out on `qubit_count` qubits.
pub fn instruction_is_fit<T: Real>(instruction: &Instruction<T>, qubit_count: usize) -> (r: bool)
    ensures
        r == instruction_fits(instruction@, qubit_count as nat),
{
    match instruction {
        Instruction::ApplyGate(gate, controls, target) => {
            proof {
                assert(instruction@ == InstructionView::ApplyGate {
                    name: gate.name,
                    gate: gate.matrix@,
                    controls: controls@,
                    target: *target,
                });
            }
            let n = controls.len();
            let mut i: usize = 0;
            while i < n
                invariant
                    instruction@ == (InstructionView::ApplyGate {
                        name: gate.name,
                        gate: gate.matrix@,
                        controls: controls@,
                        target: *target,
                    }),
                    n == controls@.len(),
                    i <= n,
                    forall|p: int| 0 <= p < i ==> (#[trigger] controls@[p]) < qubit_count,
                decreases n - i,
            {
                if controls[i] >= qubit_count {
                    return false;
                }
                i += 1;
            }
            if *target >= qubit_count {
                return false;
            }
            if n == usize::MAX {
                proof {
                    lemma_two_to_exceeds(n as nat);
                    lemma_two_to_grows(n as nat, (n + 1) as nat);
                }
                return false;
            }
            match power_of_two(n + 1) {
                Some(side) => {
                    proof {
                        assert(gate.matrix.rows * gate.matrix.cols <= u128::MAX)
                            by (nonlinear_arith)
                            requires
                                0 <= gate.matrix.rows <= u64::MAX,
                                0 <= gate.matrix.cols <= u64::MAX,
                        ;
                    }
                    let cells = (gate.matrix.rows as u128) * (gate.matrix.cols as u128);
                    gate.matrix.data.len() as u128 == cells && gate.matrix.rows
                        == gate.matrix.cols && gate.matrix.cols == side
                },
                None => false,
            }
        },
        Instruction::Measure(_) => true,
    }
}

/// Whether the circuit can be executed.
pub fn is_executable<T: Real>(circuit: &QuantumCircuit<T>) -> (r: bool)
    ensures
        r == executable(circuit@),
{
    let qubits = circuit.get_quantum_states();
    let count = qubits.len();
    if count == 0 {
        return false;
    }
    let mut i: usize = 0;
    while i < count
        invariant
            count == qubits@.len(),
            amplitudes_of(qubits@) == circuit@.qubits,
            i <= count,
            forall|p: int| 0 <= p < i ==> (#[trigger] circuit@.qubits[p]).len() == 2,
        decreases count - i,
    {
        if qubits[i].size() != 2 {
            proof {
                assert(circuit@.qubits[i as int] == qubits@[i as int]@);
            }
            return false;
        }
        i += 1;
    }
    if power_of_two(count).is_none() {
        return false;
    }
    let program = circuit.get_instructions();
    let length = program.len();
    let mut j: usize = 0;
    while j < length
        invariant
            count == circuit@.qubits.len(),
            length == program@.len(),
            program_of(program@) == circuit@.program,
            j <= length,
            forall|p: int|
                0 <= p < j ==> instruction_fits(#[trigger] circuit@.program[p], count as nat),
        decreases length - j,
    {
        if !instruction_is_fit(&program[j], count) {
            proof {
                assert(circuit@.program[j as int] == program@[j as int]@);
            }
            return false;
        }
        j += 1;
    }
    true
}

} // verus!
