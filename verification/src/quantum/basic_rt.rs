//! The basic runtime: sequential trials, each on fresh copies of the qubits.

use crate::maths::numeric::Real;
use crate::quantum::circuit::{program_of, CircuitView, Instruction, QuantumCircuit};
use crate::quantum::components::{
    amplitudes_of, copy_qubits, lemma_pairs_fit, QuantumBit, QuantumRegister,
};
use crate::quantum::runtime::{
    apply_gate, executable, final_states, lemma_run_keeps_pairs, measure_bound,
    measurable, measure_qubit, measure_spec, measured, possible_outcome, run, RandomSource,
    Runtime, RuntimeData,
};
use vstd::prelude::*;

verus! {

/// A runtime that executes the trials one after the other.
pub struct BasicRT<'a, T: Real> {
    circuit: &'a QuantumCircuit<T>,
}

impl<'a, T: Real> BasicRT<'a, T> {
    /// The circuit that this runtime executes.
    pub closed spec fn circuit_view(&self) -> CircuitView<T> {
        self.circuit@
    }

    /// Carries out the program on fresh copies of the circuit's qubits and
    /// gives the qubits as the program leaves them.
    pub fn run_program(&self) -> (r: Vec<QuantumBit<T>>)
        requires
            executable(self.circuit_view()),
        ensures
            amplitudes_of(r@) == final_states(self.circuit_view()),
    {
        let ghost circuit = self.circuit@;
        let mut qubits = copy_qubits(self.circuit.get_quantum_states().as_slice());
        let program = self.circuit.get_instructions();
        let length = program.len();
        let mut i: usize = 0;
        while i < length
            invariant
                circuit == self.circuit@,
                executable(circuit),
                program_of(program@) == circuit.program,
                length == program@.len(),
                i <= length,
                amplitudes_of(qubits@) == run(circuit.qubits, circuit.program, i as nat),
            decreases length - i,
        {
            proof {
                lemma_run_keeps_pairs(circuit, i as nat);
                assert(circuit.program[i as int] == program@[i as int]@);
            }
            match &program[i] {
                Instruction::ApplyGate(gate, controls, target) => {
                    apply_gate(&mut qubits, gate, controls, *target);
                },
                Instruction::Measure(_) => {},
            }
            i += 1;
        }
        qubits
    }

    /// One draw for each qubit, in order, each asked of the source below
    /// the qubit's own bound.
    pub fn draw_each<R: RandomSource<T>>(qubits: &Vec<QuantumBit<T>>, source: &mut R) -> (r: Vec<
        T,
    >)
        requires
            forall|i: int| 0 <= i < qubits@.len() ==> (#[trigger] qubits@[i])@.len() >= 2,
        ensures
            r@.len() == qubits@.len(),
    {
        let count = qubits.len();
        let mut draws: Vec<T> = Vec::with_capacity(count);
        let mut i: usize = 0;
        while i < count
            invariant
                forall|i: int| 0 <= i < qubits@.len() ==> (#[trigger] qubits@[i])@.len() >= 2,
                count == qubits@.len(),
                i <= count,
                draws@.len() == i,
            decreases count - i,
        {
            let bound = measure_bound(&qubits[i]);
            draws.push(source.draw_below(bound));
            i += 1;
        }
        draws
    }

    /// Measures every qubit, in order, each against the draw of its index.
    pub fn measure_each(qubits: &Vec<QuantumBit<T>>, draws: &Vec<T>) -> (r: Vec<i32>)
        requires
            draws@.len() == qubits@.len(),
            forall|i: int| 0 <= i < qubits@.len() ==> (#[trigger] qubits@[i])@.len() >= 2,
        ensures
            r@ == measured(amplitudes_of(qubits@), draws@),
    {
        let count = qubits.len();
        let mut bits: Vec<i32> = Vec::with_capacity(count);
        let mut i: usize = 0;
        while i < count
            invariant
                draws@.len() == qubits@.len(),
                forall|i: int| 0 <= i < qubits@.len() ==> (#[trigger] qubits@[i])@.len() >= 2,
                count == qubits@.len(),
                i <= count,
                bits@.len() == i,
                forall|p: int|
                    0 <= p < i ==> (#[trigger] bits@[p]) == measure_spec(qubits@[p]@, draws@[p]),
            decreases count - i,
        {
            bits.push(measure_qubit(&qubits[i], draws[i]));
            i += 1;
        }
        bits
    }

    /// One trial for given draws: the program on fresh qubits, then the
    /// measurement of every qubit against the draw of its index.
    pub fn run_trial_with(&self, draws: &Vec<T>) -> (r: RuntimeData<T>)
        requires
            executable(self.circuit_view()),
            draws@.len() == self.circuit_view().qubits.len(),
        ensures
            r.quantum_register.wf(),
            r.quantum_register@.qubits == final_states(self.circuit_view()),
            r.classical_states@ == measured(final_states(self.circuit_view()), draws@),
    {
        let ghost circuit = self.circuit@;
        let qubits = self.run_program();
        proof {
            lemma_run_keeps_pairs(circuit, circuit.program.len());
            lemma_pairs_fit(amplitudes_of(qubits@));
            assert forall|i: int| 0 <= i < qubits@.len() implies (#[trigger] qubits@[i])@.len()
                >= 2 by {
                assert(amplitudes_of(qubits@)[i].len() == 2);
            }
        }
        let register = QuantumRegister::from(qubits.as_slice());
        let bits = Self::measure_each(&qubits, draws);
        let mut classical = self.circuit.get_classical_registers();
        classical.set_bits(bits);
        RuntimeData::new(register, classical)
    }

    /// One trial: the program on fresh qubits, then the measurement of
    /// every qubit against a draw from the source.
    pub fn run_trial<R: RandomSource<T>>(&self, source: &mut R) -> (r: RuntimeData<T>)
        requires
            executable(self.circuit_view()),
        ensures
            r.quantum_register.wf(),
            possible_outcome(self.circuit_view(), r.quantum_register@, r.classical_states@),
    {
        let ghost circuit = self.circuit@;
        let qubits = self.run_program();
        proof {
            lemma_run_keeps_pairs(circuit, circuit.program.len());
            lemma_pairs_fit(amplitudes_of(qubits@));
            assert forall|i: int| 0 <= i < qubits@.len() implies (#[trigger] qubits@[i])@.len()
                >= 2 by {
                assert(amplitudes_of(qubits@)[i].len() == 2);
            }
        }
        let draws = Self::draw_each(&qubits, source);
        let register = QuantumRegister::from(qubits.as_slice());
        let bits = Self::measure_each(&qubits, &draws);
        let mut classical = self.circuit.get_classical_registers();
        classical.set_bits(bits);
        proof {
            let expected = final_states(circuit);
            assert forall|i: int| 0 <= i < classical@.len() implies measurable(
                expected[i],
                #[trigger] classical@[i],
            ) by {
            }
        }
        RuntimeData::new(register, classical)
    }
}

impl<'a, T: Real> Runtime<'a, T> for BasicRT<'a, T> {
    /// The runtime's circuit has the content of the given one.
    open spec fn holds(&self, circuit: &QuantumCircuit<T>) -> bool {
        self.circuit_view() == circuit@
    }

    /// The runtime's circuit is executable.
    open spec fn ready(&self) -> bool {
        executable(self.circuit_view())
    }

    /// The register is well formed, and the result is a possible outcome of
    /// the runtime's circuit.
    open spec fn is_outcome(&self, result: &RuntimeData<T>) -> bool {
        &&& result.quantum_register.wf()
        &&& possible_outcome(
            self.circuit_view(),
            result.quantum_register@,
            result.classical_states@,
        )
    }

    fn new(circuit: &'a QuantumCircuit<T>) -> (r: BasicRT<'a, T>) {
        BasicRT { circuit }
    }

    fn execute<R: RandomSource<T>>(&self, repeat: usize, source: &mut R) -> (r: Vec<
        RuntimeData<T>,
    >) {
        let mut result: Vec<RuntimeData<T>> = Vec::with_capacity(repeat);
        let mut t: usize = 0;
        while t < repeat
            invariant
                executable(self.circuit_view()),
                t <= repeat,
                result@.len() == t,
                forall|p: int| 0 <= p < t ==> self.is_outcome(#[trigger] &result@[p]),
            decreases repeat - t,
        {
            let data = self.run_trial(source);
            result.push(data);
            t += 1;
        }
        result
    }

    fn get_circuit(&self) -> (r: &QuantumCircuit<T>) {
        self.circuit
    }
}

} // verus!
