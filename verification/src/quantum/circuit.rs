//! The circuit program: declared bit counts, the qubits' initial states and
//! an ordered list of instructions.

use crate::maths::complex::Complex;
use crate::maths::matrix::MatrixView;
use crate::maths::numeric::Real;
use crate::quantum::components::{
    amplitudes_of, joint_state_fits, state_0_spec, ClassicalRegister, QuantumBit, QuantumGate, QuantumRegister,
};
use vstd::prelude::*;

verus! {

/// One step of a circuit program.
pub enum Instruction<T: Real> {
    /// Apply a gate to a target qubit, under the given control qubits.
    ApplyGate(QuantumGate<T>, Vec<usize>, usize),
    /// Measure a qubit into the classical bit of the same index.
    Measure(usize),
}

/// The mathematical content of an instruction.
pub enum InstructionView<T: Real> {
    ApplyGate { name: &'static str, gate: MatrixView<Complex<T>>, controls: Seq<usize>, target: usize },
    Measure { qubit: usize },
}

impl<T: Real> View for Instruction<T> {
    type V = InstructionView<T>;

    open spec fn view(&self) -> InstructionView<T> {
        match self {
            Instruction::ApplyGate(gate, controls, target) => InstructionView::ApplyGate {
                name: gate.name,
                gate: gate.matrix@,
                controls: controls@,
                target: *target,
            },
            Instruction::Measure(qubit) => InstructionView::Measure { qubit: *qubit },
        }
    }
}

/// The views of a list of instructions, in order.
pub open spec fn program_of<T: Real>(instructions: Seq<Instruction<T>>) -> Seq<InstructionView<T>> {
    Seq::new(instructions.len(), |i: int| instructions[i]@)
}

/// The mathematical content of a circuit.
pub struct CircuitView<T: Real> {
    /// The initial amplitudes of each qubit.
    pub qubits: Seq<Seq<Complex<T>>>,
    /// The declared number of classical bits.
    pub classical_bits: nat,
    /// The instructions, in program order.
    pub program: Seq<InstructionView<T>>,
}

/// A circuit program over a declared number of qubits and classical bits.
pub struct QuantumCircuit<T: Real> {
    quantum_states: Vec<QuantumBit<T>>,
    classical_bit_count: usize,
    instructions: Vec<Instruction<T>>,
}

impl<T: Real> View for QuantumCircuit<T> {
    type V = CircuitView<T>;

    closed spec fn view(&self) -> CircuitView<T> {
        CircuitView {
            qubits: amplitudes_of(self.quantum_states@),
            classical_bits: self.classical_bit_count as nat,
            program: program_of(self.instructions@),
        }
    }
}

/// A copy of a list of indices.
pub fn copy_indices(indices: &[usize]) -> (r: Vec<usize>)
    ensures
        r@ == indices@,
{
    let n = indices.len();
    let mut copy: Vec<usize> = Vec::with_capacity(n);
    let mut i: usize = 0;
    while i < n
        invariant
            n == indices@.len(),
            i <= n,
            copy@.len() == i,
            forall|p: int| 0 <= p < i ==> copy@[p] == indices@[p],
        decreases n - i,
    {
        copy.push(indices[i]);
        i += 1;
    }
    copy
}

impl<T: Real> QuantumCircuit<T> {
    /// An empty program over `qubit_count` qubits, each in the state `|0>`,
    /// and `classical_bit_count` classical bits.
    pub fn new(qubit_count: usize, classical_bit_count: usize) -> (r: QuantumCircuit<T>)
        ensures
            r@.qubits == Seq::new(
                qubit_count as nat,
                |i: int| state_0_spec::<T>(),
            ),
            r@.classical_bits == classical_bit_count,
            r@.program == Seq::<InstructionView<T>>::empty(),
    {
        let mut quantum_states: Vec<QuantumBit<T>> = Vec::new();
        let mut i: usize = 0;
        while i < qubit_count
            invariant
                i <= qubit_count,
                quantum_states@.len() == i,
                forall|p: int|
                    0 <= p < i ==> quantum_states@[p]@
                        == state_0_spec::<T>(),
            decreases qubit_count - i,
        {
            quantum_states.push(QuantumBit::state_0());
            i += 1;
        }
        let instructions: Vec<Instruction<T>> = Vec::new();
        proof {
            assert(amplitudes_of(quantum_states@) =~= Seq::new(
                qubit_count as nat,
                |i: int| state_0_spec::<T>(),
            ));
        }
        QuantumCircuit { quantum_states, classical_bit_count, instructions }
    }

    /// Replaces the initial state of one qubit.
    pub fn initialize(&mut self, qubit_index: usize, state: QuantumBit<T>)
        requires
            qubit_index < old(self)@.qubits.len(),
        ensures
            final(self)@ == (CircuitView {
                qubits: old(self)@.qubits.update(qubit_index as int, state@),
                ..old(self)@
            }),
    {
        self.quantum_states.set(qubit_index, state);
        proof {
            assert(final(self)@.qubits =~= old(self)@.qubits.update(qubit_index as int, state@));
        }
    }

    /// Appends the application of `gate` to the qubit `target_index` under
    /// the controls `control_indices`.
    pub fn apply(&mut self, gate: &QuantumGate<T>, control_indices: &[usize], target_index: usize)
        ensures
            final(self)@ == (CircuitView {
                program: old(self)@.program.push(
                    InstructionView::ApplyGate {
                        name: gate.name,
                        gate: gate.matrix@,
                        controls: control_indices@,
                        target: target_index,
                    },
                ),
                ..old(self)@
            }),
    {
        let instruction = Instruction::ApplyGate(
            gate.clone(),
            copy_indices(control_indices),
            target_index,
        );
        self.instructions.push(instruction);
        proof {
            assert(final(self)@.program =~= old(self)@.program.push(instruction@));
        }
    }

    /// Appends the measurement of the qubit `qubit_index`.
    pub fn measure(&mut self, qubit_index: usize)
        ensures
            final(self)@ == (CircuitView {
                program: old(self)@.program.push(InstructionView::Measure { qubit: qubit_index }),
                ..old(self)@
            }),
    {
        let instruction = Instruction::Measure(qubit_index);
        self.instructions.push(instruction);
        proof {
            assert(final(self)@.program =~= old(self)@.program.push(instruction@));
        }
    }

    /// The instructions, in program order.
    pub fn get_instructions(&self) -> (r: &Vec<Instruction<T>>)
        ensures
            program_of(r@) == self@.program,
    {
        &self.instructions
    }

    /// The initial states of the qubits.
    pub fn get_quantum_states(&self) -> (r: &Vec<QuantumBit<T>>)
        ensures
            amplitudes_of(r@) == self@.qubits,
    {
        &self.quantum_states
    }

    /// The number of qubits.
    pub fn qubit_count(&self) -> (r: usize)
        ensures
            r == self@.qubits.len(),
    {
        self.quantum_states.len()
    }

    /// The declared number of classical bits.
    pub fn classical_bit_count(&self) -> (r: usize)
        ensures
            r == self@.classical_bits,
    {
        self.classical_bit_count
    }

    /// A fresh register of the qubits in their initial states.
    pub fn get_quantum_register(&self) -> (r: QuantumRegister<T>)
        requires
            self@.qubits.len() >= 1,
            joint_state_fits(self@.qubits),
        ensures
            r.wf(),
            r@.qubits == self@.qubits,
    {
        QuantumRegister::from(self.quantum_states.as_slice())
    }

    /// A fresh classical register of the declared size, all zero.
    pub fn get_classical_registers(&self) -> (r: ClassicalRegister)
        ensures
            r@ == Seq::new(self@.classical_bits, |i: int| 0i32),
    {
        ClassicalRegister::new(self.classical_bit_count)
    }
}

} // verus!
