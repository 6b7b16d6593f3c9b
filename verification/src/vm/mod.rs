//! The NVM virtual machine.
//!
//! - [`memory`]: the machine's memory;
//! - [`register_file`]: the register bank;
//! - [`semantics`]: what instructions and programs mean;
//! - [`executer`]: the direct-threaded executor ([`NVM::run`]);
//! - [`direct_threading`]: the same executor under its own name;
//! - [`default`]: the executor that decodes operands while running;
//! - [`agreement`]: the two executors compute the same runs;
//! - [`err`]: execution errors.
pub mod agreement;
pub mod default;
pub mod direct_threading;
pub mod err;
pub mod executer;
pub mod memory;
pub mod register_file;
pub mod semantics;

use vstd::prelude::*;

use crate::isa::instruction::Instruction;
use crate::isa::register::REGISTER_COUNT;
use crate::vm::memory::NVMMemory;
use crate::vm::register_file::RegisterFile;
use crate::vm::semantics::MachineState;

verus! {

/// A floating-point operation with a floating-point result.
#[derive(Debug, Clone, Copy)]
pub enum FloatArith {
    Add,
    Sub,
    Mul,
    Div,
    Rem,
}

/// A floating-point comparison.
#[derive(Debug, Clone, Copy)]
pub enum FloatComparison {
    Eq,
    Ne,
    Lt,
    Le,
    Gt,
    Ge,
}

/// A question to the floating-point unit: an operation or a comparison on
/// the bits of two IEEE 754 double-precision values.
///
/// The executors take the unit as a function from questions to answers: the
/// bits of the result for an operation, non-zero for a comparison that holds.
/// Nothing is assumed about the answers; the executors' contracts say which
/// questions are asked, in which order, and what is done with each answer.
#[derive(Debug, Clone, Copy)]
pub enum FloatQuery {
    Arith(FloatArith, u64, u64),
    Compare(FloatComparison, u64, u64),
}

/// Every answer in `answers` is one that `unit` can give to its question.
pub open spec fn answered_by<F: Fn(FloatQuery) -> u64>(unit: F, answers: Seq<(FloatQuery, u64)>) -> bool {
    forall|j: int| 0 <= j < answers.len() ==> call_ensures(unit, (#[trigger] answers[j].0,), answers[j].1)
}

/// The unit gives one answer to each question.
pub open spec fn deterministic<F: Fn(FloatQuery) -> u64>(unit: F) -> bool {
    forall|q: FloatQuery, a: u64, b: u64|
        #![trigger call_ensures(unit, (q,), a), call_ensures(unit, (q,), b)]
        call_ensures(unit, (q,), a) && call_ensures(unit, (q,), b) ==> a == b
}

/// The unit can be asked every question.
pub open spec fn always_answers<F: Fn(FloatQuery) -> u64>(unit: F) -> bool {
    forall|q: FloatQuery| call_requires(unit, (q,))
}

/// The virtual machine: the program, the memory, the registers and the call
/// stack of `CALL`/`RET`.
pub struct NVM {
    /// The program to execute.
    pub program: Vec<Instruction>,
    /// The memory.
    pub memory: NVMMemory,
    /// The register file.
    pub registers: RegisterFile,
    /// The return addresses of the pending calls.
    pub call_stack: Vec<usize>,
}

impl NVM {
    /// The state that instructions read and change.
    pub open spec fn state(&self) -> MachineState {
        MachineState {
            registers: self.registers@,
            memory: self.memory@,
            call_stack: self.call_stack@,
        }
    }

    /// A machine with an empty program, `memory_size` bytes of zeroed memory,
    /// zeroed registers and an empty call stack.
    pub fn new(memory_size: usize) -> (vm: Self)
        ensures
            vm.program@ == Seq::<Instruction>::empty(),
            vm.memory@ == Seq::new(memory_size as nat, |_i: int| 0u8),
            vm.registers@ == Seq::new(REGISTER_COUNT as nat, |_i: int| 0u64),
            vm.call_stack@ == Seq::<usize>::empty(),
    {
        Self {
            program: Vec::new(),
            memory: NVMMemory::new(memory_size),
            registers: RegisterFile::new(),
            call_stack: Vec::new(),
        }
    }

    /// A machine with the given program and memory, zeroed registers and an
    /// empty call stack.
    pub fn from_program_and_memory(program: Vec<Instruction>, memory: NVMMemory) -> (vm: Self)
        ensures
            vm.program@ == program@,
            vm.memory@ == memory@,
            vm.registers@ == Seq::new(REGISTER_COUNT as nat, |_i: int| 0u64),
            vm.call_stack@ == Seq::<usize>::empty(),
    {
        Self { program, memory, registers: RegisterFile::new(), call_stack: Vec::new() }
    }
}

} // verus!
