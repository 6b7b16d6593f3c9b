//! The meaning of programs: what one instruction does to the machine state,
//! and what running a program from a state yields.
//!
//! Both executors ([`NVM::run`](crate::vm::NVM::run) and
//! [`NVM::match_execute`](crate::vm::NVM::match_execute)) are proved against
//! these definitions.
use vstd::prelude::*;

use crate::isa::instruction::Instruction;
use crate::isa::opcode::OperationCode;
use crate::isa::operand::{Operand, OperandKind};
use crate::isa::register::Register;
use crate::bytes::{lemma_le_bytes, u16_le_bytes, u32_le_bytes, u64_le_bytes};
use crate::vm::err::{VMError, VMErrorKind};
use crate::vm::memory::{lemma_read_values, lemma_write_bytes, read_u16, read_u32, read_u64, read_u8, write_bytes};
use crate::vm::{FloatArith, FloatComparison, FloatQuery};

verus! {

/// The most instructions one run executes before it stops.
pub const STEP_LIMIT: u64 = 0xffff_ffff_ffff_ffff;

/// The sign bit of a 64-bit floating-point value.
pub const SIGN_BIT: u64 = 0x8000_0000_0000_0000;

/// The state that instructions read and change.
pub struct MachineState {
    pub registers: Seq<u64>,
    pub memory: Seq<u8>,
    pub call_stack: Seq<usize>,
}

/// What one instruction leads to.
pub enum Step {
    /// Continue at the instruction with the given index.
    Goto(MachineState, int),
    /// Stop the machine (`EXIT`).
    Halt(MachineState),
    /// An error; the state is left as it was before the instruction.
    Fault(VMErrorKind),
}

/// `1` for true, `0` for false.
pub open spec fn bool_u64(b: bool) -> u64 {
    if b {
        1
    } else {
        0
    }
}

/// The value of an operand: a register's contents, an immediate, or `0` for a
/// missing operand.
pub open spec fn value_of(regs: Seq<u64>, o: Option<Operand>) -> u64 {
    match o {
        Some(Operand { kind: OperandKind::Register(r) }) => regs[r.0 as int],
        Some(Operand { kind: OperandKind::Immediate(v) }) => v,
        None => 0,
    }
}

/// The register number of the destination operand (the first one).
pub open spec fn dst_of(i: Instruction) -> int {
    match i.operand1 {
        Some(Operand { kind: OperandKind::Register(r) }) => r.0 as int,
        _ => 0,
    }
}

/// The opcodes whose result is computed by the floating-point unit.
pub open spec fn is_float_arith(op: OperationCode) -> bool {
    op is FADD || op is FSUB || op is FMUL || op is FDIV || op is FREM
}

/// The floating-point comparisons.
pub open spec fn is_float_comparison(op: OperationCode) -> bool {
    op is FEQ || op is FNE || op is FLT || op is FLE || op is FGT || op is FGE
}

/// The opcodes that consult the floating-point unit.
pub open spec fn consumes_float(op: OperationCode) -> bool {
    is_float_arith(op) || is_float_comparison(op)
}

/// Integer division and remainder.
pub open spec fn is_division(op: OperationCode) -> bool {
    op is SDIV || op is UDIV || op is SREM || op is UREM
}

/// One-source operations.
pub open spec fn is_unary(op: OperationCode) -> bool {
    op is INEG || op is NOT || op is FNEG
}

/// Two-source operations computed on the integers (divisions included).
pub open spec fn is_int_binary(op: OperationCode) -> bool {
    op is IADD || op is ISUB || op is IMUL || is_division(op) || op is AND || op is OR || op is XOR
        || op is SHL || op is SHR || op is SAR || op is IEQ || op is INE || op is SLT || op is SLE
        || op is SGT || op is SGE || op is ULT || op is ULE || op is UGT || op is UGE
}

/// Signed division as two's-complement wrapping division (`r != 0`).
pub open spec fn signed_div(l: u64, r: u64) -> u64 {
    match (l as i64).checked_div(r as i64) {
        Some(q) => q as u64,
        None => l,
    }
}

/// Signed remainder as two's-complement wrapping remainder (`r != 0`).
pub open spec fn signed_rem(l: u64, r: u64) -> u64 {
    match (l as i64).checked_rem(r as i64) {
        Some(q) => q as u64,
        None => 0,
    }
}

/// The result of a two-source integer operation.
pub open spec fn binary_result(op: OperationCode, l: u64, r: u64) -> u64 {
    match op {
        OperationCode::IADD => l.wrapping_add(r),
        OperationCode::ISUB => l.wrapping_sub(r),
        OperationCode::IMUL => l.wrapping_mul(r),
        OperationCode::SDIV => signed_div(l, r),
        OperationCode::UDIV => l / r,
        OperationCode::SREM => signed_rem(l, r),
        OperationCode::UREM => l % r,
        OperationCode::AND => l & r,
        OperationCode::OR => l | r,
        OperationCode::XOR => l ^ r,
        OperationCode::SHL => l.wrapping_shl(r as u32),
        OperationCode::SHR => l.wrapping_shr(r as u32),
        OperationCode::SAR => ((l as i64).wrapping_shr(r as u32)) as u64,
        OperationCode::IEQ => bool_u64(l == r),
        OperationCode::INE => bool_u64(l != r),
        OperationCode::SLT => bool_u64((l as i64) < (r as i64)),
        OperationCode::SLE => bool_u64((l as i64) <= (r as i64)),
        OperationCode::SGT => bool_u64((l as i64) > (r as i64)),
        OperationCode::SGE => bool_u64((l as i64) >= (r as i64)),
        OperationCode::ULT => bool_u64(l < r),
        OperationCode::ULE => bool_u64(l <= r),
        OperationCode::UGT => bool_u64(l > r),
        OperationCode::UGE => bool_u64(l >= r),
        _ => 0,
    }
}

/// The result of a one-source operation. `FNEG` flips the sign bit, which is
/// how IEEE 754 negates.
pub open spec fn unary_result(op: OperationCode, v: u64) -> u64 {
    match op {
        OperationCode::INEG => 0u64.wrapping_sub(v),
        OperationCode::NOT => !v,
        OperationCode::FNEG => v ^ SIGN_BIT,
        _ => 0,
    }
}

/// The value a `LOAD*` reads at `a`, zero-extended, if it fits in memory.
pub open spec fn load_result(op: OperationCode, m: Seq<u8>, a: int) -> Option<u64> {
    match op {
        OperationCode::LOAD8 => match read_u8(m, a) {
            Some(v) => Some(v as u64),
            None => None,
        },
        OperationCode::LOAD16 => match read_u16(m, a) {
            Some(v) => Some(v as u64),
            None => None,
        },
        OperationCode::LOAD32 => match read_u32(m, a) {
            Some(v) => Some(v as u64),
            None => None,
        },
        _ => read_u64(m, a),
    }
}

/// The bytes a `STORE*` writes for value `v` (its low bytes, little-endian).
pub open spec fn store_bytes(op: OperationCode, v: u64) -> Seq<u8> {
    match op {
        OperationCode::STORE8 => seq![v as u8],
        OperationCode::STORE16 => u16_le_bytes(v as u16),
        OperationCode::STORE32 => u32_le_bytes(v as u32),
        _ => u64_le_bytes(v),
    }
}

/// `s` with register `d` set to `x`.
pub open spec fn with_register(s: MachineState, d: int, x: u64) -> MachineState {
    MachineState { registers: s.registers.update(d, x), memory: s.memory, call_stack: s.call_stack }
}

/// The invalid-address error for an access at `a`.
pub open spec fn address_fault(a: u64, m: Seq<u8>) -> VMErrorKind {
    VMErrorKind::InvalidAddress { got: a as usize, memory_length: m.len() as usize }
}

/// What instruction `i`, at index `ip`, does to state `s`. `fl` is the answer of
/// the floating-point unit for the instructions that consult it: the bits of
/// the result of `FADD` .. `FREM`, and non-zero for a true comparison.
///
/// The operands are taken by position; the instruction is assumed to have
/// passed the operand checks of its executor.
pub open spec fn step(i: Instruction, s: MachineState, ip: int, fl: u64) -> Step {
    let v1 = value_of(s.registers, i.operand1);
    let v2 = value_of(s.registers, i.operand2);
    let v3 = value_of(s.registers, i.operand3);
    let d = dst_of(i);
    let next = ip + 1;
    match i.opcode {
        OperationCode::NOP => Step::Goto(s, next),
        OperationCode::EXIT => Step::Halt(s),
        OperationCode::MOVE => Step::Goto(with_register(s, d, v2), next),
        OperationCode::LOAD8 | OperationCode::LOAD16 | OperationCode::LOAD32
        | OperationCode::LOAD64 => match load_result(i.opcode, s.memory, (v2 as usize) as int) {
            Some(x) => Step::Goto(with_register(s, d, x), next),
            None => Step::Fault(address_fault(v2, s.memory)),
        },
        OperationCode::STORE8 | OperationCode::STORE16 | OperationCode::STORE32
        | OperationCode::STORE64 => match write_bytes(
            s.memory,
            (v1 as usize) as int,
            store_bytes(i.opcode, v2),
        ) {
            Some(m) => Step::Goto(
                MachineState { registers: s.registers, memory: m, call_stack: s.call_stack },
                next,
            ),
            None => Step::Fault(address_fault(v1, s.memory)),
        },
        OperationCode::JMP => Step::Goto(s, (v1 as usize) as int),
        OperationCode::JZ => if v1 == 0 {
            Step::Goto(s, (v2 as usize) as int)
        } else {
            Step::Goto(s, next)
        },
        OperationCode::JNZ => if v1 != 0 {
            Step::Goto(s, (v2 as usize) as int)
        } else {
            Step::Goto(s, next)
        },
        OperationCode::CALL => Step::Goto(
            MachineState {
                registers: s.registers,
                memory: s.memory,
                call_stack: s.call_stack.push(next as usize),
            },
            (v1 as usize) as int,
        ),
        OperationCode::RET => if s.call_stack.len() == 0 {
            Step::Fault(VMErrorKind::EmptyCallStack)
        } else {
            Step::Goto(
                MachineState {
                    registers: s.registers,
                    memory: s.memory,
                    call_stack: s.call_stack.drop_last(),
                },
                s.call_stack.last() as int,
            )
        },
        op => if is_float_arith(op) {
            Step::Goto(with_register(s, d, fl), next)
        } else if is_float_comparison(op) {
            Step::Goto(with_register(s, d, bool_u64(fl != 0)), next)
        } else if is_unary(op) {
            Step::Goto(with_register(s, d, unary_result(op, v2)), next)
        } else if is_division(op) && v3 == 0 {
            Step::Fault(VMErrorKind::DivisionByZero)
        } else {
            Step::Goto(with_register(s, d, binary_result(op, v2, v3)), next)
        },
    }
}

/// Where execution goes after an instruction that did not fail.
#[derive(Debug, Clone, Copy)]
pub enum Flow {
    /// Continue at the instruction with this index.
    Next(usize),
    /// Stop (`EXIT`).
    Stop,
}

/// The operand-count error of an instruction that lacks exactly `expected`
/// leading operands.
pub open spec fn count_fault(i: Instruction, expected: u8) -> VMErrorKind {
    VMErrorKind::IncorrectNumberOfOperands { expected, got: i.count_of() as u8 }
}

/// The error for a destination operand that is not a register.
pub open spec fn dst_fault(o: Option<Operand>) -> VMErrorKind {
    VMErrorKind::IncorrectTypeOfOperand {
        expected: OperandKind::Register(Register(0)),
        got: match o {
            Some(x) => x.kind,
            None => OperandKind::Immediate(0),
        },
    }
}

/// The first operand is present and a register.
pub open spec fn dst_is_register(i: Instruction) -> bool {
    i.operand1 matches Some(Operand { kind: OperandKind::Register(_) })
}

/// Exactly the first `n` operands are present.
pub open spec fn has_exactly(i: Instruction, n: nat) -> bool {
    &&& (i.operand1 is Some <==> n >= 1)
    &&& (i.operand2 is Some <==> n >= 2)
    &&& (i.operand3 is Some <==> n >= 3)
}

/// The operand check that the decoding executor makes when it reaches
/// instruction `i`: `NOP` and `EXIT` are not checked, `RET` must have no
/// operand, the others exactly their operands and, where there is one, a
/// register destination.
pub open spec fn match_check(i: Instruction) -> Option<VMErrorKind> {
    match i.opcode {
        OperationCode::NOP | OperationCode::EXIT => None,
        OperationCode::RET => if i.count_of() != 0 {
            Some(count_fault(i, 0))
        } else {
            None
        },
        OperationCode::JMP | OperationCode::CALL => if !has_exactly(i, 1) {
            Some(count_fault(i, 1))
        } else {
            None
        },
        OperationCode::JZ | OperationCode::JNZ | OperationCode::STORE8 | OperationCode::STORE16
        | OperationCode::STORE32 | OperationCode::STORE64 => if !has_exactly(i, 2) {
            Some(count_fault(i, 2))
        } else {
            None
        },
        OperationCode::MOVE | OperationCode::LOAD8 | OperationCode::LOAD16 | OperationCode::LOAD32
        | OperationCode::LOAD64 | OperationCode::INEG | OperationCode::FNEG
        | OperationCode::NOT => if !has_exactly(i, 2) {
            Some(count_fault(i, 2))
        } else if !dst_is_register(i) {
            Some(dst_fault(i.operand1))
        } else {
            None
        },
        _ => if !has_exactly(i, 3) {
            Some(count_fault(i, 3))
        } else if !dst_is_register(i) {
            Some(dst_fault(i.operand1))
        } else {
            None
        },
    }
}

/// What instruction `i` does when the decoding executor reaches it: its
/// operand check, then [`step`].
pub open spec fn checked_step(i: Instruction, s: MachineState, ip: int, fl: u64) -> Step {
    match match_check(i) {
        Some(k) => Step::Fault(k),
        None => step(i, s, ip, fl),
    }
}

/// Whether the checked run asks the unit a question at instruction `i`: it
/// is a floating-point instruction and passes its operand check.
pub open spec fn asks_unit(i: Instruction) -> bool {
    consumes_float(i.opcode) && match_check(i) is None
}

/// Like [`run_from`], with every instruction checked when it is reached
/// ([`checked_step`]); an instruction that fails its check asks the unit
/// nothing.
pub open spec fn checked_run_from(
    prog: Seq<Instruction>,
    s: MachineState,
    ip: int,
    fuel: nat,
    answers: Seq<(FloatQuery, u64)>,
) -> Option<(MachineState, Result<(), VMErrorKind>)>
    decreases fuel,
{
    if ip < 0 || ip >= prog.len() || fuel == 0 {
        finish(answers, s, Ok(()))
    } else {
        let i = prog[ip];
        let asks = asks_unit(i);
        if !answered(asks, float_query(i, s), answers) {
            None
        } else {
            let rest = rest_of(asks, answers);
            match checked_step(i, s, ip, answer_of(asks, answers)) {
                Step::Halt(s2) => finish(rest, s2, Ok(())),
                Step::Fault(e) => finish(rest, s, Err(e)),
                Step::Goto(s2, n) => checked_run_from(prog, s2, n, (fuel - 1) as nat, rest),
            }
        }
    }
}

/// Without floating-point instructions, a checked run uses no answer.
pub proof fn lemma_float_free_checked_run(
    prog: Seq<Instruction>,
    s: MachineState,
    ip: int,
    fuel: nat,
    answers: Seq<(FloatQuery, u64)>,
)
    requires
        float_free(prog),
        answers.len() > 0,
    ensures
        checked_run_from(prog, s, ip, fuel, answers) is None,
    decreases fuel,
{
    if ip < 0 || ip >= prog.len() || fuel == 0 {
    } else {
        let i = prog[ip];
        assert(!consumes_float(i.opcode));
        match checked_step(i, s, ip, 0) {
            Step::Goto(s2, n) => {
                lemma_float_free_checked_run(prog, s2, n, (fuel - 1) as nat, answers);
            },
            _ => {},
        }
    }
}

/// An executor's result `r` for one instruction that does not jump, taking
/// the state from `s0` to `s1`, is the one that `st` describes.
pub open spec fn plain_matches(
    st: Step,
    ip: int,
    s0: MachineState,
    s1: MachineState,
    r: Result<(), VMError>,
) -> bool {
    match st {
        Step::Goto(s2, n) => n == ip + 1 && r == Ok::<(), VMError>(()) && s1 == s2,
        Step::Halt(_) => false,
        Step::Fault(k) => r == Err::<(), VMError>(VMError { kind: k }) && s1 == s0,
    }
}

/// An executor's result `r` for one instruction, taking the state from `s0`
/// to `s1`, is the one that `st` describes.
pub open spec fn step_matches(
    st: Step,
    s0: MachineState,
    s1: MachineState,
    r: Result<Flow, VMError>,
) -> bool {
    match st {
        Step::Goto(s2, n) => 0 <= n <= usize::MAX && r == Ok::<Flow, VMError>(Flow::Next(n as usize))
            && s1 == s2,
        Step::Halt(s2) => r == Ok::<Flow, VMError>(Flow::Stop) && s1 == s2,
        Step::Fault(k) => r == Err::<Flow, VMError>(VMError { kind: k }) && s1 == s0,
    }
}

/// The floating-point operation of an arithmetic opcode.
pub open spec fn float_arith_spec(op: OperationCode) -> FloatArith {
    match op {
        OperationCode::FADD => FloatArith::Add,
        OperationCode::FSUB => FloatArith::Sub,
        OperationCode::FMUL => FloatArith::Mul,
        OperationCode::FDIV => FloatArith::Div,
        _ => FloatArith::Rem,
    }
}

/// The floating-point comparison of a comparison opcode.
pub open spec fn float_comparison_spec(op: OperationCode) -> FloatComparison {
    match op {
        OperationCode::FEQ => FloatComparison::Eq,
        OperationCode::FNE => FloatComparison::Ne,
        OperationCode::FLT => FloatComparison::Lt,
        OperationCode::FLE => FloatComparison::Le,
        OperationCode::FGT => FloatComparison::Gt,
        _ => FloatComparison::Ge,
    }
}

/// The question a floating-point instruction `i` asks the unit in state `s`:
/// its operation or comparison, on the values of its two sources in order.
pub open spec fn float_query(i: Instruction, s: MachineState) -> FloatQuery {
    let v2 = value_of(s.registers, i.operand2);
    let v3 = value_of(s.registers, i.operand3);
    if is_float_comparison(i.opcode) {
        FloatQuery::Compare(float_comparison_spec(i.opcode), v2, v3)
    } else {
        FloatQuery::Arith(float_arith_spec(i.opcode), v2, v3)
    }
}

/// If an instruction asks question `q`, the next answer is an answer to `q`.
pub open spec fn answered(asks: bool, q: FloatQuery, answers: Seq<(FloatQuery, u64)>) -> bool {
    !asks || (answers.len() > 0 && answers[0].0 == q)
}

/// The answer an instruction that asks takes (`0` for one that does not).
pub open spec fn answer_of(asks: bool, answers: Seq<(FloatQuery, u64)>) -> u64 {
    if asks && answers.len() > 0 {
        answers[0].1
    } else {
        0
    }
}

/// The answers left after an instruction.
pub open spec fn rest_of(asks: bool, answers: Seq<(FloatQuery, u64)>) -> Seq<(FloatQuery, u64)> {
    if asks && answers.len() > 0 {
        answers.drop_first()
    } else {
        answers
    }
}

/// The end of a run in state `s` with result `res`, if every answer was used.
pub open spec fn finish(
    rest: Seq<(FloatQuery, u64)>,
    s: MachineState,
    res: Result<(), VMErrorKind>,
) -> Option<(MachineState, Result<(), VMErrorKind>)> {
    if rest.len() == 0 {
        Some((s, res))
    } else {
        None
    }
}

/// The outcome of running `prog` from state `s` at instruction `ip` for at most
/// `fuel` instructions, where `answers` are, in order, the questions that the
/// floating-point instructions ask the unit with the unit's answers. Running
/// stops at `EXIT`, at an index outside the program, when the fuel is spent,
/// or at the first error (the state is then the one before the failing
/// instruction). There is no outcome (`None`) when an instruction's question
/// is not the next one in `answers`, or when answers are left at the end: a
/// sequence with an outcome lists exactly the questions of the run, in order.
pub open spec fn run_from(
    prog: Seq<Instruction>,
    s: MachineState,
    ip: int,
    fuel: nat,
    answers: Seq<(FloatQuery, u64)>,
) -> Option<(MachineState, Result<(), VMErrorKind>)>
    decreases fuel,
{
    if ip < 0 || ip >= prog.len() || fuel == 0 {
        finish(answers, s, Ok(()))
    } else {
        let i = prog[ip];
        let asks = consumes_float(i.opcode);
        if !answered(asks, float_query(i, s), answers) {
            None
        } else {
            let rest = rest_of(asks, answers);
            match step(i, s, ip, answer_of(asks, answers)) {
                Step::Halt(s2) => finish(rest, s2, Ok(())),
                Step::Fault(e) => finish(rest, s, Err(e)),
                Step::Goto(s2, n) => run_from(prog, s2, n, (fuel - 1) as nat, rest),
            }
        }
    }
}

/// The error kind of an executor's result.
pub open spec fn outcome(r: Result<(), VMError>) -> Result<(), VMErrorKind> {
    match r {
        Ok(()) => Ok(()),
        Err(e) => Err(e.kind),
    }
}

/// No instruction of `prog` consults the floating-point unit.
pub open spec fn float_free(prog: Seq<Instruction>) -> bool {
    forall|j: int| 0 <= j < prog.len() ==> !consumes_float(#[trigger] prog[j].opcode)
}

/// Every instruction of `prog` names only registers of the machine.
pub open spec fn registers_ok(prog: Seq<Instruction>) -> bool {
    forall|j: int| 0 <= j < prog.len() ==> (#[trigger] prog[j]).registers_ok()
}

/// Every instruction of `prog` has its operands first.
pub open spec fn aligned(prog: Seq<Instruction>) -> bool {
    forall|j: int| 0 <= j < prog.len() ==> (#[trigger] prog[j]).is_aligned()
}

/// Without floating-point instructions, a run uses no answer.
pub proof fn lemma_float_free_run(
    prog: Seq<Instruction>,
    s: MachineState,
    ip: int,
    fuel: nat,
    answers: Seq<(FloatQuery, u64)>,
)
    requires
        float_free(prog),
        answers.len() > 0,
    ensures
        run_from(prog, s, ip, fuel, answers) is None,
    decreases fuel,
{
    if ip < 0 || ip >= prog.len() || fuel == 0 {
    } else {
        let i = prog[ip];
        assert(!consumes_float(i.opcode));
        match step(i, s, ip, 0) {
            Step::Goto(s2, n) => {
                lemma_float_free_run(prog, s2, n, (fuel - 1) as nat, answers);
            },
            _ => {},
        }
    }
}

/// The configuration after the first `n` instructions of a run, when each of
/// them continues the run: the state, the index of the next instruction and
/// the answers left. None if the run stops or fails earlier.
pub open spec fn run_steps(
    prog: Seq<Instruction>,
    s: MachineState,
    ip: int,
    n: nat,
    answers: Seq<(FloatQuery, u64)>,
) -> Option<(MachineState, int, Seq<(FloatQuery, u64)>)>
    decreases n,
{
    if n == 0 {
        Some((s, ip, answers))
    } else if ip < 0 || ip >= prog.len() {
        None
    } else {
        let i = prog[ip];
        let asks = consumes_float(i.opcode);
        if !answered(asks, float_query(i, s), answers) {
            None
        } else {
            match step(i, s, ip, answer_of(asks, answers)) {
                Step::Goto(s2, m) => run_steps(prog, s2, m, (n - 1) as nat, rest_of(asks, answers)),
                _ => None,
            }
        }
    }
}

/// Like [`run_steps`], for the checked run.
pub open spec fn checked_run_steps(
    prog: Seq<Instruction>,
    s: MachineState,
    ip: int,
    n: nat,
    answers: Seq<(FloatQuery, u64)>,
) -> Option<(MachineState, int, Seq<(FloatQuery, u64)>)>
    decreases n,
{
    if n == 0 {
        Some((s, ip, answers))
    } else if ip < 0 || ip >= prog.len() {
        None
    } else {
        let i = prog[ip];
        let asks = asks_unit(i);
        if !answered(asks, float_query(i, s), answers) {
            None
        } else {
            match checked_step(i, s, ip, answer_of(asks, answers)) {
                Step::Goto(s2, m) => checked_run_steps(
                    prog,
                    s2,
                    m,
                    (n - 1) as nat,
                    rest_of(asks, answers),
                ),
                _ => None,
            }
        }
    }
}

/// A run that fails ends in the state reached just before the failing
/// instruction: after some number of instructions that all continued the
/// run (their effects kept), the run is at instruction `j` in exactly the
/// final state, and `j` fails there with the run's error (it has no effect).
pub proof fn lemma_error_keeps_state(
    prog: Seq<Instruction>,
    s: MachineState,
    ip: int,
    fuel: nat,
    answers: Seq<(FloatQuery, u64)>,
)
    ensures
        forall|s_end: MachineState, k: VMErrorKind|
            run_from(prog, s, ip, fuel, answers) == Some((s_end, Err::<(), VMErrorKind>(k)))
                ==> exists|n: nat, j: int, rest: Seq<(FloatQuery, u64)>|
                #![trigger run_steps(prog, s, ip, n, answers), answered(consumes_float(prog[j].opcode), float_query(prog[j], s_end), rest)]
                run_steps(prog, s, ip, n, answers) == Some((s_end, j, rest)) && n < fuel
                    && 0 <= j < prog.len() && answered(
                    consumes_float(prog[j].opcode),
                    float_query(prog[j], s_end),
                    rest,
                ) && step(prog[j], s_end, j, answer_of(consumes_float(prog[j].opcode), rest))
                    == Step::Fault(k),
    decreases fuel,
{
    if ip < 0 || ip >= prog.len() || fuel == 0 {
    } else {
        let i = prog[ip];
        let asks = consumes_float(i.opcode);
        if answered(asks, float_query(i, s), answers) {
            let fl = answer_of(asks, answers);
            let rest = rest_of(asks, answers);
            match step(i, s, ip, fl) {
                Step::Goto(s2, m) => {
                    lemma_error_keeps_state(prog, s2, m, (fuel - 1) as nat, rest);
                    assert(run_from(prog, s, ip, fuel, answers) == run_from(
                        prog,
                        s2,
                        m,
                        (fuel - 1) as nat,
                        rest,
                    ));
                    assert forall|s_end: MachineState, k: VMErrorKind|
                        run_from(prog, s, ip, fuel, answers) == Some(
                            (s_end, Err::<(), VMErrorKind>(k)),
                        ) implies exists|n: nat, j: int, r: Seq<(FloatQuery, u64)>|
                        #![trigger run_steps(prog, s, ip, n, answers), answered(consumes_float(prog[j].opcode), float_query(prog[j], s_end), r)]
                        run_steps(prog, s, ip, n, answers) == Some((s_end, j, r)) && n
                            < fuel && 0 <= j < prog.len() && answered(
                            consumes_float(prog[j].opcode),
                            float_query(prog[j], s_end),
                            r,
                        ) && step(prog[j], s_end, j, answer_of(consumes_float(prog[j].opcode), r))
                            == Step::Fault(k) by {
                        let (n0, j0, r0) = choose|n: nat, j: int, r: Seq<(FloatQuery, u64)>|
                            #![trigger run_steps(prog, s2, m, n, rest), answered(consumes_float(prog[j].opcode), float_query(prog[j], s_end), r)]
                            run_steps(prog, s2, m, n, rest) == Some((s_end, j, r)) && n
                                < (fuel - 1) as nat && 0 <= j < prog.len() && answered(
                                consumes_float(prog[j].opcode),
                                float_query(prog[j], s_end),
                                r,
                            ) && step(
                                prog[j],
                                s_end,
                                j,
                                answer_of(consumes_float(prog[j].opcode), r),
                            ) == Step::Fault(k);
                        assert(run_steps(prog, s, ip, n0 + 1, answers) == run_steps(
                            prog,
                            s2,
                            m,
                            n0,
                            rest,
                        ));
                    }
                },
                Step::Fault(k) => {
                    assert(run_from(prog, s, ip, fuel, answers) == finish(rest, s, Err(k)));
                    assert(run_steps(prog, s, ip, 0, answers) == Some((s, ip, answers)));
                },
                _ => {},
            }
        }
    }
}

/// A checked run that fails ends in the state reached just before the
/// failing instruction: after some number of instructions that all continued
/// the run (their effects kept), the run is at instruction `j` in exactly the
/// final state, and `j` fails there with the run's error (it has no effect).
pub proof fn lemma_checked_error_keeps_state(
    prog: Seq<Instruction>,
    s: MachineState,
    ip: int,
    fuel: nat,
    answers: Seq<(FloatQuery, u64)>,
)
    ensures
        forall|s_end: MachineState, k: VMErrorKind|
            checked_run_from(prog, s, ip, fuel, answers) == Some((s_end, Err::<(), VMErrorKind>(k)))
                ==> exists|n: nat, j: int, rest: Seq<(FloatQuery, u64)>|
                #![trigger checked_run_steps(prog, s, ip, n, answers), answered(asks_unit(prog[j]), float_query(prog[j], s_end), rest)]
                checked_run_steps(prog, s, ip, n, answers) == Some((s_end, j, rest)) && n
                    < fuel && 0 <= j < prog.len() && answered(
                    asks_unit(prog[j]),
                    float_query(prog[j], s_end),
                    rest,
                ) && checked_step(
                    prog[j],
                    s_end,
                    j,
                    answer_of(asks_unit(prog[j]), rest),
                ) == Step::Fault(k),
    decreases fuel,
{
    if ip < 0 || ip >= prog.len() || fuel == 0 {
    } else {
        let i = prog[ip];
        let asks = asks_unit(i);
        if answered(asks, float_query(i, s), answers) {
            let fl = answer_of(asks, answers);
            let rest = rest_of(asks, answers);
            match checked_step(i, s, ip, fl) {
                Step::Goto(s2, m) => {
                    lemma_checked_error_keeps_state(prog, s2, m, (fuel - 1) as nat, rest);
                    assert(checked_run_from(prog, s, ip, fuel, answers) == checked_run_from(
                        prog,
                        s2,
                        m,
                        (fuel - 1) as nat,
                        rest,
                    ));
                    assert forall|s_end: MachineState, k: VMErrorKind|
                        checked_run_from(prog, s, ip, fuel, answers) == Some(
                            (s_end, Err::<(), VMErrorKind>(k)),
                        ) implies exists|n: nat, j: int, r: Seq<(FloatQuery, u64)>|
                        #![trigger checked_run_steps(prog, s, ip, n, answers), answered(asks_unit(prog[j]), float_query(prog[j], s_end), r)]
                        checked_run_steps(prog, s, ip, n, answers) == Some((s_end, j, r))
                            && n < fuel && 0 <= j < prog.len() && answered(
                            asks_unit(prog[j]),
                            float_query(prog[j], s_end),
                            r,
                        ) && checked_step(
                            prog[j],
                            s_end,
                            j,
                            answer_of(
                                asks_unit(prog[j]),
                                r,
                            ),
                        ) == Step::Fault(k) by {
                        let (n0, j0, r0) = choose|n: nat, j: int, r: Seq<(FloatQuery, u64)>|
                            #![trigger checked_run_steps(prog, s2, m, n, rest), answered(asks_unit(prog[j]), float_query(prog[j], s_end), r)]
                            checked_run_steps(prog, s2, m, n, rest) == Some((s_end, j, r))
                                && n < (fuel - 1) as nat && 0 <= j < prog.len() && answered(
                                asks_unit(prog[j]),
                                float_query(prog[j], s_end),
                                r,
                            ) && checked_step(
                                prog[j],
                                s_end,
                                j,
                                answer_of(
                                    asks_unit(prog[j]),
                                    r,
                                ),
                            ) == Step::Fault(k);
                        assert(checked_run_steps(prog, s, ip, n0 + 1, answers) == checked_run_steps(
                            prog,
                            s2,
                            m,
                            n0,
                            rest,
                        ));
                    }
                },
                Step::Fault(k) => {
                    assert(checked_run_from(prog, s, ip, fuel, answers) == finish(rest, s, Err(k)));
                    assert(checked_run_steps(prog, s, ip, 0, answers) == Some((s, ip, answers)));
                },
                _ => {},
            }
        }
    }
}

/// Every instruction that a checked run reaches and that passes its operand
/// check names only registers of the machine.
pub open spec fn checked_run_in_registers(
    prog: Seq<Instruction>,
    s: MachineState,
    ip: int,
    fuel: nat,
    answers: Seq<(FloatQuery, u64)>,
) -> bool
    decreases fuel,
{
    if ip < 0 || ip >= prog.len() || fuel == 0 {
        true
    } else {
        let i = prog[ip];
        if match_check(i) is Some {
            true
        } else if !i.registers_ok() {
            false
        } else {
            let asks = consumes_float(i.opcode);
            if !answered(asks, float_query(i, s), answers) {
                true
            } else {
                match step(i, s, ip, answer_of(asks, answers)) {
                    Step::Goto(s2, n) => checked_run_in_registers(
                        prog,
                        s2,
                        n,
                        (fuel - 1) as nat,
                        rest_of(asks, answers),
                    ),
                    _ => true,
                }
            }
        }
    }
}

/// A program whose instructions all name registers of the machine keeps to
/// them on every run.
pub proof fn lemma_registers_ok_in_registers(
    prog: Seq<Instruction>,
    s: MachineState,
    ip: int,
    fuel: nat,
    answers: Seq<(FloatQuery, u64)>,
)
    requires
        registers_ok(prog),
    ensures
        checked_run_in_registers(prog, s, ip, fuel, answers),
    decreases fuel,
{
    if ip < 0 || ip >= prog.len() || fuel == 0 {
    } else {
        let i = prog[ip];
        let asks = consumes_float(i.opcode);
        match step(i, s, ip, answer_of(asks, answers)) {
            Step::Goto(s2, n) => {
                lemma_registers_ok_in_registers(prog, s2, n, (fuel - 1) as nat, rest_of(asks, answers));
            },
            _ => {},
        }
    }
}

/// What each `LOAD*` reads, by the bytes of memory: it succeeds exactly when
/// all its bytes are in memory, and gives them little-endian, zero-extended:
/// one byte for `LOAD8`, two for `LOAD16`, four for `LOAD32`, eight for
/// `LOAD64`.
pub proof fn lemma_load_widths(m: Seq<u8>, a: int)
    ensures
        load_result(OperationCode::LOAD8, m, a) is Some <==> 0 <= a && a + 1 <= m.len(),
        load_result(OperationCode::LOAD8, m, a) matches Some(v) ==> v == m[a],
        load_result(OperationCode::LOAD16, m, a) is Some <==> 0 <= a && a + 2 <= m.len(),
        load_result(OperationCode::LOAD16, m, a) matches Some(v) ==> v == m[a] + 256 * m[a + 1],
        load_result(OperationCode::LOAD32, m, a) is Some <==> 0 <= a && a + 4 <= m.len(),
        load_result(OperationCode::LOAD32, m, a) matches Some(v) ==> v == m[a] + 256 * m[a + 1]
            + 65536 * m[a + 2] + 16777216 * m[a + 3],
        load_result(OperationCode::LOAD64, m, a) is Some <==> 0 <= a && a + 8 <= m.len(),
        load_result(OperationCode::LOAD64, m, a) matches Some(v) ==> v == m[a] + 256 * m[a + 1]
            + 65536 * m[a + 2] + 16777216 * m[a + 3] + 4294967296 * m[a + 4] + 1099511627776 * m[a
            + 5] + 281474976710656 * m[a + 6] + 72057594037927936 * m[a + 7],
{
    lemma_read_values(m, a);
}

/// What each `STORE*` writes: the low bytes of the value, little-endian (byte
/// `k` is the value's digit `k` in base 256): one byte for `STORE8`, two for
/// `STORE16`, four for `STORE32`, eight for `STORE64`.
pub proof fn lemma_store_widths(v: u64)
    ensures
        store_bytes(OperationCode::STORE8, v).len() == 1,
        store_bytes(OperationCode::STORE8, v)[0] == v % 256,
        store_bytes(OperationCode::STORE16, v).len() == 2,
        store_bytes(OperationCode::STORE16, v)[0] == v % 256,
        store_bytes(OperationCode::STORE16, v)[1] == (v / 256) % 256,
        store_bytes(OperationCode::STORE32, v).len() == 4,
        store_bytes(OperationCode::STORE32, v)[0] == v % 256,
        store_bytes(OperationCode::STORE32, v)[1] == (v / 256) % 256,
        store_bytes(OperationCode::STORE32, v)[2] == (v / 65536) % 256,
        store_bytes(OperationCode::STORE32, v)[3] == (v / 16777216) % 256,
        store_bytes(OperationCode::STORE64, v).len() == 8,
        store_bytes(OperationCode::STORE64, v)[0] == v % 256,
        store_bytes(OperationCode::STORE64, v)[1] == (v / 256) % 256,
        store_bytes(OperationCode::STORE64, v)[2] == (v / 65536) % 256,
        store_bytes(OperationCode::STORE64, v)[3] == (v / 16777216) % 256,
        store_bytes(OperationCode::STORE64, v)[4] == (v / 4294967296) % 256,
        store_bytes(OperationCode::STORE64, v)[5] == (v / 1099511627776) % 256,
        store_bytes(OperationCode::STORE64, v)[6] == (v / 281474976710656) % 256,
        store_bytes(OperationCode::STORE64, v)[7] == (v / 72057594037927936) % 256,
{
    lemma_le_bytes(v);
    assert((v as u8) == v % 256) by (bit_vector);
}

/// The integer comparisons give `1` when their relation holds and `0` when
/// it does not. Signed comparisons order two's-complement values, which is
/// the unsigned order of the values with their sign bits flipped.
pub proof fn lemma_comparison_results(l: u64, r: u64)
    ensures
        binary_result(OperationCode::IEQ, l, r) == (if l == r { 1u64 } else { 0u64 }),
        binary_result(OperationCode::INE, l, r) == (if l != r { 1u64 } else { 0u64 }),
        binary_result(OperationCode::ULT, l, r) == (if l < r { 1u64 } else { 0u64 }),
        binary_result(OperationCode::ULE, l, r) == (if l <= r { 1u64 } else { 0u64 }),
        binary_result(OperationCode::UGT, l, r) == (if l > r { 1u64 } else { 0u64 }),
        binary_result(OperationCode::UGE, l, r) == (if l >= r { 1u64 } else { 0u64 }),
        binary_result(OperationCode::SLT, l, r) == (if (l ^ SIGN_BIT) < (r ^ SIGN_BIT) {
            1u64
        } else {
            0u64
        }),
        binary_result(OperationCode::SLE, l, r) == (if (l ^ SIGN_BIT) <= (r ^ SIGN_BIT) {
            1u64
        } else {
            0u64
        }),
        binary_result(OperationCode::SGT, l, r) == (if (l ^ SIGN_BIT) > (r ^ SIGN_BIT) {
            1u64
        } else {
            0u64
        }),
        binary_result(OperationCode::SGE, l, r) == (if (l ^ SIGN_BIT) >= (r ^ SIGN_BIT) {
            1u64
        } else {
            0u64
        }),
        binary_result(OperationCode::SGE, l, r) == 1 - binary_result(OperationCode::SLT, l, r),
        binary_result(OperationCode::SLE, l, r) == 1 - binary_result(OperationCode::SGT, l, r),
        binary_result(OperationCode::SGT, l, r) == binary_result(OperationCode::SLT, r, l),
        binary_result(OperationCode::SGE, l, l) == 1 && binary_result(OperationCode::SLE, l, l) == 1,
        binary_result(OperationCode::SLT, l, l) == 0 && binary_result(OperationCode::SGT, l, l) == 0,
{
    assert(((l as i64) < (r as i64)) == ((l ^ 0x8000_0000_0000_0000u64) < (r ^ 0x8000_0000_0000_0000u64)))
        by (bit_vector);
    assert(((l as i64) <= (r as i64)) == ((l ^ 0x8000_0000_0000_0000u64) <= (r
        ^ 0x8000_0000_0000_0000u64))) by (bit_vector);
    assert(((l as i64) > (r as i64)) == ((l ^ 0x8000_0000_0000_0000u64) > (r ^ 0x8000_0000_0000_0000u64)))
        by (bit_vector);
    assert(((l as i64) >= (r as i64)) == ((l ^ 0x8000_0000_0000_0000u64) >= (r
        ^ 0x8000_0000_0000_0000u64))) by (bit_vector);
    assert(((r as i64) < (l as i64)) == ((l as i64) > (r as i64))) by (bit_vector);
}

/// The integer operations compute modulo 2^64: `IADD`, `ISUB` and `IMUL` give
/// the remainder of the sum, difference and product; `UDIV` and `UREM` the
/// quotient and remainder; `INEG` the negation, `NOT` the complement, and
/// `FNEG` flips the sign bit (adds 2^63). `AND`, `OR` and `XOR` keep a value
/// under their identities.
pub proof fn lemma_arithmetic_results(l: u64, r: u64)
    ensures
        binary_result(OperationCode::IADD, l, r) == (l + r) % 0x1_0000_0000_0000_0000,
        binary_result(OperationCode::ISUB, l, r) == (l - r) % 0x1_0000_0000_0000_0000,
        binary_result(OperationCode::IMUL, l, r) == (l * r) % 0x1_0000_0000_0000_0000,
        r != 0 ==> binary_result(OperationCode::UDIV, l, r) == l / r,
        r != 0 ==> binary_result(OperationCode::UREM, l, r) == l % r,
        binary_result(OperationCode::AND, l, 0xffff_ffff_ffff_ffff) == l,
        binary_result(OperationCode::AND, l, 0) == 0,
        binary_result(OperationCode::OR, l, 0) == l,
        binary_result(OperationCode::OR, l, 0xffff_ffff_ffff_ffff) == 0xffff_ffff_ffff_ffffu64,
        binary_result(OperationCode::XOR, l, l) == 0,
        binary_result(OperationCode::XOR, l, 0) == l,
        unary_result(OperationCode::INEG, l) == (0 - l) % 0x1_0000_0000_0000_0000,
        unary_result(OperationCode::NOT, l) == 0xffff_ffff_ffff_ffff - l,
        unary_result(OperationCode::FNEG, l) == (l + 0x8000_0000_0000_0000) % 0x1_0000_0000_0000_0000,
{
    assert(l & 0xffff_ffff_ffff_ffffu64 == l && l & 0u64 == 0 && l | 0u64 == l && l
        | 0xffff_ffff_ffff_ffffu64 == 0xffff_ffff_ffff_ffffu64 && l ^ l == 0 && l ^ 0u64 == l)
        by (bit_vector);
    assert(!l == 0xffff_ffff_ffff_ffffu64 - l) by (bit_vector);
    assert(l ^ 0x8000_0000_0000_0000u64 == (if l >= 0x8000_0000_0000_0000u64 {
        l - 0x8000_0000_0000_0000u64
    } else {
        l + 0x8000_0000_0000_0000u64
    })) by (bit_vector);
}

/// Where each control instruction continues, and what it does to the state:
/// `NOP` goes to the next instruction, `EXIT` stops, `JMP` goes to its
/// operand, `JZ` / `JNZ` go to their second operand exactly when the first is
/// zero / non-zero (one of the two always jumps where the other does not),
/// `CALL` saves the next index and goes to its operand, `RET` goes back to the
/// last saved index or fails on an empty stack. Division by zero fails.
pub proof fn lemma_control_flow(i: Instruction, s: MachineState, ip: int, fl: u64)
    ensures
        i.opcode is NOP ==> step(i, s, ip, fl) == Step::Goto(s, ip + 1),
        i.opcode is EXIT ==> step(i, s, ip, fl) == Step::Halt(s),
        i.opcode is JMP ==> step(i, s, ip, fl) == Step::Goto(
            s,
            (value_of(s.registers, i.operand1) as usize) as int,
        ),
        i.opcode is JZ ==> step(i, s, ip, fl) == Step::Goto(
            s,
            if value_of(s.registers, i.operand1) == 0 {
                (value_of(s.registers, i.operand2) as usize) as int
            } else {
                ip + 1
            },
        ),
        i.opcode is JNZ ==> step(i, s, ip, fl) == Step::Goto(
            s,
            if value_of(s.registers, i.operand1) == 0 {
                ip + 1
            } else {
                (value_of(s.registers, i.operand2) as usize) as int
            },
        ),
        i.opcode is CALL ==> (step(i, s, ip, fl) matches Step::Goto(s2, n) && n == (value_of(
            s.registers,
            i.operand1,
        ) as usize) as int && s2.call_stack == s.call_stack.push((ip + 1) as usize)
            && s2.registers == s.registers && s2.memory == s.memory),
        i.opcode is RET && s.call_stack.len() == 0 ==> step(i, s, ip, fl) == Step::Fault(
            VMErrorKind::EmptyCallStack,
        ),
        i.opcode is RET && s.call_stack.len() > 0 ==> (step(i, s, ip, fl) matches Step::Goto(s2, n)
            && n == s.call_stack[s.call_stack.len() - 1] && s2.call_stack == s.call_stack.subrange(
            0,
            s.call_stack.len() - 1,
        ) && s2.registers == s.registers && s2.memory == s.memory),
        (i.opcode is SDIV || i.opcode is UDIV || i.opcode is SREM || i.opcode is UREM)
            && value_of(s.registers, i.operand3) == 0 ==> step(i, s, ip, fl) == Step::Fault(
            VMErrorKind::DivisionByZero,
        ),
{
}

/// What the data instructions change: `MOVE` writes its source's value to its
/// destination register and nothing else; a successful `STORE*` leaves the
/// registers and the call stack alone and keeps the memory's size.
pub proof fn lemma_data_effects(i: Instruction, s: MachineState, ip: int, fl: u64)
    ensures
        i.opcode is MOVE ==> step(i, s, ip, fl) == Step::Goto(
            MachineState {
                registers: s.registers.update(dst_of(i), value_of(s.registers, i.operand2)),
                memory: s.memory,
                call_stack: s.call_stack,
            },
            ip + 1,
        ),
        (i.opcode is STORE8 || i.opcode is STORE16 || i.opcode is STORE32 || i.opcode is STORE64)
            ==> (step(i, s, ip, fl) matches Step::Goto(s2, n) ==> n == ip + 1 && s2.registers
            == s.registers && s2.call_stack == s.call_stack && s2.memory.len() == s.memory.len()),
{
    if i.opcode is STORE8 || i.opcode is STORE16 || i.opcode is STORE32 || i.opcode is STORE64 {
        let v1 = value_of(s.registers, i.operand1);
        let v2 = value_of(s.registers, i.operand2);
        lemma_write_bytes(s.memory, (v1 as usize) as int, store_bytes(i.opcode, v2));
    }
}

} // verus!
