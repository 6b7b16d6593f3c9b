//! The two executors agree.
//!
//! [`NVM::run`](crate::vm::NVM::run) checks every instruction once, when it
//! encodes the program; [`NVM::match_execute`](crate::vm::NVM::match_execute)
//! checks each instruction when it reaches it. On a program that passes the
//! encoding and whose instructions have their operands first (as every loaded
//! program does), the checks of the second never fail, and both compute the
//! same run for every sequence of floating-point answers; with a unit that
//! answers each question one way, both end in the same state with the same
//! result.
use vstd::prelude::*;

use crate::isa::instruction::Instruction;
use crate::isa::operand::{Operand, OperandKind};
use crate::vm::executer::{encode_error, first_encode_error, lemma_no_encode_error};
use crate::vm::semantics::{
    aligned, answer_of, answered, checked_run_from, checked_step, consumes_float, float_query,
    match_check, rest_of, run_from, step, MachineState, Step,
};
use crate::vm::{answered_by, deterministic, FloatQuery};

verus! {

/// An instruction that passes the encoding and has its operands first passes
/// the operand check of the decoding executor.
pub proof fn lemma_check_passes(i: Instruction)
    requires
        encode_error(i) is None,
        i.is_aligned(),
    ensures
        match_check(i) is None,
{
}

/// The executors agree: on a program that passes the encoding and whose
/// instructions have their operands first, running with a check of each
/// instruction when it is reached gives what running the encoded program
/// gives, from every state and instruction index, for every budget and every
/// sequence of floating-point questions and answers.
pub proof fn lemma_executors_agree(
    prog: Seq<Instruction>,
    s: MachineState,
    ip: int,
    fuel: nat,
    answers: Seq<(FloatQuery, u64)>,
)
    requires
        first_encode_error(prog) is None,
        aligned(prog),
    ensures
        checked_run_from(prog, s, ip, fuel, answers) == run_from(prog, s, ip, fuel, answers),
    decreases fuel,
{
    if ip < 0 || ip >= prog.len() || fuel == 0 {
    } else {
        let i = prog[ip];
        lemma_no_encode_error(prog, 0, ip);
        lemma_check_passes(i);
        let asks = consumes_float(i.opcode);
        let fl = answer_of(asks, answers);
        assert(checked_step(i, s, ip, fl) == step(i, s, ip, fl));
        if answered(asks, float_query(i, s), answers) {
            match step(i, s, ip, fl) {
                Step::Goto(s2, n) => {
                    lemma_executors_agree(prog, s2, n, (fuel - 1) as nat, rest_of(asks, answers));
                },
                _ => {},
            }
        }
    }
}

/// A unit that gives one answer to each question gives the same answers
/// along a run: two answer sequences from it that both complete the run are
/// the same sequence.
pub proof fn lemma_same_answers<F: Fn(FloatQuery) -> u64>(
    prog: Seq<Instruction>,
    s: MachineState,
    ip: int,
    fuel: nat,
    unit: F,
    a: Seq<(FloatQuery, u64)>,
    b: Seq<(FloatQuery, u64)>,
)
    requires
        deterministic(unit),
        answered_by(unit, a),
        answered_by(unit, b),
        run_from(prog, s, ip, fuel, a) is Some,
        run_from(prog, s, ip, fuel, b) is Some,
    ensures
        a == b,
    decreases fuel,
{
    if ip < 0 || ip >= prog.len() || fuel == 0 {
        assert(a =~= b);
    } else {
        let i = prog[ip];
        let asks = consumes_float(i.opcode);
        if asks {
            assert(call_ensures(unit, (a[0].0,), a[0].1));
            assert(call_ensures(unit, (b[0].0,), b[0].1));
            assert(a[0] == b[0]);
        }
        let fl = answer_of(asks, a);
        assert(answer_of(asks, b) == fl);
        let ra = rest_of(asks, a);
        let rb = rest_of(asks, b);
        assert forall|j: int| 0 <= j < ra.len() implies call_ensures(unit, (#[trigger] ra[j].0,), ra[j].1) by {
            if asks {
                assert(ra[j] == a[j + 1]);
            }
        }
        assert forall|j: int| 0 <= j < rb.len() implies call_ensures(unit, (#[trigger] rb[j].0,), rb[j].1) by {
            if asks {
                assert(rb[j] == b[j + 1]);
            }
        }
        match step(i, s, ip, fl) {
            Step::Goto(s2, n) => {
                lemma_same_answers(prog, s2, n, (fuel - 1) as nat, unit, ra, rb);
            },
            _ => {
                assert(ra =~= rb);
            },
        }
        if asks {
            assert(a =~= seq![a[0]] + ra);
            assert(b =~= seq![b[0]] + rb);
        } else {
            assert(a =~= b);
        }
    }
}

/// With a unit that gives one answer to each question, the two executors
/// agree on every program that passes the encoding and has its operands
/// first: the runs they complete with that unit's answers end in the same
/// state with the same result.
pub proof fn lemma_executors_agree_on_unit<F: Fn(FloatQuery) -> u64>(
    prog: Seq<Instruction>,
    s: MachineState,
    fuel: nat,
    unit: F,
    a: Seq<(FloatQuery, u64)>,
    b: Seq<(FloatQuery, u64)>,
)
    requires
        first_encode_error(prog) is None,
        aligned(prog),
        deterministic(unit),
        answered_by(unit, a),
        answered_by(unit, b),
        checked_run_from(prog, s, 0, fuel, a) is Some,
        run_from(prog, s, 0, fuel, b) is Some,
    ensures
        checked_run_from(prog, s, 0, fuel, a) == run_from(prog, s, 0, fuel, b),
{
    lemma_executors_agree(prog, s, 0, fuel, a);
    lemma_same_answers(prog, s, 0, fuel, unit, a, b);
}

/// Encoding accepts exactly the instructions that the decoding executor's
/// operand check accepts, for instructions with their operands first other
/// than `NOP` and `EXIT` (which the decoding executor does not check).
pub proof fn lemma_encoding_matches_check(i: Instruction)
    requires
        i.is_aligned(),
        !(i.opcode is NOP),
        !(i.opcode is EXIT),
    ensures
        encode_error(i) is None <==> match_check(i) is None,
{
}

/// The operand forms of the instruction set, as documented for each opcode:
/// three operands with a register destination for the arithmetic, bitwise
/// and comparison opcodes; two with a register destination for `MOVE`,
/// `LOAD*`, `INEG`, `FNEG` and `NOT`; two for `STORE*`, `JZ` and `JNZ`; one
/// for `JMP` and `CALL`; none for `NOP`, `EXIT` and `RET`. Both executors
/// accept every instruction of its opcode's form.
pub proof fn lemma_operand_forms(i: Instruction)
    ensures
        (i.opcode is IADD || i.opcode is ISUB || i.opcode is IMUL || i.opcode is SDIV || i.opcode is UDIV || i.opcode is SREM || i.opcode is UREM || i.opcode is FADD || i.opcode is FSUB || i.opcode is FMUL || i.opcode is FDIV || i.opcode is FREM || i.opcode is AND || i.opcode is OR || i.opcode is XOR || i.opcode is SHL || i.opcode is SHR || i.opcode is SAR || i.opcode is IEQ || i.opcode is INE || i.opcode is SLT || i.opcode is SLE || i.opcode is SGT || i.opcode is SGE || i.opcode is ULT || i.opcode is ULE || i.opcode is UGT || i.opcode is UGE || i.opcode is FEQ || i.opcode is FNE || i.opcode is FLT || i.opcode is FLE || i.opcode is FGT || i.opcode is FGE) && (i.operand1 matches Some(Operand { kind: OperandKind::Register(_) })) && i.operand2 is Some && i.operand3 is Some ==> encode_error(i) is None
            && match_check(i) is None,
        (i.opcode is MOVE || i.opcode is LOAD8 || i.opcode is LOAD16 || i.opcode is LOAD32 || i.opcode is LOAD64 || i.opcode is INEG || i.opcode is FNEG || i.opcode is NOT) && (i.operand1 matches Some(Operand { kind: OperandKind::Register(_) })) && i.operand2 is Some && i.operand3 is None ==> encode_error(i) is None
            && match_check(i) is None,
        (i.opcode is STORE8 || i.opcode is STORE16 || i.opcode is STORE32 || i.opcode is STORE64 || i.opcode is JZ || i.opcode is JNZ) && i.operand1 is Some && i.operand2 is Some && i.operand3 is None ==> encode_error(i)
            is None && match_check(i) is None,
        (i.opcode is JMP || i.opcode is CALL) && i.operand1 is Some && i.operand2 is None && i.operand3 is None ==> encode_error(i)
            is None && match_check(i) is None,
        (i.opcode is NOP || i.opcode is EXIT || i.opcode is RET) && i.operand1 is None && i.operand2 is None && i.operand3 is None ==> encode_error(i)
            is None && match_check(i) is None,
{
}

} // verus!
