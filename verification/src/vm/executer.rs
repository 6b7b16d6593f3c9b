//! The direct-threaded executor.
//!
//! The program is encoded once: every instruction becomes a record of its
//! handler, chosen from a jump table by the opcode and by which operands are
//! registers, and of its operands flattened to numbers (a register to its
//! number, an immediate to its value, a missing operand to `0`). The operand
//! count and the destination types are checked at encoding, before anything
//! runs; the loop then only calls handlers.
use vstd::prelude::*;

use crate::isa::instruction::Instruction;
use crate::isa::opcode::{OperationCode, OPCODE_COUNT};
use crate::isa::operand::{Operand, OperandKind};
use crate::isa::register::{Register, REGISTER_COUNT};
use crate::vm::err::{VMError, VMErrorKind};
use crate::vm::memory::write_bytes;
use crate::vm::semantics::{
    aligned, answer_of, answered, binary_result, consumes_float, finish, float_arith_spec,
    float_comparison_spec, float_free, float_query, is_division, is_float_arith,
    is_float_comparison, is_int_binary, is_unary,
    lemma_float_free_run, load_result, outcome, registers_ok, rest_of, run_from, step,
    step_matches, store_bytes, unary_result, value_of, Flow, MachineState, Step, SIGN_BIT,
    STEP_LIMIT,
};
use crate::vm::{answered_by, always_answers, FloatArith, FloatComparison, FloatQuery, NVM};

verus! {

/// The number of entries of the jump table: eight operand signatures per opcode.
pub const TABLE_LEN: usize = 424;

/// The expected operand count of an opcode, and whether its first operand
/// must be a register (the destination).
pub open spec fn pattern_of(op: OperationCode) -> (u8, bool) {
    match op {
        OperationCode::NOP | OperationCode::EXIT | OperationCode::RET => (0, false),
        OperationCode::JMP | OperationCode::CALL => (1, false),
        OperationCode::JZ | OperationCode::JNZ => (2, false),
        OperationCode::MOVE | OperationCode::LOAD8 | OperationCode::LOAD16 | OperationCode::LOAD32
        | OperationCode::LOAD64 => (2, true),
        OperationCode::STORE8 | OperationCode::STORE16 | OperationCode::STORE32
        | OperationCode::STORE64 => (2, false),
        OperationCode::INEG | OperationCode::FNEG | OperationCode::NOT => (2, true),
        _ => (3, true),
    }
}

/// The operand is present and is a register.
pub open spec fn is_register_operand(o: Option<Operand>) -> bool {
    o matches Some(Operand { kind: OperandKind::Register(_) })
}

/// The kind of an operand, with a missing one reported as the immediate `0`.
pub open spec fn kind_or_zero(o: Option<Operand>) -> OperandKind {
    match o {
        Some(x) => x.kind,
        None => OperandKind::Immediate(0),
    }
}

/// The error that encoding reports for instruction `i`, if any.
pub open spec fn encode_error(i: Instruction) -> Option<VMErrorKind> {
    let (expected, needs_register) = pattern_of(i.opcode);
    if i.count_of() != expected {
        Some(VMErrorKind::IncorrectNumberOfOperands { expected, got: i.count_of() as u8 })
    } else if needs_register && !is_register_operand(i.operand1) {
        Some(
            VMErrorKind::IncorrectTypeOfOperand {
                expected: OperandKind::Register(Register(0)),
                got: kind_or_zero(i.operand1),
            },
        )
    } else {
        None
    }
}

/// The first encoding error among the instructions of `prog` from index `j`.
pub open spec fn first_error_from(prog: Seq<Instruction>, j: int) -> Option<VMErrorKind>
    decreases prog.len() - j,
{
    if j < 0 || j >= prog.len() {
        None
    } else {
        match encode_error(prog[j]) {
            Some(e) => Some(e),
            None => first_error_from(prog, j + 1),
        }
    }
}

/// The first encoding error of `prog`, if any.
pub open spec fn first_encode_error(prog: Seq<Instruction>) -> Option<VMErrorKind> {
    first_error_from(prog, 0)
}

/// The shape of the handler of an instruction: what it does with its operands.
#[derive(Debug, Clone, Copy)]
pub enum Handler {
    /// A signature that no instruction that passes encoding has.
    Invalid,
    Nop,
    Exit,
    Move,
    Load,
    Store,
    Binary,
    Division,
    Unary,
    FloatArith,
    FloatComparison,
    Jump,
    Branch,
    Call,
    Ret,
}

/// The handler shape of an opcode.
pub open spec fn shape_of(op: OperationCode) -> Handler {
    match op {
        OperationCode::NOP => Handler::Nop,
        OperationCode::EXIT => Handler::Exit,
        OperationCode::RET => Handler::Ret,
        OperationCode::MOVE => Handler::Move,
        OperationCode::LOAD8 | OperationCode::LOAD16 | OperationCode::LOAD32
        | OperationCode::LOAD64 => Handler::Load,
        OperationCode::STORE8 | OperationCode::STORE16 | OperationCode::STORE32
        | OperationCode::STORE64 => Handler::Store,
        OperationCode::INEG | OperationCode::FNEG | OperationCode::NOT => Handler::Unary,
        OperationCode::JMP => Handler::Jump,
        OperationCode::CALL => Handler::Call,
        OperationCode::JZ | OperationCode::JNZ => Handler::Branch,
        op => if is_float_arith(op) {
            Handler::FloatArith
        } else if is_float_comparison(op) {
            Handler::FloatComparison
        } else if is_division(op) {
            Handler::Division
        } else {
            Handler::Binary
        },
    }
}

/// The jump-table entry for opcode `op` and operand signature `k` (bit `n` of
/// `k` set when operand `n + 1` is a register). Only the signatures whose
/// destination is a register, with the opcode's operand count, have a handler.
pub open spec fn handler_spec(op: OperationCode, k: nat) -> Handler {
    let (count, needs_register) = pattern_of(op);
    let fits = if count == 0 {
        k == 0
    } else if count == 1 {
        k < 2
    } else if count == 2 {
        k < 4
    } else {
        k < 8
    };
    if fits && (needs_register ==> k % 2 == 1) {
        shape_of(op)
    } else {
        Handler::Invalid
    }
}

/// `1` if the operand is a register, `0` if not.
pub open spec fn register_bit(o: Option<Operand>) -> nat {
    if is_register_operand(o) {
        1
    } else {
        0
    }
}

/// The operand signature of an instruction.
pub open spec fn kinds_of(i: Instruction) -> nat {
    register_bit(i.operand1) + 2 * register_bit(i.operand2) + 4 * register_bit(i.operand3)
}

/// An operand flattened to a number.
pub open spec fn flat(o: Option<Operand>) -> u64 {
    match o {
        Some(Operand { kind: OperandKind::Register(r) }) => r.0 as u64,
        Some(Operand { kind: OperandKind::Immediate(v) }) => v,
        None => 0,
    }
}

/// An encoded instruction.
#[derive(Debug, Clone, Copy)]
pub struct Encoded {
    pub handler: Handler,
    pub opcode: OperationCode,
    pub reg1: bool,
    pub reg2: bool,
    pub reg3: bool,
    pub slot1: u64,
    pub slot2: u64,
    pub slot3: u64,
}

/// The encoding of instruction `i`.
pub open spec fn encoded_of(i: Instruction) -> Encoded {
    Encoded {
        handler: handler_spec(i.opcode, kinds_of(i)),
        opcode: i.opcode,
        reg1: is_register_operand(i.operand1),
        reg2: is_register_operand(i.operand2),
        reg3: is_register_operand(i.operand3),
        slot1: flat(i.operand1),
        slot2: flat(i.operand2),
        slot3: flat(i.operand3),
    }
}

/// The jump table has a real handler for the instruction's operand signature.
pub open spec fn has_handler(i: Instruction) -> bool {
    handler_spec(i.opcode, kinds_of(i)) != Handler::Invalid
}

/// An instruction that passes encoding and has a real handler gets the
/// handler of its opcode.
pub proof fn lemma_valid_handler(i: Instruction)
    requires
        has_handler(i),
    ensures
        handler_spec(i.opcode, kinds_of(i)) == shape_of(i.opcode),
{
}

/// Every instruction that a run reaches names only registers of the machine
/// and has a real handler in the jump table.
pub open spec fn run_in_bounds(
    prog: Seq<Instruction>,
    s: MachineState,
    ip: int,
    fuel: nat,
    answers: Seq<(FloatQuery, u64)>,
) -> bool
    decreases fuel,
{
    if ip < 0 || ip >= prog.len() || fuel == 0 {
        true
    } else {
        let i = prog[ip];
        if !(i.registers_ok() && has_handler(i)) {
            false
        } else {
            let asks = consumes_float(i.opcode);
            if !answered(asks, float_query(i, s), answers) {
                true
            } else {
                match step(i, s, ip, answer_of(asks, answers)) {
                    Step::Goto(s2, n) => run_in_bounds(prog, s2, n, (fuel - 1) as nat, rest_of(asks, answers)),
                    _ => true,
                }
            }
        }
    }
}

/// A program that passes encoding and whose instructions all name registers
/// of the machine and have their operands first keeps in bounds on every
/// run.
pub proof fn lemma_program_in_bounds(
    prog: Seq<Instruction>,
    s: MachineState,
    ip: int,
    fuel: nat,
    answers: Seq<(FloatQuery, u64)>,
)
    requires
        first_encode_error(prog) is None,
        registers_ok(prog),
        aligned(prog),
    ensures
        run_in_bounds(prog, s, ip, fuel, answers),
    decreases fuel,
{
    if ip < 0 || ip >= prog.len() || fuel == 0 {
    } else {
        let i = prog[ip];
        lemma_no_encode_error(prog, 0, ip);
        lemma_encoded_handler(i);
        let asks = consumes_float(i.opcode);
        match step(i, s, ip, answer_of(asks, answers)) {
            Step::Goto(s2, n) => {
                lemma_program_in_bounds(prog, s2, n, (fuel - 1) as nat, rest_of(asks, answers));
            },
            _ => {},
        }
    }
}

/// An instruction that passes encoding and has its operands first gets the
/// handler of its opcode.
pub proof fn lemma_encoded_handler(i: Instruction)
    requires
        encode_error(i) is None,
        i.is_aligned(),
    ensures
        handler_spec(i.opcode, kinds_of(i)) == shape_of(i.opcode),
{
}

/// The number of operand signatures of `count` operands: one register bit per
/// operand.
pub open spec fn signature_count(count: u8) -> nat {
    if count == 0 {
        1
    } else if count == 1 {
        2
    } else if count == 2 {
        4
    } else {
        8
    }
}

/// The jump table's entries are real handlers exactly for the signatures that
/// encoding accepts: no register bit beyond the opcode's operand count, and
/// the destination's bit set where the opcode has a destination. A real
/// entry is the handler of its opcode, and no opcode's handler is the
/// invalid one; so every instruction that passes encoding is dispatched to a
/// real handler ([`lemma_encoded_handler`]).
pub proof fn lemma_jump_table_entries(op: OperationCode, k: nat)
    requires
        k < 8,
    ensures
        (handler_spec(op, k) != Handler::Invalid) <==> (k < signature_count(pattern_of(op).0) && (
        pattern_of(op).1 ==> k % 2 == 1)),
        handler_spec(op, k) != Handler::Invalid ==> handler_spec(op, k) == shape_of(op),
        shape_of(op) != Handler::Invalid,
{
}

/// The expected operand count of `op`, and whether its first operand must be
/// a register.
fn operand_pattern(op: OperationCode) -> (r: (u8, bool))
    ensures
        r == pattern_of(op),
{
    match op {
        OperationCode::NOP | OperationCode::EXIT | OperationCode::RET => (0, false),
        OperationCode::JMP | OperationCode::CALL => (1, false),
        OperationCode::JZ | OperationCode::JNZ => (2, false),
        OperationCode::MOVE | OperationCode::LOAD8 | OperationCode::LOAD16 | OperationCode::LOAD32
        | OperationCode::LOAD64 => (2, true),
        OperationCode::STORE8 | OperationCode::STORE16 | OperationCode::STORE32
        | OperationCode::STORE64 => (2, false),
        OperationCode::INEG | OperationCode::FNEG | OperationCode::NOT => (2, true),
        _ => (3, true),
    }
}

/// Whether the operand is present and a register.
fn is_register(operand: &Option<Operand>) -> (b: bool)
    ensures
        b == is_register_operand(*operand),
{
    matches!(operand, Some(Operand { kind: OperandKind::Register(_) }))
}

/// Flattens an operand to a number.
fn flatten(operand: Option<Operand>) -> (v: u64)
    ensures
        v == flat(operand),
{
    match operand {
        Some(Operand { kind: OperandKind::Register(r) }) => r.0 as u64,
        Some(Operand { kind: OperandKind::Immediate(v) }) => v,
        None => 0,
    }
}

/// The handler shape of `op`.
fn shape(op: OperationCode) -> (h: Handler)
    ensures
        h == shape_of(op),
{
    match op {
        OperationCode::NOP => Handler::Nop,
        OperationCode::EXIT => Handler::Exit,
        OperationCode::RET => Handler::Ret,
        OperationCode::MOVE => Handler::Move,
        OperationCode::LOAD8 | OperationCode::LOAD16 | OperationCode::LOAD32
        | OperationCode::LOAD64 => Handler::Load,
        OperationCode::STORE8 | OperationCode::STORE16 | OperationCode::STORE32
        | OperationCode::STORE64 => Handler::Store,
        OperationCode::INEG | OperationCode::FNEG | OperationCode::NOT => Handler::Unary,
        OperationCode::JMP => Handler::Jump,
        OperationCode::CALL => Handler::Call,
        OperationCode::JZ | OperationCode::JNZ => Handler::Branch,
        OperationCode::FADD | OperationCode::FSUB | OperationCode::FMUL | OperationCode::FDIV
        | OperationCode::FREM => Handler::FloatArith,
        OperationCode::FEQ | OperationCode::FNE | OperationCode::FLT | OperationCode::FLE
        | OperationCode::FGT | OperationCode::FGE => Handler::FloatComparison,
        OperationCode::SDIV | OperationCode::UDIV | OperationCode::SREM
        | OperationCode::UREM => Handler::Division,
        _ => Handler::Binary,
    }
}

/// The jump-table entry of opcode `op` and operand signature `k`.
fn signature_handler(op: OperationCode, k: usize) -> (h: Handler)
    requires
        k < 8,
    ensures
        h == handler_spec(op, k as nat),
{
    let (count, needs_register) = operand_pattern(op);
    let fits = if count == 0 {
        k == 0
    } else if count == 1 {
        k < 2
    } else if count == 2 {
        k < 4
    } else {
        k < 8
    };
    if fits && (!needs_register || k % 2 == 1) {
        shape(op)
    } else {
        Handler::Invalid
    }
}

/// Builds the jump table: entry `opcode * 8 + signature` is the handler of
/// that opcode for that operand signature, or [`Handler::Invalid`].
pub fn build_jump_table() -> (table: Vec<Handler>)
    ensures
        table@.len() == TABLE_LEN,
        forall|b: int, k: int|
            0 <= b < OPCODE_COUNT && 0 <= k < 8 ==> #[trigger] table@[b * 8 + k] == handler_spec(
                OperationCode::of_byte(b as u8).unwrap(),
                k as nat,
            ),
{
    let mut table: Vec<Handler> = Vec::new();
    let mut b: u8 = 0;
    while b < OPCODE_COUNT
        invariant
            b <= OPCODE_COUNT,
            table@.len() == b * 8,
            forall|b2: int, k: int|
                0 <= b2 < b && 0 <= k < 8 ==> #[trigger] table@[b2 * 8 + k] == handler_spec(
                    OperationCode::of_byte(b2 as u8).unwrap(),
                    k as nat,
                ),
        decreases OPCODE_COUNT - b,
    {
        let op = OperationCode::from_byte(b).unwrap();
        let mut k: usize = 0;
        while k < 8
            invariant
                b < OPCODE_COUNT,
                op == OperationCode::of_byte(b).unwrap(),
                k <= 8,
                table@.len() == b * 8 + k,
                forall|b2: int, k2: int|
                    0 <= b2 < b && 0 <= k2 < 8 ==> #[trigger] table@[b2 * 8 + k2] == handler_spec(
                        OperationCode::of_byte(b2 as u8).unwrap(),
                        k2 as nat,
                    ),
                forall|k2: int|
                    0 <= k2 < k ==> #[trigger] table@[b * 8 + k2] == handler_spec(op, k2 as nat),
            decreases 8 - k,
        {
            table.push(signature_handler(op, k));
            k = k + 1;
        }
        b = b + 1;
    }
    table
}

/// Encodes `program`, checking every instruction's operand count and
/// destination type; the first failing instruction gives the error.
fn encode(program: &Vec<Instruction>) -> (r: Result<Vec<Encoded>, VMError>)
    ensures
        match first_encode_error(program@) {
            Some(e) => r == Err::<Vec<Encoded>, VMError>(VMError { kind: e }),
            None => r matches Ok(code) && code@.len() == program@.len() && forall|j: int|
                0 <= j < program@.len() ==> #[trigger] code@[j] == encoded_of(program@[j]),
        },
{
    let table = build_jump_table();
    let mut code: Vec<Encoded> = Vec::new();
    let mut j: usize = 0;
    while j < program.len()
        invariant
            j <= program@.len(),
            table@.len() == TABLE_LEN,
            forall|b: int, k: int|
                0 <= b < OPCODE_COUNT && 0 <= k < 8 ==> #[trigger] table@[b * 8 + k] == handler_spec(
                    OperationCode::of_byte(b as u8).unwrap(),
                    k as nat,
                ),
            first_encode_error(program@) == first_error_from(program@, j as int),
            code@.len() == j,
            forall|j2: int| 0 <= j2 < j ==> #[trigger] code@[j2] == encoded_of(program@[j2]),
        decreases program@.len() - j,
    {
        let instr = program[j];
        let count = instr.operand_count();
        let (expected, needs_register) = operand_pattern(instr.opcode);
        if count != expected as usize {
            return Err(
                VMError::new(
                    VMErrorKind::IncorrectNumberOfOperands { expected, got: count as u8 },
                ),
            );
        }
        if needs_register && !is_register(&instr.operand1) {
            let got = match instr.operand1 {
                Some(o) => o.kind,
                None => OperandKind::Immediate(0),
            };
            return Err(
                VMError::new(
                    VMErrorKind::IncorrectTypeOfOperand {
                        expected: OperandKind::Register(Register(0)),
                        got,
                    },
                ),
            );
        }
        let r1 = is_register(&instr.operand1);
        let r2 = is_register(&instr.operand2);
        let r3 = is_register(&instr.operand3);
        let kinds: usize = (if r1 { 1 } else { 0 }) + (if r2 { 2 } else { 0 }) + (if r3 { 4 } else { 0 });
        let b = instr.opcode.to_byte();
        proof {
            OperationCode::lemma_byte_roundtrip(instr.opcode);
            assert(kinds as nat == kinds_of(instr));
            assert(table@[b * 8 + kinds] == handler_spec(instr.opcode, kinds as nat));
        }
        let handler = table[b as usize * 8 + kinds];
        code.push(
            Encoded {
                handler,
                opcode: instr.opcode,
                reg1: r1,
                reg2: r2,
                reg3: r3,
                slot1: flatten(instr.operand1),
                slot2: flatten(instr.operand2),
                slot3: flatten(instr.operand3),
            },
        );
        j = j + 1;
    }
    Ok(code)
}

/// No instruction from index `j` on fails encoding when the first failure
/// from `j` is none.
pub proof fn lemma_no_encode_error(prog: Seq<Instruction>, j: int, k: int)
    requires
        0 <= j <= k < prog.len(),
        first_error_from(prog, j) is None,
    ensures
        encode_error(prog[k]) is None,
    decreases k - j,
{
    if j < k {
        lemma_no_encode_error(prog, j + 1, k);
    }
}

/// Reading a flattened operand gives the operand's value.
proof fn lemma_flat_value(regs: Seq<u64>, o: Option<Operand>)
    requires
        regs.len() == REGISTER_COUNT,
        crate::isa::instruction::operand_register_ok(o),
    ensures
        is_register_operand(o) ==> flat(o) < REGISTER_COUNT,
        (if is_register_operand(o) {
            regs[flat(o) as int]
        } else {
            flat(o)
        }) == value_of(regs, o),
{
}

/// `rest` preceded by `a` when an answer was taken.
pub open spec fn answers_before(
    taken: bool,
    a: (FloatQuery, u64),
    rest: Seq<(FloatQuery, u64)>,
) -> Seq<(FloatQuery, u64)> {
    if taken {
        seq![a] + rest
    } else {
        rest
    }
}

/// The answers taken so far, after one more instruction.
pub open spec fn answers_after(
    log: Seq<(FloatQuery, u64)>,
    taken: bool,
    a: (FloatQuery, u64),
) -> Seq<(FloatQuery, u64)> {
    if taken {
        log.push(a)
    } else {
        log
    }
}

/// The run from `s0` at the start, after the answers `log`, continues as the
/// run from `s` at `ip` with `fuel` left.
pub open spec fn run_continues(
    prog: Seq<Instruction>,
    s0: MachineState,
    log: Seq<(FloatQuery, u64)>,
    s: MachineState,
    ip: int,
    fuel: nat,
) -> bool {
    forall|rest: Seq<(FloatQuery, u64)>|
        run_from(prog, s0, 0, STEP_LIMIT as nat, log + rest) == #[trigger] run_from(
            prog,
            s,
            ip,
            fuel,
            rest,
        )
}

/// One instruction of a continued run: with the answer `fl` to its question
/// (when it asks one) logged, the run continues as [`step`] says.
proof fn lemma_run_step(
    prog: Seq<Instruction>,
    s0: MachineState,
    log: Seq<(FloatQuery, u64)>,
    s1: MachineState,
    ip: int,
    fuel: nat,
    fl: u64,
)
    requires
        fuel > 0,
        0 <= ip < prog.len(),
        run_continues(prog, s0, log, s1, ip, fuel),
    ensures
        forall|rest: Seq<(FloatQuery, u64)>|
            run_from(
                prog,
                s0,
                0,
                STEP_LIMIT as nat,
                #[trigger] (answers_after(
                    log,
                    consumes_float(prog[ip].opcode),
                    (float_query(prog[ip], s1), fl),
                ) + rest),
            ) == match step(prog[ip], s1, ip, if consumes_float(prog[ip].opcode) { fl } else { 0 }) {
                Step::Halt(s2) => finish(rest, s2, Ok(())),
                Step::Fault(k) => finish(rest, s1, Err(k)),
                Step::Goto(s2, n) => run_from(prog, s2, n, (fuel - 1) as nat, rest),
            },
{
    let i = prog[ip];
    let c = consumes_float(i.opcode);
    let a = (float_query(i, s1), fl);
    assert forall|rest: Seq<(FloatQuery, u64)>|
        run_from(prog, s0, 0, STEP_LIMIT as nat, #[trigger] (answers_after(log, c, a) + rest))
            == match step(i, s1, ip, if c { fl } else { 0 }) {
            Step::Halt(s2) => finish(rest, s2, Ok(())),
            Step::Fault(k) => finish(rest, s1, Err(k)),
            Step::Goto(s2, n) => run_from(prog, s2, n, (fuel - 1) as nat, rest),
        } by {
        let r2 = answers_before(c, a, rest);
        assert(answers_after(log, c, a) + rest =~= log + r2);
        assert(answered(c, float_query(i, s1), r2));
        assert(rest_of(c, r2) =~= rest);
        assert(answer_of(c, r2) == if c { fl } else { 0 });
        assert(run_from(prog, s0, 0, STEP_LIMIT as nat, log + r2) == run_from(prog, s1, ip, fuel, r2));
    }
}

/// A run that ended: without floating-point instructions, it used no answer.
proof fn lemma_run_end(
    prog: Seq<Instruction>,
    s0: MachineState,
    log: Seq<(FloatQuery, u64)>,
    s_end: MachineState,
    res: Result<(), VMErrorKind>,
)
    requires
        run_from(prog, s0, 0, STEP_LIMIT as nat, log) == Some((s_end, res)),
    ensures
        float_free(prog) ==> run_from(prog, s0, 0, STEP_LIMIT as nat, Seq::empty()) == Some(
            (s_end, res),
        ),
{
    if float_free(prog) {
        if log.len() > 0 {
            lemma_float_free_run(prog, s0, 0, STEP_LIMIT as nat, log);
        }
        assert(log =~= Seq::<(FloatQuery, u64)>::empty());
    }
}

/// The encoded instruction `e` of `i`, at index `ip`, can be run on `vm`.
pub open spec fn ready(vm: NVM, e: Encoded, i: Instruction, ip: usize) -> bool {
    &&& e == encoded_of(i)
    &&& encode_error(i) is None
    &&& has_handler(i)
    &&& i.registers_ok()
    &&& vm.registers@.len() == REGISTER_COUNT
    &&& ip < usize::MAX
}

/// The result of a two-source integer operation.
pub fn binary_op(op: OperationCode, l: u64, r: u64) -> (v: u64)
    requires
        is_int_binary(op),
        is_division(op) ==> r != 0,
    ensures
        v == binary_result(op, l, r),
{
    match op {
        OperationCode::IADD => l.wrapping_add(r),
        OperationCode::ISUB => l.wrapping_sub(r),
        OperationCode::IMUL => l.wrapping_mul(r),
        OperationCode::SDIV => match (l as i64).checked_div(r as i64) {
            Some(q) => q as u64,
            None => l,
        },
        OperationCode::UDIV => l / r,
        OperationCode::SREM => match (l as i64).checked_rem(r as i64) {
            Some(q) => q as u64,
            None => 0,
        },
        OperationCode::UREM => l % r,
        OperationCode::AND => l & r,
        OperationCode::OR => l | r,
        OperationCode::XOR => l ^ r,
        OperationCode::SHL => l.wrapping_shl(r as u32),
        OperationCode::SHR => l.wrapping_shr(r as u32),
        OperationCode::SAR => ((l as i64).wrapping_shr(r as u32)) as u64,
        OperationCode::IEQ => if l == r { 1 } else { 0 },
        OperationCode::INE => if l != r { 1 } else { 0 },
        OperationCode::SLT => if (l as i64) < (r as i64) { 1 } else { 0 },
        OperationCode::SLE => if (l as i64) <= (r as i64) { 1 } else { 0 },
        OperationCode::SGT => if (l as i64) > (r as i64) { 1 } else { 0 },
        OperationCode::SGE => if (l as i64) >= (r as i64) { 1 } else { 0 },
        OperationCode::ULT => if l < r { 1 } else { 0 },
        OperationCode::ULE => if l <= r { 1 } else { 0 },
        OperationCode::UGT => if l > r { 1 } else { 0 },
        OperationCode::UGE => if l >= r { 1 } else { 0 },
        _ => 0,
    }
}

/// The result of a one-source operation.
pub fn unary_op(op: OperationCode, v: u64) -> (r: u64)
    requires
        is_unary(op),
    ensures
        r == unary_result(op, v),
{
    match op {
        OperationCode::INEG => 0u64.wrapping_sub(v),
        OperationCode::NOT => !v,
        _ => v ^ SIGN_BIT,
    }
}

/// The floating-point operation of an arithmetic opcode.
pub fn float_arith_of(op: OperationCode) -> (f: FloatArith)
    ensures
        f == float_arith_spec(op),
{
    match op {
        OperationCode::FADD => FloatArith::Add,
        OperationCode::FSUB => FloatArith::Sub,
        OperationCode::FMUL => FloatArith::Mul,
        OperationCode::FDIV => FloatArith::Div,
        _ => FloatArith::Rem,
    }
}

/// The floating-point comparison of a comparison opcode.
pub fn float_comparison_of(op: OperationCode) -> (f: FloatComparison)
    ensures
        f == float_comparison_spec(op),
{
    match op {
        OperationCode::FEQ => FloatComparison::Eq,
        OperationCode::FNE => FloatComparison::Ne,
        OperationCode::FLT => FloatComparison::Lt,
        OperationCode::FLE => FloatComparison::Le,
        OperationCode::FGT => FloatComparison::Gt,
        _ => FloatComparison::Ge,
    }
}

impl NVM {
    /// The value of the register whose number is in `slot`.
    fn read_reg(&self, slot: u64) -> (v: u64)
        requires
            self.registers@.len() == REGISTER_COUNT,
            slot < REGISTER_COUNT,
        ensures
            v == self.registers@[slot as int],
    {
        self.registers.get(Register(slot as u8))
    }

    /// The value of an operand slot: a register's contents or the immediate.
    fn read_slot(&self, is_reg: bool, slot: u64) -> (v: u64)
        requires
            self.registers@.len() == REGISTER_COUNT,
            is_reg ==> slot < REGISTER_COUNT,
        ensures
            v == (if is_reg {
                self.registers@[slot as int]
            } else {
                slot
            }),
    {
        if is_reg {
            self.read_reg(slot)
        } else {
            read_imm(slot)
        }
    }

    /// Sets the destination register named in `slot`.
    fn write_dst(&mut self, slot: u64, value: u64)
        requires
            old(self).registers@.len() == REGISTER_COUNT,
            slot < REGISTER_COUNT,
        ensures
            final(self).registers@ == old(self).registers@.update(slot as int, value),
            final(self).memory == old(self).memory,
            final(self).call_stack == old(self).call_stack,
            final(self).program == old(self).program,
    {
        self.registers.set(Register(slot as u8), value);
    }

    /// The value a `LOAD*` reads at `address`, zero-extended.
    pub fn load_value(&self, op: OperationCode, address: usize) -> (r: Option<u64>)
        requires
            op is LOAD8 || op is LOAD16 || op is LOAD32 || op is LOAD64,
        ensures
            r == load_result(op, self.memory@, address as int),
    {
        match op {
            OperationCode::LOAD8 => match self.memory.load_u8(address) {
                Some(v) => Some(v as u64),
                None => None,
            },
            OperationCode::LOAD16 => match self.memory.load_u16(address) {
                Some(v) => Some(v as u64),
                None => None,
            },
            OperationCode::LOAD32 => match self.memory.load_u32(address) {
                Some(v) => Some(v as u64),
                None => None,
            },
            _ => self.memory.load_u64(address),
        }
    }

    /// Writes the bytes a `STORE*` of `value` writes at `address`.
    pub fn store_value(&mut self, op: OperationCode, address: usize, value: u64) -> (r: Option<()>)
        requires
            op is STORE8 || op is STORE16 || op is STORE32 || op is STORE64,
        ensures
            match write_bytes(old(self).memory@, address as int, store_bytes(op, value)) {
                Some(m) => r is Some && final(self).memory@ == m,
                None => r is None && final(self).memory@ == old(self).memory@,
            },
            final(self).registers == old(self).registers,
            final(self).call_stack == old(self).call_stack,
            final(self).program == old(self).program,
    {
        match op {
            OperationCode::STORE8 => self.memory.store_u8(address, value as u8),
            OperationCode::STORE16 => self.memory.store_u16(address, value as u16),
            OperationCode::STORE32 => self.memory.store_u32(address, value as u32),
            _ => self.memory.store_u64(address, value),
        }
    }

    /// Runs one encoded instruction `e` (the encoding of `i`, at index `ip`).
    /// The second result is the floating-point unit's answer that the
    /// instruction used, or `0`.
    fn dispatch<F: Fn(FloatQuery) -> u64>(
        &mut self,
        e: &Encoded,
        ip: usize,
        fpu: &F,
        Ghost(i): Ghost<Instruction>,
    ) -> (r: (Result<Flow, VMError>, Ghost<u64>))
        requires
            ready(*old(self), *e, i, ip),
            always_answers(*fpu),
        ensures
            step_matches(step(i, old(self).state(), ip as int, r.1@), old(self).state(), final(self).state(), r.0),
            !consumes_float(i.opcode) ==> r.1@ == 0,
            consumes_float(i.opcode) ==> call_ensures(*fpu, (float_query(i, old(self).state()),), r.1@),
            final(self).program == old(self).program,
            final(self).registers@.len() == REGISTER_COUNT,
    {
        proof {
            lemma_valid_handler(i);
            lemma_flat_value(self.registers@, i.operand1);
            lemma_flat_value(self.registers@, i.operand2);
            lemma_flat_value(self.registers@, i.operand3);
        }
        let ghost s0 = self.state();
        let next = ip + 1;
        match e.handler {
            Handler::Invalid => {
                proof {
                    assert(false);
                }
                (Ok(Flow::Stop), Ghost(0))
            },
            Handler::Nop => (nop(ip), Ghost(0)),
            Handler::Exit => (exit(), Ghost(0)),
            Handler::Move => {
                let v = self.read_slot(e.reg2, e.slot2);
                self.write_dst(e.slot1, v);
                (Ok(Flow::Next(next)), Ghost(0))
            },
            Handler::Load => {
                let address = self.read_slot(e.reg2, e.slot2) as usize;
                match self.load_value(e.opcode, address) {
                    Some(v) => {
                        self.write_dst(e.slot1, v);
                        (Ok(Flow::Next(next)), Ghost(0))
                    },
                    None => (
                        Err(
                            VMError::new(
                                VMErrorKind::InvalidAddress {
                                    got: address,
                                    memory_length: self.memory.len(),
                                },
                            ),
                        ),
                        Ghost(0),
                    ),
                }
            },
            Handler::Store => {
                let address = self.read_slot(e.reg1, e.slot1) as usize;
                let value = self.read_slot(e.reg2, e.slot2);
                match self.store_value(e.opcode, address, value) {
                    Some(()) => (Ok(Flow::Next(next)), Ghost(0)),
                    None => (
                        Err(
                            VMError::new(
                                VMErrorKind::InvalidAddress {
                                    got: address,
                                    memory_length: self.memory.len(),
                                },
                            ),
                        ),
                        Ghost(0),
                    ),
                }
            },
            Handler::Binary => {
                let lhs = self.read_slot(e.reg2, e.slot2);
                let rhs = self.read_slot(e.reg3, e.slot3);
                let v = binary_op(e.opcode, lhs, rhs);
                self.write_dst(e.slot1, v);
                (Ok(Flow::Next(next)), Ghost(0))
            },
            Handler::Division => {
                let rhs = self.read_slot(e.reg3, e.slot3);
                match ensure_nonzero_divisor(rhs) {
                    Err(err) => (Err(err), Ghost(0)),
                    Ok(()) => {
                        let lhs = self.read_slot(e.reg2, e.slot2);
                        let v = binary_op(e.opcode, lhs, rhs);
                        self.write_dst(e.slot1, v);
                        (Ok(Flow::Next(next)), Ghost(0))
                    },
                }
            },
            Handler::Unary => {
                let v = self.read_slot(e.reg2, e.slot2);
                let x = unary_op(e.opcode, v);
                self.write_dst(e.slot1, x);
                (Ok(Flow::Next(next)), Ghost(0))
            },
            Handler::FloatArith => {
                let lhs = self.read_slot(e.reg2, e.slot2);
                let rhs = self.read_slot(e.reg3, e.slot3);
                let x = fpu(FloatQuery::Arith(float_arith_of(e.opcode), lhs, rhs));
                self.write_dst(e.slot1, x);
                (Ok(Flow::Next(next)), Ghost(x))
            },
            Handler::FloatComparison => {
                let lhs = self.read_slot(e.reg2, e.slot2);
                let rhs = self.read_slot(e.reg3, e.slot3);
                let answer = fpu(FloatQuery::Compare(float_comparison_of(e.opcode), lhs, rhs));
                let x: u64 = if answer != 0 { 1 } else { 0 };
                self.write_dst(e.slot1, x);
                (Ok(Flow::Next(next)), Ghost(answer))
            },
            Handler::Jump => {
                let target = self.read_slot(e.reg1, e.slot1) as usize;
                (Ok(Flow::Next(target)), Ghost(0))
            },
            Handler::Branch => {
                let cond = self.read_slot(e.reg1, e.slot1);
                let target = self.read_slot(e.reg2, e.slot2) as usize;
                let taken = match e.opcode {
                    OperationCode::JZ => cond == 0,
                    _ => cond != 0,
                };
                if taken {
                    (Ok(Flow::Next(target)), Ghost(0))
                } else {
                    (Ok(Flow::Next(next)), Ghost(0))
                }
            },
            Handler::Call => {
                let target = self.read_slot(e.reg1, e.slot1) as usize;
                self.call_stack.push(next);
                (Ok(Flow::Next(target)), Ghost(0))
            },
            Handler::Ret => (self.ret(), Ghost(0)),
        }
    }

    /// `RET`: continues at the most recent return address.
    fn ret(&mut self) -> (r: Result<Flow, VMError>)
        ensures
            old(self).call_stack@.len() == 0 ==> r == Err::<Flow, VMError>(
                VMError { kind: VMErrorKind::EmptyCallStack },
            ) && final(self).call_stack@ == old(self).call_stack@,
            old(self).call_stack@.len() > 0 ==> r == Ok::<Flow, VMError>(
                Flow::Next(old(self).call_stack@.last()),
            ) && final(self).call_stack@ == old(self).call_stack@.drop_last(),
            final(self).registers == old(self).registers,
            final(self).memory == old(self).memory,
            final(self).program == old(self).program,
    {
        match self.call_stack.pop() {
            Some(a) => Ok(Flow::Next(a)),
            None => Err(VMError::new(VMErrorKind::EmptyCallStack)),
        }
    }

    /// Runs the program with the direct-threaded executor, asking `fpu` the
    /// floating-point questions.
    ///
    /// The program is first encoded: if an instruction has the wrong number of
    /// operands or a destination that is not a register, the first such
    /// instruction's error is returned and nothing runs. Otherwise the program
    /// runs from its first instruction until `EXIT`, a jump past its end, an
    /// error, or [`STEP_LIMIT`] instructions. The questions asked are exactly
    /// those of the run, in order, and each answer is one `fpu` gave.
    pub fn run<F: Fn(FloatQuery) -> u64>(&mut self, fpu: &F) -> (r: Result<(), VMError>)
        requires
            first_encode_error(old(self).program@) is None ==> forall|answers: Seq<(FloatQuery, u64)>|
                #[trigger] run_in_bounds(
                    old(self).program@,
                    old(self).state(),
                    0,
                    STEP_LIMIT as nat,
                    answers,
                ),
            always_answers(*fpu),
        ensures
            final(self).program@ == old(self).program@,
            match first_encode_error(old(self).program@) {
                Some(e) => r == Err::<(), VMError>(VMError { kind: e }) && final(self).state()
                    == old(self).state(),
                None => exists|answers: Seq<(FloatQuery, u64)>|
                    answered_by(*fpu, answers) && run_from(
                        old(self).program@,
                        old(self).state(),
                        0,
                        STEP_LIMIT as nat,
                        answers,
                    ) == Some((final(self).state(), outcome(r))),
            },
            first_encode_error(old(self).program@) is None && float_free(old(self).program@)
                ==> run_from(
                old(self).program@,
                old(self).state(),
                0,
                STEP_LIMIT as nat,
                Seq::empty(),
            ) == Some((final(self).state(), outcome(r))),
    {
        let code = match encode(&self.program) {
            Ok(code) => code,
            Err(err) => {
                return Err(err);
            },
        };
        let ghost prog = self.program@;
        let ghost s0 = self.state();
        let count = self.program.len();
        proof {
            self.registers.lemma_len();
        }
        let ghost mut log: Seq<(FloatQuery, u64)> = Seq::empty();
        proof {
            assert forall|rest: Seq<(FloatQuery, u64)>|
                run_from(prog, s0, 0, STEP_LIMIT as nat, log + rest) == #[trigger] run_from(
                    prog,
                    s0,
                    0,
                    STEP_LIMIT as nat,
                    rest,
                ) by {
                assert(log + rest =~= rest);
            }
        }
        if count == 0 {
            proof {
                assert(run_from(prog, s0, 0, STEP_LIMIT as nat, log) == Some((s0, Ok::<(), VMErrorKind>(()))));
                assert(answered_by(*fpu, log));
                lemma_run_end(prog, s0, log, s0, Ok(()));
            }
            return Ok(());
        }
        let mut ip: usize = 0;
        let mut fuel: u64 = STEP_LIMIT;
        while fuel > 0
            invariant
                self.program@ == prog,
                prog == old(self).program@,
                s0 == old(self).state(),
                count == prog.len(),
                0 < count,
                code@.len() == count,
                forall|j: int| 0 <= j < count ==> #[trigger] code@[j] == encoded_of(prog[j]),
                first_encode_error(prog) is None,
                forall|rest: Seq<(FloatQuery, u64)>|
                    #[trigger] run_in_bounds(prog, self.state(), ip as int, fuel as nat, rest),
                always_answers(*fpu),
                self.registers@.len() == REGISTER_COUNT,
                ip < count,
                answered_by(*fpu, log),
                run_continues(prog, s0, log, self.state(), ip as int, fuel as nat),
            decreases fuel,
        {
            let ghost s1 = self.state();
            let ghost ip0 = ip as int;
            let ghost instr = prog[ip as int];
            proof {
                lemma_no_encode_error(prog, 0, ip as int);
                assert(run_in_bounds(prog, s1, ip as int, fuel as nat, Seq::empty()));
            }
            let (res, Ghost(fl)) = self.dispatch(&code[ip], ip, fpu, Ghost(instr));
            let ghost c = consumes_float(instr.opcode);
            let ghost new_log = answers_after(log, c, (float_query(instr, s1), fl));
            proof {
                lemma_run_step(prog, s0, log, s1, ip as int, fuel as nat, fl);
                assert(answered_by(*fpu, new_log)) by {
                    if c {
                        assert forall|j: int| 0 <= j < new_log.len() implies call_ensures(
                            *fpu,
                            (#[trigger] new_log[j].0,),
                            new_log[j].1,
                        ) by {
                            if j < log.len() {
                                assert(new_log[j] == log[j]);
                            }
                        }
                    }
                }
                assert(new_log + Seq::<(FloatQuery, u64)>::empty() =~= new_log);
            }
            match res {
                Err(err) => {
                    proof {
                        assert(run_from(prog, s0, 0, STEP_LIMIT as nat, new_log + Seq::empty())
                            == Some((self.state(), outcome(Err::<(), VMError>(err)))));
                        lemma_run_end(prog, s0, new_log, self.state(), outcome(Err::<(), VMError>(err)));
                    }
                    return Err(err);
                },
                Ok(Flow::Stop) => {
                    proof {
                        assert(run_from(prog, s0, 0, STEP_LIMIT as nat, new_log + Seq::empty())
                            == Some((self.state(), Ok::<(), VMErrorKind>(()))));
                        lemma_run_end(prog, s0, new_log, self.state(), Ok(()));
                    }
                    return Ok(());
                },
                Ok(Flow::Next(n)) => {
                    if n >= count {
                        proof {
                            assert(run_from(prog, s0, 0, STEP_LIMIT as nat, new_log + Seq::empty())
                                == Some((self.state(), Ok::<(), VMErrorKind>(()))));
                            lemma_run_end(prog, s0, new_log, self.state(), Ok(()));
                        }
                        return Ok(());
                    }
                    ip = n;
                    fuel = fuel - 1;
                    proof {
                        assert forall|rest: Seq<(FloatQuery, u64)>|
                            #[trigger] run_in_bounds(prog, self.state(), ip as int, fuel as nat, rest) by {
                            let r2 = answers_before(c, (float_query(instr, s1), fl), rest);
                            assert(run_in_bounds(prog, s1, ip0, (fuel + 1) as nat, r2));
                            assert(answered(c, float_query(instr, s1), r2));
                            assert(rest_of(c, r2) =~= rest);
                            assert(answer_of(c, r2) == fl);
                        }
                        log = new_log;
                    }
                },
            }
        }
        proof {
            assert(log + Seq::<(FloatQuery, u64)>::empty() =~= log);
            assert(run_from(prog, self.state(), ip as int, fuel as nat, Seq::empty()) == Some(
                (self.state(), Ok::<(), VMErrorKind>(())),
            ));
            assert(run_from(prog, s0, 0, STEP_LIMIT as nat, log + Seq::empty()) == Some(
                (self.state(), Ok::<(), VMErrorKind>(())),
            ));
            lemma_run_end(prog, s0, log, self.state(), Ok(()));
        }
        Ok(())
    }
}

/// `NOP`: continues with the next instruction.
fn nop(ip: usize) -> (r: Result<Flow, VMError>)
    requires
        ip < usize::MAX,
    ensures
        r == Ok::<Flow, VMError>(Flow::Next((ip + 1) as usize)),
{
    Ok(Flow::Next(ip + 1))
}

/// `EXIT`: stops the machine.
fn exit() -> (r: Result<Flow, VMError>)
    ensures
        r == Ok::<Flow, VMError>(Flow::Stop),
{
    Ok(Flow::Stop)
}

/// The value of an immediate slot.
fn read_imm(slot: u64) -> (v: u64)
    ensures
        v == slot,
{
    slot
}

/// A division-by-zero error when `rhs` is zero.
pub fn ensure_nonzero_divisor(rhs: u64) -> (r: Result<(), VMError>)
    ensures
        rhs == 0 <==> r is Err,
        r matches Err(e) ==> e.kind == VMErrorKind::DivisionByZero,
{
    if rhs == 0 {
        Err(VMError::new(VMErrorKind::DivisionByZero))
    } else {
        Ok(())
    }
}

} // verus!
