//! The executor that checks and decodes each instruction when it reaches it,
//! with a `match` on the opcode.
use vstd::prelude::*;

use crate::isa::instruction::Instruction;
use crate::isa::opcode::OperationCode;
use crate::isa::operand::{Operand, OperandKind};
use crate::isa::register::{Register, REGISTER_COUNT};
use crate::vm::err::{VMError, VMErrorKind};
use crate::vm::executer::{
    answers_after, answers_before, ensure_nonzero_divisor, float_arith_of, float_comparison_of,
};
use crate::vm::semantics::{
    answer_of, answered, asks_unit, checked_run_from, checked_step, consumes_float, dst_fault, finish,
    float_free, float_query, lemma_float_free_checked_run, match_check, outcome, plain_matches,
    checked_run_in_registers, rest_of, value_of, MachineState, Step, SIGN_BIT, STEP_LIMIT,
};
use crate::vm::{always_answers, answered_by, FloatQuery, NVM};

verus! {

/// The checked run from `s0` at the start, after the answers `log`,
/// continues as the checked run from `s1` at `ip` with `fuel` left.
pub open spec fn continues(
    prog: Seq<Instruction>,
    s0: MachineState,
    log: Seq<(FloatQuery, u64)>,
    s1: MachineState,
    ip: int,
    fuel: nat,
) -> bool {
    forall|rest: Seq<(FloatQuery, u64)>|
        checked_run_from(prog, s0, 0, STEP_LIMIT as nat, log + rest) == #[trigger] checked_run_from(
            prog,
            s1,
            ip,
            fuel,
            rest,
        )
}

/// One instruction of a continued checked run: with the answer `fl` to its
/// question (when it asks one) logged, the run continues as
/// [`checked_step`] says.
proof fn lemma_checked_step(
    prog: Seq<Instruction>,
    s0: MachineState,
    log: Seq<(FloatQuery, u64)>,
    s1: MachineState,
    ip: int,
    fuel: nat,
    fl: u64,
)
    requires
        fuel > 0,
        0 <= ip < prog.len(),
        continues(prog, s0, log, s1, ip, fuel),
        !asks_unit(prog[ip]) ==> fl == 0,
    ensures
        forall|rest: Seq<(FloatQuery, u64)>|
            checked_run_from(
                prog,
                s0,
                0,
                STEP_LIMIT as nat,
                #[trigger] (answers_after(log, asks_unit(prog[ip]), (float_query(prog[ip], s1), fl))
                    + rest),
            ) == match checked_step(prog[ip], s1, ip, fl) {
                Step::Halt(s2) => finish(rest, s2, Ok(())),
                Step::Fault(k) => finish(rest, s1, Err(k)),
                Step::Goto(s2, n) => checked_run_from(prog, s2, n, (fuel - 1) as nat, rest),
            },
{
    let i = prog[ip];
    let c = asks_unit(i);
    let a = (float_query(i, s1), fl);
    assert forall|rest: Seq<(FloatQuery, u64)>|
        checked_run_from(prog, s0, 0, STEP_LIMIT as nat, #[trigger] (answers_after(log, c, a) + rest))
            == match checked_step(i, s1, ip, fl) {
            Step::Halt(s2) => finish(rest, s2, Ok(())),
            Step::Fault(k) => finish(rest, s1, Err(k)),
            Step::Goto(s2, n) => checked_run_from(prog, s2, n, (fuel - 1) as nat, rest),
        } by {
        let r2 = answers_before(c, a, rest);
        assert(answers_after(log, c, a) + rest =~= log + r2);
        assert(answered(c, float_query(i, s1), r2));
        assert(rest_of(c, r2) =~= rest);
        assert(answer_of(c, r2) == fl);
        assert(checked_run_from(prog, s0, 0, STEP_LIMIT as nat, log + r2) == checked_run_from(
            prog,
            s1,
            ip,
            fuel,
            r2,
        ));
    }
}

/// A step that continues keeps a run within the machine's registers.
proof fn lemma_in_registers_step(
    prog: Seq<Instruction>,
    s1: MachineState,
    ip: int,
    fuel: nat,
    fl: u64,
    s2: MachineState,
    n: int,
)
    requires
        fuel > 0,
        0 <= ip < prog.len(),
        !asks_unit(prog[ip]) ==> fl == 0,
        checked_step(prog[ip], s1, ip, fl) == Step::Goto(s2, n),
        forall|rest: Seq<(FloatQuery, u64)>|
            #[trigger] checked_run_in_registers(prog, s1, ip, fuel, rest),
    ensures
        forall|rest: Seq<(FloatQuery, u64)>|
            #[trigger] checked_run_in_registers(prog, s2, n, (fuel - 1) as nat, rest),
{
    let i = prog[ip];
    let c = asks_unit(i);
    let a = (float_query(i, s1), fl);
    assert forall|rest: Seq<(FloatQuery, u64)>|
        #[trigger] checked_run_in_registers(prog, s2, n, (fuel - 1) as nat, rest) by {
        let r2 = answers_before(c, a, rest);
        assert(checked_run_in_registers(prog, s1, ip, fuel, r2));
        assert(answered(c, float_query(i, s1), r2));
        assert(rest_of(c, r2) =~= rest);
        assert(answer_of(c, r2) == fl);
    }
}

/// A checked run that ended: without floating-point instructions, it used no
/// answer.
proof fn lemma_checked_end(
    prog: Seq<Instruction>,
    s0: MachineState,
    log: Seq<(FloatQuery, u64)>,
    s_end: MachineState,
    res: Result<(), VMErrorKind>,
)
    requires
        checked_run_from(prog, s0, 0, STEP_LIMIT as nat, log) == Some((s_end, res)),
    ensures
        float_free(prog) ==> checked_run_from(prog, s0, 0, STEP_LIMIT as nat, Seq::empty())
            == Some((s_end, res)),
{
    if float_free(prog) {
        if log.len() > 0 {
            lemma_float_free_checked_run(prog, s0, 0, STEP_LIMIT as nat, log);
        }
        assert(log =~= Seq::<(FloatQuery, u64)>::empty());
    }
}

/// A run that stops at `ip` (outside the program, or out of fuel) ends there.
proof fn lemma_checked_stop(
    prog: Seq<Instruction>,
    s0: MachineState,
    log: Seq<(FloatQuery, u64)>,
    s1: MachineState,
    ip: int,
    fuel: nat,
)
    requires
        continues(prog, s0, log, s1, ip, fuel),
        ip >= prog.len() || fuel == 0,
    ensures
        checked_run_from(prog, s0, 0, STEP_LIMIT as nat, log) == Some(
            (s1, Ok::<(), VMErrorKind>(())),
        ),
{
    let e0 = Seq::<(FloatQuery, u64)>::empty();
    assert(log + e0 =~= log);
    assert(checked_run_from(prog, s0, 0, STEP_LIMIT as nat, log + e0) == checked_run_from(
        prog,
        s1,
        ip,
        fuel,
        e0,
    ));
}

/// Whether a jump instruction moves to its target: always for `JMP`, `CALL`
/// and `RET`, and for `JZ` / `JNZ` when the condition holds.
pub open spec fn jump_taken(i: Instruction, s: MachineState) -> bool {
    match i.opcode {
        OperationCode::JZ => value_of(s.registers, i.operand1) == 0,
        OperationCode::JNZ => value_of(s.registers, i.operand1) != 0,
        _ => true,
    }
}

/// The preconditions of the per-instruction methods.
pub open spec fn can_execute(vm: NVM, instr: Instruction) -> bool {
    &&& match_check(instr) is None ==> instr.registers_ok()
    &&& vm.registers@.len() == REGISTER_COUNT
}

impl NVM {
    /// Runs the program with the decoding executor, asking `fpu` the
    /// floating-point questions.
    ///
    /// Each instruction's operands are checked when it is reached. The program
    /// runs from its first instruction until `EXIT`, a jump past its end, an
    /// error, or [`STEP_LIMIT`] instructions. The questions asked are exactly
    /// those of the run, in order, and each answer is one `fpu` gave.
    pub fn match_execute<F: Fn(FloatQuery) -> u64>(&mut self, fpu: &F) -> (r: Result<(), VMError>)
        requires
            forall|answers: Seq<(FloatQuery, u64)>|
                #[trigger] checked_run_in_registers(
                    old(self).program@,
                    old(self).state(),
                    0,
                    STEP_LIMIT as nat,
                    answers,
                ),
            always_answers(*fpu),
        ensures
            final(self).program@ == old(self).program@,
            exists|answers: Seq<(FloatQuery, u64)>|
                answered_by(*fpu, answers) && checked_run_from(
                    old(self).program@,
                    old(self).state(),
                    0,
                    STEP_LIMIT as nat,
                    answers,
                ) == Some((final(self).state(), outcome(r))),
            float_free(old(self).program@) ==> checked_run_from(
                old(self).program@,
                old(self).state(),
                0,
                STEP_LIMIT as nat,
                Seq::empty(),
            ) == Some((final(self).state(), outcome(r))),
    {
        let ghost prog = self.program@;
        let ghost s0 = self.state();
        let ghost mut log: Seq<(FloatQuery, u64)> = Seq::empty();
        proof {
            self.registers.lemma_len();
            assert forall|rest: Seq<(FloatQuery, u64)>|
                checked_run_from(prog, s0, 0, STEP_LIMIT as nat, log + rest)
                    == #[trigger] checked_run_from(prog, s0, 0, STEP_LIMIT as nat, rest) by {
                assert(log + rest =~= rest);
            }
        }
        let mut ip: usize = 0;
        let mut fuel: u64 = STEP_LIMIT;
        while fuel > 0
            invariant
                self.program@ == prog,
                prog == old(self).program@,
                s0 == old(self).state(),
                forall|rest: Seq<(FloatQuery, u64)>|
                    #[trigger] checked_run_in_registers(prog, self.state(), ip as int, fuel as nat, rest),
                always_answers(*fpu),
                answered_by(*fpu, log),
                self.registers@.len() == REGISTER_COUNT,
                continues(prog, s0, log, self.state(), ip as int, fuel as nat),
            decreases fuel,
        {
            if ip >= self.program.len() {
                proof {
                    lemma_checked_stop(prog, s0, log, self.state(), ip as int, fuel as nat);
                    lemma_checked_end(prog, s0, log, self.state(), Ok(()));
                }
                return Ok(());
            }
            let current = self.program[ip];
            let ghost s1 = self.state();
            proof {
                assert(checked_run_in_registers(prog, s1, ip as int, fuel as nat, Seq::empty()));
            }
            let ghost gip = ip as int;
            let ghost mut fl: u64 = 0;
            let mut jumped = false;
            let res: Result<(), VMError> = match current.opcode {
                OperationCode::NOP => Ok(()),
                OperationCode::EXIT => {
                    proof {
                        lemma_checked_step(prog, s0, log, s1, gip, fuel as nat, 0);
                        let e0 = Seq::<(FloatQuery, u64)>::empty();
                        assert(log + e0 =~= log);
                        assert(checked_run_from(prog, s0, 0, STEP_LIMIT as nat, log + e0) == Some(
                            (s1, Ok::<(), VMErrorKind>(())),
                        ));
                        lemma_checked_end(prog, s0, log, s1, Ok(()));
                    }
                    return Ok(());
                },
                OperationCode::MOVE => self.mov(current, Ghost(gip)),
                OperationCode::LOAD8 | OperationCode::LOAD16 | OperationCode::LOAD32
                | OperationCode::LOAD64 => self.load_(current, Ghost(gip)),
                OperationCode::STORE8 | OperationCode::STORE16 | OperationCode::STORE32
                | OperationCode::STORE64 => self.store_(current, Ghost(gip)),
                OperationCode::IADD | OperationCode::ISUB | OperationCode::IMUL
                | OperationCode::SDIV | OperationCode::UDIV | OperationCode::SREM
                | OperationCode::UREM => self.iarithm(current, Ghost(gip)),
                OperationCode::INEG => self.ineg(current, Ghost(gip)),
                OperationCode::FADD | OperationCode::FSUB | OperationCode::FMUL
                | OperationCode::FDIV | OperationCode::FREM => {
                    let (r, Ghost(x)) = self.farithm(current, fpu, Ghost(gip));
                    proof {
                        fl = x;
                    }
                    r
                },
                OperationCode::FNEG => self.fneg(current, Ghost(gip)),
                OperationCode::AND | OperationCode::OR | OperationCode::XOR | OperationCode::NOT
                | OperationCode::SHL | OperationCode::SHR | OperationCode::SAR => self.bitwise(
                    current,
                    Ghost(gip),
                ),
                OperationCode::IEQ | OperationCode::INE | OperationCode::SLT | OperationCode::SLE
                | OperationCode::SGT | OperationCode::SGE | OperationCode::ULT | OperationCode::ULE
                | OperationCode::UGT | OperationCode::UGE => self.int_compare(current, Ghost(gip)),
                OperationCode::FEQ | OperationCode::FNE | OperationCode::FLT | OperationCode::FLE
                | OperationCode::FGT | OperationCode::FGE => {
                    let (r, Ghost(x)) = self.float_compare(current, fpu, Ghost(gip));
                    proof {
                        fl = x;
                    }
                    r
                },
                OperationCode::JMP | OperationCode::JZ | OperationCode::JNZ | OperationCode::CALL
                | OperationCode::RET => match self.jump(current, &mut ip) {
                    Ok(j) => {
                        jumped = j;
                        Ok(())
                    },
                    Err(e) => Err(e),
                },
            };
            let ghost asks = asks_unit(current);
            let ghost new_log = answers_after(log, asks, (float_query(current, s1), fl));
            proof {
                assert(!asks ==> fl == 0);
                assert(asks ==> call_ensures(*fpu, (float_query(current, s1),), fl));
                lemma_checked_step(prog, s0, log, s1, gip, fuel as nat, fl);
                assert(answered_by(*fpu, new_log)) by {
                    if asks {
                        assert forall|j: int| 0 <= j < new_log.len() implies call_ensures(
                            *fpu,
                            (#[trigger] new_log[j].0,),
                            new_log[j].1,
                        ) by {
                            if j < log.len() {
                                assert(new_log[j] == log[j]);
                            }
                        }
                    }
                }
                assert(new_log + Seq::<(FloatQuery, u64)>::empty() =~= new_log);
            }
            match res {
                Err(e) => {
                    proof {
                        assert(checked_run_from(prog, s0, 0, STEP_LIMIT as nat, new_log + Seq::empty())
                            == Some((self.state(), Err::<(), VMErrorKind>(e.kind))));
                        lemma_checked_end(prog, s0, new_log, self.state(), Err(e.kind));
                    }
                    return Err(e);
                },
                Ok(()) => {},
            }
            if !jumped {
                ip = ip + 1;
            }
            proof {
                lemma_in_registers_step(prog, s1, gip, fuel as nat, fl, self.state(), ip as int);
                log = new_log;
            }
            fuel = fuel - 1;
        }
        proof {
            lemma_checked_stop(prog, s0, log, self.state(), ip as int, fuel as nat);
            lemma_checked_end(prog, s0, log, self.state(), Ok(()));
        }
        Ok(())
    }

    /// The value of an operand: a register's contents or the immediate.
    fn get_value(&self, operand: Operand) -> (r: Result<u64, VMError>)
        requires
            crate::isa::instruction::operand_register_ok(Some(operand)),
            self.registers@.len() == REGISTER_COUNT,
        ensures
            r == Ok::<u64, VMError>(value_of(self.registers@, Some(operand))),
    {
        match operand.kind {
            OperandKind::Register(r) => Ok(self.registers.get(r)),
            OperandKind::Immediate(v) => Ok(v),
        }
    }

    /// The register of a destination operand, or an operand-type error.
    fn get_register(&self, operand: Operand) -> (r: Result<Register, VMError>)
        ensures
            match operand.kind {
                OperandKind::Register(reg) => r == Ok::<Register, VMError>(reg),
                OperandKind::Immediate(_) => r == Err::<Register, VMError>(
                    VMError { kind: dst_fault(Some(operand)) },
                ),
            },
    {
        match operand.kind {
            OperandKind::Register(r) => Ok(r),
            got => Err(
                VMError::new(
                    VMErrorKind::IncorrectTypeOfOperand {
                        expected: OperandKind::Register(Register(0)),
                        got,
                    },
                ),
            ),
        }
    }

    /// `MOVE dst, src`.
    fn mov(&mut self, instr: Instruction, Ghost(ip): Ghost<int>) -> (r: Result<(), VMError>)
        requires
            instr.opcode is MOVE,
            can_execute(*old(self), instr),
        ensures
            plain_matches(checked_step(instr, old(self).state(), ip, 0), ip, old(self).state(), final(self).state(), r),
            final(self).program == old(self).program,
            final(self).registers@.len() == REGISTER_COUNT,
    {
        let (dst, src) = instr.expect2()?;
        let dst = self.get_register(dst)?;
        let src = self.get_value(src)?;
        self.registers.set(dst, src);
        Ok(())
    }

    /// `LOAD8` .. `LOAD64 dst, address`.
    fn load_(&mut self, instr: Instruction, Ghost(ip): Ghost<int>) -> (r: Result<(), VMError>)
        requires
            instr.opcode is LOAD8 || instr.opcode is LOAD16 || instr.opcode is LOAD32
                || instr.opcode is LOAD64,
            can_execute(*old(self), instr),
        ensures
            plain_matches(checked_step(instr, old(self).state(), ip, 0), ip, old(self).state(), final(self).state(), r),
            final(self).program == old(self).program,
            final(self).registers@.len() == REGISTER_COUNT,
    {
        let (dst, src) = instr.expect2()?;
        let dst = self.get_register(dst)?;
        let address = self.get_value(src)? as usize;
        match self.load_value(instr.opcode, address) {
            Some(v) => {
                self.registers.set(dst, v);
                Ok(())
            },
            None => Err(
                VMError::new(
                    VMErrorKind::InvalidAddress { got: address, memory_length: self.memory.len() },
                ),
            ),
        }
    }

    /// `STORE8` .. `STORE64 address, value`.
    fn store_(&mut self, instr: Instruction, Ghost(ip): Ghost<int>) -> (r: Result<(), VMError>)
        requires
            instr.opcode is STORE8 || instr.opcode is STORE16 || instr.opcode is STORE32
                || instr.opcode is STORE64,
            can_execute(*old(self), instr),
        ensures
            plain_matches(checked_step(instr, old(self).state(), ip, 0), ip, old(self).state(), final(self).state(), r),
            final(self).program == old(self).program,
            final(self).registers@.len() == REGISTER_COUNT,
    {
        let (dst, src) = instr.expect2()?;
        let address = self.get_value(dst)? as usize;
        let value = self.get_value(src)?;
        match self.store_value(instr.opcode, address, value) {
            Some(()) => Ok(()),
            None => Err(
                VMError::new(
                    VMErrorKind::InvalidAddress { got: address, memory_length: self.memory.len() },
                ),
            ),
        }
    }

    /// `IADD`, `ISUB`, `IMUL`, `SDIV`, `UDIV`, `SREM`, `UREM dst, src1, src2`.
    fn iarithm(&mut self, instr: Instruction, Ghost(ip): Ghost<int>) -> (r: Result<(), VMError>)
        requires
            instr.opcode is IADD || instr.opcode is ISUB || instr.opcode is IMUL
                || instr.opcode is SDIV || instr.opcode is UDIV || instr.opcode is SREM
                || instr.opcode is UREM,
            can_execute(*old(self), instr),
        ensures
            plain_matches(checked_step(instr, old(self).state(), ip, 0), ip, old(self).state(), final(self).state(), r),
            final(self).program == old(self).program,
            final(self).registers@.len() == REGISTER_COUNT,
    {
        let (dst, src1, src2) = instr.expect3()?;
        let dst = self.get_register(dst)?;
        let lhs = self.get_value(src1)?;
        let rhs = self.get_value(src2)?;
        if matches!(
            instr.opcode,
            OperationCode::SDIV | OperationCode::UDIV | OperationCode::SREM | OperationCode::UREM
        ) {
            ensure_nonzero_divisor(rhs)?;
        }
        let v = match instr.opcode {
            OperationCode::IADD => lhs.wrapping_add(rhs),
            OperationCode::ISUB => lhs.wrapping_sub(rhs),
            OperationCode::IMUL => lhs.wrapping_mul(rhs),
            OperationCode::SDIV => match (lhs as i64).checked_div(rhs as i64) {
                Some(q) => q as u64,
                None => lhs,
            },
            OperationCode::UDIV => lhs / rhs,
            OperationCode::SREM => match (lhs as i64).checked_rem(rhs as i64) {
                Some(q) => q as u64,
                None => 0,
            },
            _ => lhs % rhs,
        };
        self.registers.set(dst, v);
        Ok(())
    }

    /// `INEG dst, src`: wrapping integer negation.
    fn ineg(&mut self, instr: Instruction, Ghost(ip): Ghost<int>) -> (r: Result<(), VMError>)
        requires
            instr.opcode is INEG,
            can_execute(*old(self), instr),
        ensures
            plain_matches(checked_step(instr, old(self).state(), ip, 0), ip, old(self).state(), final(self).state(), r),
            final(self).program == old(self).program,
            final(self).registers@.len() == REGISTER_COUNT,
    {
        let (dst, src) = instr.expect2()?;
        let dst = self.get_register(dst)?;
        let value = self.get_value(src)?;
        self.registers.set(dst, 0u64.wrapping_sub(value));
        Ok(())
    }

    /// `FADD`, `FSUB`, `FMUL`, `FDIV`, `FREM dst, src1, src2`. The second
    /// result is the unit's answer.
    fn farithm<F: Fn(FloatQuery) -> u64>(&mut self, instr: Instruction, fpu: &F, Ghost(ip): Ghost<int>) -> (r: (
        Result<(), VMError>,
        Ghost<u64>,
    ))
        requires
            instr.opcode is FADD || instr.opcode is FSUB || instr.opcode is FMUL
                || instr.opcode is FDIV || instr.opcode is FREM,
            can_execute(*old(self), instr),
            always_answers(*fpu),
        ensures
            plain_matches(checked_step(instr, old(self).state(), ip, r.1@), ip, old(self).state(), final(self).state(), r.0),
            match_check(instr) is Some ==> r.1@ == 0,
            match_check(instr) is None ==> call_ensures(*fpu, (float_query(instr, old(self).state()),), r.1@),
            final(self).program == old(self).program,
            final(self).registers@.len() == REGISTER_COUNT,
    {
        let (dst, src1, src2) = match instr.expect3() {
            Ok(t) => t,
            Err(e) => return (Err(e), Ghost(0)),
        };
        let dst = match self.get_register(dst) {
            Ok(d) => d,
            Err(e) => return (Err(e), Ghost(0)),
        };
        let lhs = match self.get_value(src1) {
            Ok(v) => v,
            Err(e) => return (Err(e), Ghost(0)),
        };
        let rhs = match self.get_value(src2) {
            Ok(v) => v,
            Err(e) => return (Err(e), Ghost(0)),
        };
        let x = fpu(FloatQuery::Arith(float_arith_of(instr.opcode), lhs, rhs));
        self.registers.set(dst, x);
        (Ok(()), Ghost(x))
    }

    /// `FNEG dst, src`: flips the sign bit.
    fn fneg(&mut self, instr: Instruction, Ghost(ip): Ghost<int>) -> (r: Result<(), VMError>)
        requires
            instr.opcode is FNEG,
            can_execute(*old(self), instr),
        ensures
            plain_matches(checked_step(instr, old(self).state(), ip, 0), ip, old(self).state(), final(self).state(), r),
            final(self).program == old(self).program,
            final(self).registers@.len() == REGISTER_COUNT,
    {
        let (dst, src) = instr.expect2()?;
        let dst = self.get_register(dst)?;
        let value = self.get_value(src)?;
        self.registers.set(dst, value ^ SIGN_BIT);
        Ok(())
    }

    /// `AND`, `OR`, `XOR`, `SHL`, `SHR`, `SAR dst, src1, src2` and `NOT dst, src`.
    fn bitwise(&mut self, instr: Instruction, Ghost(ip): Ghost<int>) -> (r: Result<(), VMError>)
        requires
            instr.opcode is AND || instr.opcode is OR || instr.opcode is XOR || instr.opcode is NOT
                || instr.opcode is SHL || instr.opcode is SHR || instr.opcode is SAR,
            can_execute(*old(self), instr),
        ensures
            plain_matches(checked_step(instr, old(self).state(), ip, 0), ip, old(self).state(), final(self).state(), r),
            final(self).program == old(self).program,
            final(self).registers@.len() == REGISTER_COUNT,
    {
        if matches!(instr.opcode, OperationCode::NOT) {
            let (dst, src) = instr.expect2()?;
            let dst = self.get_register(dst)?;
            let value = self.get_value(src)?;
            self.registers.set(dst, !value);
            return Ok(());
        }
        let (dst, src1, src2) = instr.expect3()?;
        let dst = self.get_register(dst)?;
        let lhs = self.get_value(src1)?;
        let rhs = self.get_value(src2)?;
        let v = match instr.opcode {
            OperationCode::AND => lhs & rhs,
            OperationCode::OR => lhs | rhs,
            OperationCode::XOR => lhs ^ rhs,
            OperationCode::SHL => lhs.wrapping_shl(rhs as u32),
            OperationCode::SHR => lhs.wrapping_shr(rhs as u32),
            _ => ((lhs as i64).wrapping_shr(rhs as u32)) as u64,
        };
        self.registers.set(dst, v);
        Ok(())
    }

    /// The integer comparisons `IEQ` .. `UGE dst, src1, src2`: `1` if the
    /// relation holds, else `0`.
    fn int_compare(&mut self, instr: Instruction, Ghost(ip): Ghost<int>) -> (r: Result<(), VMError>)
        requires
            instr.opcode is IEQ || instr.opcode is INE || instr.opcode is SLT || instr.opcode is SLE
                || instr.opcode is SGT || instr.opcode is SGE || instr.opcode is ULT
                || instr.opcode is ULE || instr.opcode is UGT || instr.opcode is UGE,
            can_execute(*old(self), instr),
        ensures
            plain_matches(checked_step(instr, old(self).state(), ip, 0), ip, old(self).state(), final(self).state(), r),
            final(self).program == old(self).program,
            final(self).registers@.len() == REGISTER_COUNT,
    {
        let (dst, src1, src2) = instr.expect3()?;
        let dst = self.get_register(dst)?;
        let lhs = self.get_value(src1)?;
        let rhs = self.get_value(src2)?;
        let holds = match instr.opcode {
            OperationCode::IEQ => lhs == rhs,
            OperationCode::INE => lhs != rhs,
            OperationCode::SLT => (lhs as i64) < (rhs as i64),
            OperationCode::SLE => (lhs as i64) <= (rhs as i64),
            OperationCode::SGT => (lhs as i64) > (rhs as i64),
            OperationCode::SGE => (lhs as i64) >= (rhs as i64),
            OperationCode::ULT => lhs < rhs,
            OperationCode::ULE => lhs <= rhs,
            OperationCode::UGT => lhs > rhs,
            _ => lhs >= rhs,
        };
        self.registers.set(dst, if holds { 1 } else { 0 });
        Ok(())
    }

    /// The floating-point comparisons `FEQ` .. `FGE dst, src1, src2`: `1` if
    /// the unit answers (non-zero) that the relation holds, else `0`. The
    /// second result is the unit's answer.
    fn float_compare<F: Fn(FloatQuery) -> u64>(&mut self, instr: Instruction, fpu: &F, Ghost(ip): Ghost<int>) -> (r: (
        Result<(), VMError>,
        Ghost<u64>,
    ))
        requires
            instr.opcode is FEQ || instr.opcode is FNE || instr.opcode is FLT || instr.opcode is FLE
                || instr.opcode is FGT || instr.opcode is FGE,
            can_execute(*old(self), instr),
            always_answers(*fpu),
        ensures
            plain_matches(checked_step(instr, old(self).state(), ip, r.1@), ip, old(self).state(), final(self).state(), r.0),
            match_check(instr) is Some ==> r.1@ == 0,
            match_check(instr) is None ==> call_ensures(*fpu, (float_query(instr, old(self).state()),), r.1@),
            final(self).program == old(self).program,
            final(self).registers@.len() == REGISTER_COUNT,
    {
        let (dst, src1, src2) = match instr.expect3() {
            Ok(t) => t,
            Err(e) => return (Err(e), Ghost(0)),
        };
        let dst = match self.get_register(dst) {
            Ok(d) => d,
            Err(e) => return (Err(e), Ghost(0)),
        };
        let lhs = match self.get_value(src1) {
            Ok(v) => v,
            Err(e) => return (Err(e), Ghost(0)),
        };
        let rhs = match self.get_value(src2) {
            Ok(v) => v,
            Err(e) => return (Err(e), Ghost(0)),
        };
        let answer = fpu(FloatQuery::Compare(float_comparison_of(instr.opcode), lhs, rhs));
        let x: u64 = if answer != 0 { 1 } else { 0 };
        self.registers.set(dst, x);
        (Ok(()), Ghost(answer))
    }

    /// The jumps `JMP`, `JZ`, `JNZ`, `CALL` and `RET`. Returns whether `ip`
    /// was set to a jump target; `CALL` saves the index of the next
    /// instruction as the return address.
    fn jump(&mut self, instr: Instruction, ip: &mut usize) -> (r: Result<bool, VMError>)
        requires
            instr.opcode is JMP || instr.opcode is JZ || instr.opcode is JNZ || instr.opcode is CALL
                || instr.opcode is RET,
            can_execute(*old(self), instr),
            *old(ip) < usize::MAX,
        ensures
            final(self).program == old(self).program,
            final(self).registers@.len() == REGISTER_COUNT,
            match checked_step(instr, old(self).state(), *old(ip) as int, 0) {
                Step::Goto(s2, n) => final(self).state() == s2 && r == Ok::<bool, VMError>(
                    jump_taken(instr, old(self).state()),
                ) && (jump_taken(instr, old(self).state()) ==> *final(ip) as int == n) && (!jump_taken(
                    instr,
                    old(self).state(),
                ) ==> n == *old(ip) + 1 && *final(ip) == *old(ip)),
                Step::Halt(_) => false,
                Step::Fault(k) => r == Err::<bool, VMError>(VMError { kind: k }) && final(self).state()
                    == old(self).state() && *final(ip) == *old(ip),
            },
    {
        let mut jumped = false;
        match instr.opcode {
            OperationCode::JMP => {
                let offset = instr.expect1()?;
                *ip = self.get_value(offset)? as usize;
                jumped = true;
            },
            OperationCode::JZ => {
                let (value, offset) = instr.expect2()?;
                if self.get_value(value)? == 0 {
                    *ip = self.get_value(offset)? as usize;
                    jumped = true;
                }
            },
            OperationCode::JNZ => {
                let (value, offset) = instr.expect2()?;
                if self.get_value(value)? != 0 {
                    *ip = self.get_value(offset)? as usize;
                    jumped = true;
                }
            },
            OperationCode::CALL => {
                let offset = instr.expect1()?;
                self.call_stack.push(*ip + 1);
                *ip = self.get_value(offset)? as usize;
                jumped = true;
            },
            _ => {
                if instr.operand_count() != 0 {
                    return Err(
                        VMError::new(
                            VMErrorKind::IncorrectNumberOfOperands {
                                expected: 0,
                                got: instr.operand_count() as u8,
                            },
                        ),
                    );
                }
                match self.call_stack.pop() {
                    Some(a) => {
                        *ip = a;
                    },
                    None => {
                        return Err(VMError::new(VMErrorKind::EmptyCallStack));
                    },
                }
                jumped = true;
            },
        }
        Ok(jumped)
    }
}

} // verus!
