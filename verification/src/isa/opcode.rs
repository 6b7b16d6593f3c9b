//! Operation codes of the virtual machine.
//!
//! An opcode is the byte of an instruction that selects the operation. In the
//! documentation below, `dst` is the destination operand, `src1` and `src2`
//! the source operands.
use vstd::prelude::*;
use vstd::string::*;

use crate::isa::err::{ISAError, ISAErrorKind};
use crate::text::{decimal, decimal_string};

verus! {

/// The operation codes, in the order of their byte values.
#[derive(Debug, Clone, Copy)]
pub enum OperationCode {
    /// Does nothing.
    ///
    /// ```text
    /// NOP
    /// ```
    NOP,

    /// Stops the machine.
    ///
    /// ```text
    /// EXIT
    /// ```
    EXIT,

    /// Copies the value of `src1` into the register `dst`.
    ///
    /// ```text
    /// MOVE <dst>, <src1>
    /// ```
    MOVE,

    /// Loads 8 bits from the address in `src1` into the register `dst`.
    ///
    /// ```text
    /// LOAD8 <dst>, <src1>
    /// ```
    LOAD8,

    /// Loads 16 bits from the address in `src1` into the register `dst`.
    ///
    /// ```text
    /// LOAD16 <dst>, <src1>
    /// ```
    LOAD16,

    /// Loads 32 bits from the address in `src1` into the register `dst`.
    ///
    /// ```text
    /// LOAD32 <dst>, <src1>
    /// ```
    LOAD32,

    /// Loads 64 bits from the address in `src1` into the register `dst`.
    ///
    /// ```text
    /// LOAD64 <dst>, <src1>
    /// ```
    LOAD64,

    /// Stores the low 8 bits of `src1` at the address in `dst`.
    ///
    /// ```text
    /// STORE8 <dst>, <src1>
    /// ```
    STORE8,

    /// Stores the low 16 bits of `src1` at the address in `dst`.
    ///
    /// ```text
    /// STORE16 <dst>, <src1>
    /// ```
    STORE16,

    /// Stores the low 32 bits of `src1` at the address in `dst`.
    ///
    /// ```text
    /// STORE32 <dst>, <src1>
    /// ```
    STORE32,

    /// Stores the low 64 bits of `src1` at the address in `dst`.
    ///
    /// ```text
    /// STORE64 <dst>, <src1>
    /// ```
    STORE64,

    /// Wrapping integer addition `src1 + src2`.
    ///
    /// ```text
    /// IADD <dst>, <src1>, <src2>
    /// ```
    IADD,

    /// Wrapping integer subtraction `src1 - src2`.
    ///
    /// ```text
    /// ISUB <dst>, <src1>, <src2>
    /// ```
    ISUB,

    /// Wrapping integer multiplication `src1 * src2`.
    ///
    /// ```text
    /// IMUL <dst>, <src1>, <src2>
    /// ```
    IMUL,

    /// Signed integer division `src1 / src2`.
    ///
    /// ```text
    /// SDIV <dst>, <src1>, <src2>
    /// ```
    SDIV,

    /// Unsigned integer division `src1 / src2`.
    ///
    /// ```text
    /// UDIV <dst>, <src1>, <src2>
    /// ```
    UDIV,

    /// Signed remainder `src1 % src2`.
    ///
    /// ```text
    /// SREM <dst>, <src1>, <src2>
    /// ```
    SREM,

    /// Unsigned remainder `src1 % src2`.
    ///
    /// ```text
    /// UREM <dst>, <src1>, <src2>
    /// ```
    UREM,

    /// Integer negation (wrapping).
    ///
    /// ```text
    /// INEG <dst>, <src1>
    /// ```
    INEG,

    /// Floating-point addition.
    ///
    /// ```text
    /// FADD <dst>, <src1>, <src2>
    /// ```
    FADD,

    /// Floating-point subtraction.
    ///
    /// ```text
    /// FSUB <dst>, <src1>, <src2>
    /// ```
    FSUB,

    /// Floating-point multiplication.
    ///
    /// ```text
    /// FMUL <dst>, <src1>, <src2>
    /// ```
    FMUL,

    /// Floating-point division.
    ///
    /// ```text
    /// FDIV <dst>, <src1>, <src2>
    /// ```
    FDIV,

    /// Floating-point remainder.
    ///
    /// ```text
    /// FREM <dst>, <src1>, <src2>
    /// ```
    FREM,

    /// Floating-point negation.
    ///
    /// ```text
    /// FNEG <dst>, <src1>
    /// ```
    FNEG,

    /// Bitwise AND.
    ///
    /// ```text
    /// AND <dst>, <src1>, <src2>
    /// ```
    AND,

    /// Bitwise OR.
    ///
    /// ```text
    /// OR <dst>, <src1>, <src2>
    /// ```
    OR,

    /// Bitwise exclusive OR.
    ///
    /// ```text
    /// XOR <dst>, <src1>, <src2>
    /// ```
    XOR,

    /// Bitwise NOT.
    ///
    /// ```text
    /// NOT <dst>, <src1>
    /// ```
    NOT,

    /// Logical shift left.
    ///
    /// ```text
    /// SHL <dst>, <src1>, <src2>
    /// ```
    SHL,

    /// Logical shift right.
    ///
    /// ```text
    /// SHR <dst>, <src1>, <src2>
    /// ```
    SHR,

    /// Arithmetic shift right.
    ///
    /// ```text
    /// SAR <dst>, <src1>, <src2>
    /// ```
    SAR,

    /// Writes 1 to `dst` if `src1 == src2`, else 0.
    ///
    /// ```text
    /// IEQ <dst>, <src1>, <src2>
    /// ```
    IEQ,

    /// Integer inequality test.
    ///
    /// ```text
    /// INE <dst>, <src1>, <src2>
    /// ```
    INE,

    /// Signed less-than test.
    ///
    /// ```text
    /// SLT <dst>, <src1>, <src2>
    /// ```
    SLT,

    /// Signed less-or-equal test.
    ///
    /// ```text
    /// SLE <dst>, <src1>, <src2>
    /// ```
    SLE,

    /// Signed greater-than test.
    ///
    /// ```text
    /// SGT <dst>, <src1>, <src2>
    /// ```
    SGT,

    /// Signed greater-or-equal test.
    ///
    /// ```text
    /// SGE <dst>, <src1>, <src2>
    /// ```
    SGE,

    /// Unsigned less-than test.
    ///
    /// ```text
    /// ULT <dst>, <src1>, <src2>
    /// ```
    ULT,

    /// Unsigned less-or-equal test.
    ///
    /// ```text
    /// ULE <dst>, <src1>, <src2>
    /// ```
    ULE,

    /// Unsigned greater-than test.
    ///
    /// ```text
    /// UGT <dst>, <src1>, <src2>
    /// ```
    UGT,

    /// Unsigned greater-or-equal test.
    ///
    /// ```text
    /// UGE <dst>, <src1>, <src2>
    /// ```
    UGE,

    /// Floating-point equality test.
    ///
    /// ```text
    /// FEQ <dst>, <src1>, <src2>
    /// ```
    FEQ,

    /// Floating-point inequality test.
    ///
    /// ```text
    /// FNE <dst>, <src1>, <src2>
    /// ```
    FNE,

    /// Floating-point less-than test.
    ///
    /// ```text
    /// FLT <dst>, <src1>, <src2>
    /// ```
    FLT,

    /// Floating-point less-or-equal test.
    ///
    /// ```text
    /// FLE <dst>, <src1>, <src2>
    /// ```
    FLE,

    /// Floating-point greater-than test.
    ///
    /// ```text
    /// FGT <dst>, <src1>, <src2>
    /// ```
    FGT,

    /// Floating-point greater-or-equal test.
    ///
    /// ```text
    /// FGE <dst>, <src1>, <src2>
    /// ```
    FGE,

    /// Unconditional jump to the instruction with index `target`.
    ///
    /// ```text
    /// JMP <target>
    /// ```
    JMP,

    /// Jumps to `target` if `src1 == 0`.
    ///
    /// ```text
    /// JZ <src1>, <target>
    /// ```
    JZ,

    /// Jumps to `target` if `src1 != 0`.
    ///
    /// ```text
    /// JNZ <src1>, <target>
    /// ```
    JNZ,

    /// Calls the subroutine at `target`, saving the return address.
    ///
    /// ```text
    /// CALL <target>
    /// ```
    CALL,

    /// Returns from a subroutine to the saved address.
    ///
    /// ```text
    /// RET
    /// ```
    RET,
}

/// The number of operation codes; every byte below it names one.
pub const OPCODE_COUNT: u8 = 53;

impl OperationCode {
    /// The byte value of the opcode.
    pub open spec fn byte_of(self) -> u8 {
        match self {
            OperationCode::NOP => 0,
            OperationCode::EXIT => 1,
            OperationCode::MOVE => 2,
            OperationCode::LOAD8 => 3,
            OperationCode::LOAD16 => 4,
            OperationCode::LOAD32 => 5,
            OperationCode::LOAD64 => 6,
            OperationCode::STORE8 => 7,
            OperationCode::STORE16 => 8,
            OperationCode::STORE32 => 9,
            OperationCode::STORE64 => 10,
            OperationCode::IADD => 11,
            OperationCode::ISUB => 12,
            OperationCode::IMUL => 13,
            OperationCode::SDIV => 14,
            OperationCode::UDIV => 15,
            OperationCode::SREM => 16,
            OperationCode::UREM => 17,
            OperationCode::INEG => 18,
            OperationCode::FADD => 19,
            OperationCode::FSUB => 20,
            OperationCode::FMUL => 21,
            OperationCode::FDIV => 22,
            OperationCode::FREM => 23,
            OperationCode::FNEG => 24,
            OperationCode::AND => 25,
            OperationCode::OR => 26,
            OperationCode::XOR => 27,
            OperationCode::NOT => 28,
            OperationCode::SHL => 29,
            OperationCode::SHR => 30,
            OperationCode::SAR => 31,
            OperationCode::IEQ => 32,
            OperationCode::INE => 33,
            OperationCode::SLT => 34,
            OperationCode::SLE => 35,
            OperationCode::SGT => 36,
            OperationCode::SGE => 37,
            OperationCode::ULT => 38,
            OperationCode::ULE => 39,
            OperationCode::UGT => 40,
            OperationCode::UGE => 41,
            OperationCode::FEQ => 42,
            OperationCode::FNE => 43,
            OperationCode::FLT => 44,
            OperationCode::FLE => 45,
            OperationCode::FGT => 46,
            OperationCode::FGE => 47,
            OperationCode::JMP => 48,
            OperationCode::JZ => 49,
            OperationCode::JNZ => 50,
            OperationCode::CALL => 51,
            OperationCode::RET => 52,
        }
    }

    /// The opcode with byte value `b`, if there is one.
    pub open spec fn of_byte(b: u8) -> Option<OperationCode> {
        if b == 0 {
            Some(OperationCode::NOP)
        } else if b == 1 {
            Some(OperationCode::EXIT)
        } else if b == 2 {
            Some(OperationCode::MOVE)
        } else if b == 3 {
            Some(OperationCode::LOAD8)
        } else if b == 4 {
            Some(OperationCode::LOAD16)
        } else if b == 5 {
            Some(OperationCode::LOAD32)
        } else if b == 6 {
            Some(OperationCode::LOAD64)
        } else if b == 7 {
            Some(OperationCode::STORE8)
        } else if b == 8 {
            Some(OperationCode::STORE16)
        } else if b == 9 {
            Some(OperationCode::STORE32)
        } else if b == 10 {
            Some(OperationCode::STORE64)
        } else if b == 11 {
            Some(OperationCode::IADD)
        } else if b == 12 {
            Some(OperationCode::ISUB)
        } else if b == 13 {
            Some(OperationCode::IMUL)
        } else if b == 14 {
            Some(OperationCode::SDIV)
        } else if b == 15 {
            Some(OperationCode::UDIV)
        } else if b == 16 {
            Some(OperationCode::SREM)
        } else if b == 17 {
            Some(OperationCode::UREM)
        } else if b == 18 {
            Some(OperationCode::INEG)
        } else if b == 19 {
            Some(OperationCode::FADD)
        } else if b == 20 {
            Some(OperationCode::FSUB)
        } else if b == 21 {
            Some(OperationCode::FMUL)
        } else if b == 22 {
            Some(OperationCode::FDIV)
        } else if b == 23 {
            Some(OperationCode::FREM)
        } else if b == 24 {
            Some(OperationCode::FNEG)
        } else if b == 25 {
            Some(OperationCode::AND)
        } else if b == 26 {
            Some(OperationCode::OR)
        } else if b == 27 {
            Some(OperationCode::XOR)
        } else if b == 28 {
            Some(OperationCode::NOT)
        } else if b == 29 {
            Some(OperationCode::SHL)
        } else if b == 30 {
            Some(OperationCode::SHR)
        } else if b == 31 {
            Some(OperationCode::SAR)
        } else if b == 32 {
            Some(OperationCode::IEQ)
        } else if b == 33 {
            Some(OperationCode::INE)
        } else if b == 34 {
            Some(OperationCode::SLT)
        } else if b == 35 {
            Some(OperationCode::SLE)
        } else if b == 36 {
            Some(OperationCode::SGT)
        } else if b == 37 {
            Some(OperationCode::SGE)
        } else if b == 38 {
            Some(OperationCode::ULT)
        } else if b == 39 {
            Some(OperationCode::ULE)
        } else if b == 40 {
            Some(OperationCode::UGT)
        } else if b == 41 {
            Some(OperationCode::UGE)
        } else if b == 42 {
            Some(OperationCode::FEQ)
        } else if b == 43 {
            Some(OperationCode::FNE)
        } else if b == 44 {
            Some(OperationCode::FLT)
        } else if b == 45 {
            Some(OperationCode::FLE)
        } else if b == 46 {
            Some(OperationCode::FGT)
        } else if b == 47 {
            Some(OperationCode::FGE)
        } else if b == 48 {
            Some(OperationCode::JMP)
        } else if b == 49 {
            Some(OperationCode::JZ)
        } else if b == 50 {
            Some(OperationCode::JNZ)
        } else if b == 51 {
            Some(OperationCode::CALL)
        } else if b == 52 {
            Some(OperationCode::RET)
        } else {
            None
        }
    }

    /// The mnemonic of the opcode, in upper case.
    pub open spec fn mnemonic_of(self) -> Seq<char> {
        match self {
            OperationCode::NOP => seq!['N', 'O', 'P'],
            OperationCode::EXIT => seq!['E', 'X', 'I', 'T'],
            OperationCode::MOVE => seq!['M', 'O', 'V', 'E'],
            OperationCode::LOAD8 => seq!['L', 'O', 'A', 'D', '8'],
            OperationCode::LOAD16 => seq!['L', 'O', 'A', 'D', '1', '6'],
            OperationCode::LOAD32 => seq!['L', 'O', 'A', 'D', '3', '2'],
            OperationCode::LOAD64 => seq!['L', 'O', 'A', 'D', '6', '4'],
            OperationCode::STORE8 => seq!['S', 'T', 'O', 'R', 'E', '8'],
            OperationCode::STORE16 => seq!['S', 'T', 'O', 'R', 'E', '1', '6'],
            OperationCode::STORE32 => seq!['S', 'T', 'O', 'R', 'E', '3', '2'],
            OperationCode::STORE64 => seq!['S', 'T', 'O', 'R', 'E', '6', '4'],
            OperationCode::IADD => seq!['I', 'A', 'D', 'D'],
            OperationCode::ISUB => seq!['I', 'S', 'U', 'B'],
            OperationCode::IMUL => seq!['I', 'M', 'U', 'L'],
            OperationCode::SDIV => seq!['S', 'D', 'I', 'V'],
            OperationCode::UDIV => seq!['U', 'D', 'I', 'V'],
            OperationCode::SREM => seq!['S', 'R', 'E', 'M'],
            OperationCode::UREM => seq!['U', 'R', 'E', 'M'],
            OperationCode::INEG => seq!['I', 'N', 'E', 'G'],
            OperationCode::FADD => seq!['F', 'A', 'D', 'D'],
            OperationCode::FSUB => seq!['F', 'S', 'U', 'B'],
            OperationCode::FMUL => seq!['F', 'M', 'U', 'L'],
            OperationCode::FDIV => seq!['F', 'D', 'I', 'V'],
            OperationCode::FREM => seq!['F', 'R', 'E', 'M'],
            OperationCode::FNEG => seq!['F', 'N', 'E', 'G'],
            OperationCode::AND => seq!['A', 'N', 'D'],
            OperationCode::OR => seq!['O', 'R'],
            OperationCode::XOR => seq!['X', 'O', 'R'],
            OperationCode::NOT => seq!['N', 'O', 'T'],
            OperationCode::SHL => seq!['S', 'H', 'L'],
            OperationCode::SHR => seq!['S', 'H', 'R'],
            OperationCode::SAR => seq!['S', 'A', 'R'],
            OperationCode::IEQ => seq!['I', 'E', 'Q'],
            OperationCode::INE => seq!['I', 'N', 'E'],
            OperationCode::SLT => seq!['S', 'L', 'T'],
            OperationCode::SLE => seq!['S', 'L', 'E'],
            OperationCode::SGT => seq!['S', 'G', 'T'],
            OperationCode::SGE => seq!['S', 'G', 'E'],
            OperationCode::ULT => seq!['U', 'L', 'T'],
            OperationCode::ULE => seq!['U', 'L', 'E'],
            OperationCode::UGT => seq!['U', 'G', 'T'],
            OperationCode::UGE => seq!['U', 'G', 'E'],
            OperationCode::FEQ => seq!['F', 'E', 'Q'],
            OperationCode::FNE => seq!['F', 'N', 'E'],
            OperationCode::FLT => seq!['F', 'L', 'T'],
            OperationCode::FLE => seq!['F', 'L', 'E'],
            OperationCode::FGT => seq!['F', 'G', 'T'],
            OperationCode::FGE => seq!['F', 'G', 'E'],
            OperationCode::JMP => seq!['J', 'M', 'P'],
            OperationCode::JZ => seq!['J', 'Z'],
            OperationCode::JNZ => seq!['J', 'N', 'Z'],
            OperationCode::CALL => seq!['C', 'A', 'L', 'L'],
            OperationCode::RET => seq!['R', 'E', 'T'],
        }
    }

    /// The byte value of the opcode.
    pub fn to_byte(&self) -> (b: u8)
        ensures
            b == self.byte_of(),
            b < OPCODE_COUNT,
    {
        match self {
            OperationCode::NOP => 0,
            OperationCode::EXIT => 1,
            OperationCode::MOVE => 2,
            OperationCode::LOAD8 => 3,
            OperationCode::LOAD16 => 4,
            OperationCode::LOAD32 => 5,
            OperationCode::LOAD64 => 6,
            OperationCode::STORE8 => 7,
            OperationCode::STORE16 => 8,
            OperationCode::STORE32 => 9,
            OperationCode::STORE64 => 10,
            OperationCode::IADD => 11,
            OperationCode::ISUB => 12,
            OperationCode::IMUL => 13,
            OperationCode::SDIV => 14,
            OperationCode::UDIV => 15,
            OperationCode::SREM => 16,
            OperationCode::UREM => 17,
            OperationCode::INEG => 18,
            OperationCode::FADD => 19,
            OperationCode::FSUB => 20,
            OperationCode::FMUL => 21,
            OperationCode::FDIV => 22,
            OperationCode::FREM => 23,
            OperationCode::FNEG => 24,
            OperationCode::AND => 25,
            OperationCode::OR => 26,
            OperationCode::XOR => 27,
            OperationCode::NOT => 28,
            OperationCode::SHL => 29,
            OperationCode::SHR => 30,
            OperationCode::SAR => 31,
            OperationCode::IEQ => 32,
            OperationCode::INE => 33,
            OperationCode::SLT => 34,
            OperationCode::SLE => 35,
            OperationCode::SGT => 36,
            OperationCode::SGE => 37,
            OperationCode::ULT => 38,
            OperationCode::ULE => 39,
            OperationCode::UGT => 40,
            OperationCode::UGE => 41,
            OperationCode::FEQ => 42,
            OperationCode::FNE => 43,
            OperationCode::FLT => 44,
            OperationCode::FLE => 45,
            OperationCode::FGT => 46,
            OperationCode::FGE => 47,
            OperationCode::JMP => 48,
            OperationCode::JZ => 49,
            OperationCode::JNZ => 50,
            OperationCode::CALL => 51,
            OperationCode::RET => 52,
        }
    }

    /// The opcode with byte value `b`, if `b` names one.
    pub fn from_byte(b: u8) -> (r: Option<OperationCode>)
        ensures
            r == Self::of_byte(b),
            r is Some <==> b < OPCODE_COUNT,
            r matches Some(op) ==> op.byte_of() == b,
    {
        match b {
            0 => Some(OperationCode::NOP),
            1 => Some(OperationCode::EXIT),
            2 => Some(OperationCode::MOVE),
            3 => Some(OperationCode::LOAD8),
            4 => Some(OperationCode::LOAD16),
            5 => Some(OperationCode::LOAD32),
            6 => Some(OperationCode::LOAD64),
            7 => Some(OperationCode::STORE8),
            8 => Some(OperationCode::STORE16),
            9 => Some(OperationCode::STORE32),
            10 => Some(OperationCode::STORE64),
            11 => Some(OperationCode::IADD),
            12 => Some(OperationCode::ISUB),
            13 => Some(OperationCode::IMUL),
            14 => Some(OperationCode::SDIV),
            15 => Some(OperationCode::UDIV),
            16 => Some(OperationCode::SREM),
            17 => Some(OperationCode::UREM),
            18 => Some(OperationCode::INEG),
            19 => Some(OperationCode::FADD),
            20 => Some(OperationCode::FSUB),
            21 => Some(OperationCode::FMUL),
            22 => Some(OperationCode::FDIV),
            23 => Some(OperationCode::FREM),
            24 => Some(OperationCode::FNEG),
            25 => Some(OperationCode::AND),
            26 => Some(OperationCode::OR),
            27 => Some(OperationCode::XOR),
            28 => Some(OperationCode::NOT),
            29 => Some(OperationCode::SHL),
            30 => Some(OperationCode::SHR),
            31 => Some(OperationCode::SAR),
            32 => Some(OperationCode::IEQ),
            33 => Some(OperationCode::INE),
            34 => Some(OperationCode::SLT),
            35 => Some(OperationCode::SLE),
            36 => Some(OperationCode::SGT),
            37 => Some(OperationCode::SGE),
            38 => Some(OperationCode::ULT),
            39 => Some(OperationCode::ULE),
            40 => Some(OperationCode::UGT),
            41 => Some(OperationCode::UGE),
            42 => Some(OperationCode::FEQ),
            43 => Some(OperationCode::FNE),
            44 => Some(OperationCode::FLT),
            45 => Some(OperationCode::FLE),
            46 => Some(OperationCode::FGT),
            47 => Some(OperationCode::FGE),
            48 => Some(OperationCode::JMP),
            49 => Some(OperationCode::JZ),
            50 => Some(OperationCode::JNZ),
            51 => Some(OperationCode::CALL),
            52 => Some(OperationCode::RET),
            _ => None,
        }
    }

    /// The mnemonic of the opcode, in upper case.
    pub fn mnemonic(&self) -> (s: &'static str)
        ensures
            s@ == self.mnemonic_of(),
    {
        match self {
            OperationCode::NOP => {
                proof { reveal_strlit("NOP"); }
                let s = "NOP";
                assert(s@ =~= seq!['N', 'O', 'P']);
                s
            }
            OperationCode::EXIT => {
                proof { reveal_strlit("EXIT"); }
                let s = "EXIT";
                assert(s@ =~= seq!['E', 'X', 'I', 'T']);
                s
            }
            OperationCode::MOVE => {
                proof { reveal_strlit("MOVE"); }
                let s = "MOVE";
                assert(s@ =~= seq!['M', 'O', 'V', 'E']);
                s
            }
            OperationCode::LOAD8 => {
                proof { reveal_strlit("LOAD8"); }
                let s = "LOAD8";
                assert(s@ =~= seq!['L', 'O', 'A', 'D', '8']);
                s
            }
            OperationCode::LOAD16 => {
                proof { reveal_strlit("LOAD16"); }
                let s = "LOAD16";
                assert(s@ =~= seq!['L', 'O', 'A', 'D', '1', '6']);
                s
            }
            OperationCode::LOAD32 => {
                proof { reveal_strlit("LOAD32"); }
                let s = "LOAD32";
                assert(s@ =~= seq!['L', 'O', 'A', 'D', '3', '2']);
                s
            }
            OperationCode::LOAD64 => {
                proof { reveal_strlit("LOAD64"); }
                let s = "LOAD64";
                assert(s@ =~= seq!['L', 'O', 'A', 'D', '6', '4']);
                s
            }
            OperationCode::STORE8 => {
                proof { reveal_strlit("STORE8"); }
                let s = "STORE8";
                assert(s@ =~= seq!['S', 'T', 'O', 'R', 'E', '8']);
                s
            }
            OperationCode::STORE16 => {
                proof { reveal_strlit("STORE16"); }
                let s = "STORE16";
                assert(s@ =~= seq!['S', 'T', 'O', 'R', 'E', '1', '6']);
                s
            }
            OperationCode::STORE32 => {
                proof { reveal_strlit("STORE32"); }
                let s = "STORE32";
                assert(s@ =~= seq!['S', 'T', 'O', 'R', 'E', '3', '2']);
                s
            }
            OperationCode::STORE64 => {
                proof { reveal_strlit("STORE64"); }
                let s = "STORE64";
                assert(s@ =~= seq!['S', 'T', 'O', 'R', 'E', '6', '4']);
                s
            }
            OperationCode::IADD => {
                proof { reveal_strlit("IADD"); }
                let s = "IADD";
                assert(s@ =~= seq!['I', 'A', 'D', 'D']);
                s
            }
            OperationCode::ISUB => {
                proof { reveal_strlit("ISUB"); }
                let s = "ISUB";
                assert(s@ =~= seq!['I', 'S', 'U', 'B']);
                s
            }
            OperationCode::IMUL => {
                proof { reveal_strlit("IMUL"); }
                let s = "IMUL";
                assert(s@ =~= seq!['I', 'M', 'U', 'L']);
                s
            }
            OperationCode::SDIV => {
                proof { reveal_strlit("SDIV"); }
                let s = "SDIV";
                assert(s@ =~= seq!['S', 'D', 'I', 'V']);
                s
            }
            OperationCode::UDIV => {
                proof { reveal_strlit("UDIV"); }
                let s = "UDIV";
                assert(s@ =~= seq!['U', 'D', 'I', 'V']);
                s
            }
            OperationCode::SREM => {
                proof { reveal_strlit("SREM"); }
                let s = "SREM";
                assert(s@ =~= seq!['S', 'R', 'E', 'M']);
                s
            }
            OperationCode::UREM => {
                proof { reveal_strlit("UREM"); }
                let s = "UREM";
                assert(s@ =~= seq!['U', 'R', 'E', 'M']);
                s
            }
            OperationCode::INEG => {
                proof { reveal_strlit("INEG"); }
                let s = "INEG";
                assert(s@ =~= seq!['I', 'N', 'E', 'G']);
                s
            }
            OperationCode::FADD => {
                proof { reveal_strlit("FADD"); }
                let s = "FADD";
                assert(s@ =~= seq!['F', 'A', 'D', 'D']);
                s
            }
            OperationCode::FSUB => {
                proof { reveal_strlit("FSUB"); }
                let s = "FSUB";
                assert(s@ =~= seq!['F', 'S', 'U', 'B']);
                s
            }
            OperationCode::FMUL => {
                proof { reveal_strlit("FMUL"); }
                let s = "FMUL";
                assert(s@ =~= seq!['F', 'M', 'U', 'L']);
                s
            }
            OperationCode::FDIV => {
                proof { reveal_strlit("FDIV"); }
                let s = "FDIV";
                assert(s@ =~= seq!['F', 'D', 'I', 'V']);
                s
            }
            OperationCode::FREM => {
                proof { reveal_strlit("FREM"); }
                let s = "FREM";
                assert(s@ =~= seq!['F', 'R', 'E', 'M']);
                s
            }
            OperationCode::FNEG => {
                proof { reveal_strlit("FNEG"); }
                let s = "FNEG";
                assert(s@ =~= seq!['F', 'N', 'E', 'G']);
                s
            }
            OperationCode::AND => {
                proof { reveal_strlit("AND"); }
                let s = "AND";
                assert(s@ =~= seq!['A', 'N', 'D']);
                s
            }
            OperationCode::OR => {
                proof { reveal_strlit("OR"); }
                let s = "OR";
                assert(s@ =~= seq!['O', 'R']);
                s
            }
            OperationCode::XOR => {
                proof { reveal_strlit("XOR"); }
                let s = "XOR";
                assert(s@ =~= seq!['X', 'O', 'R']);
                s
            }
            OperationCode::NOT => {
                proof { reveal_strlit("NOT"); }
                let s = "NOT";
                assert(s@ =~= seq!['N', 'O', 'T']);
                s
            }
            OperationCode::SHL => {
                proof { reveal_strlit("SHL"); }
                let s = "SHL";
                assert(s@ =~= seq!['S', 'H', 'L']);
                s
            }
            OperationCode::SHR => {
                proof { reveal_strlit("SHR"); }
                let s = "SHR";
                assert(s@ =~= seq!['S', 'H', 'R']);
                s
            }
            OperationCode::SAR => {
                proof { reveal_strlit("SAR"); }
                let s = "SAR";
                assert(s@ =~= seq!['S', 'A', 'R']);
                s
            }
            OperationCode::IEQ => {
                proof { reveal_strlit("IEQ"); }
                let s = "IEQ";
                assert(s@ =~= seq!['I', 'E', 'Q']);
                s
            }
            OperationCode::INE => {
                proof { reveal_strlit("INE"); }
                let s = "INE";
                assert(s@ =~= seq!['I', 'N', 'E']);
                s
            }
            OperationCode::SLT => {
                proof { reveal_strlit("SLT"); }
                let s = "SLT";
                assert(s@ =~= seq!['S', 'L', 'T']);
                s
            }
            OperationCode::SLE => {
                proof { reveal_strlit("SLE"); }
                let s = "SLE";
                assert(s@ =~= seq!['S', 'L', 'E']);
                s
            }
            OperationCode::SGT => {
                proof { reveal_strlit("SGT"); }
                let s = "SGT";
                assert(s@ =~= seq!['S', 'G', 'T']);
                s
            }
            OperationCode::SGE => {
                proof { reveal_strlit("SGE"); }
                let s = "SGE";
                assert(s@ =~= seq!['S', 'G', 'E']);
                s
            }
            OperationCode::ULT => {
                proof { reveal_strlit("ULT"); }
                let s = "ULT";
                assert(s@ =~= seq!['U', 'L', 'T']);
                s
            }
            OperationCode::ULE => {
                proof { reveal_strlit("ULE"); }
                let s = "ULE";
                assert(s@ =~= seq!['U', 'L', 'E']);
                s
            }
            OperationCode::UGT => {
                proof { reveal_strlit("UGT"); }
                let s = "UGT";
                assert(s@ =~= seq!['U', 'G', 'T']);
                s
            }
            OperationCode::UGE => {
                proof { reveal_strlit("UGE"); }
                let s = "UGE";
                assert(s@ =~= seq!['U', 'G', 'E']);
                s
            }
            OperationCode::FEQ => {
                proof { reveal_strlit("FEQ"); }
                let s = "FEQ";
                assert(s@ =~= seq!['F', 'E', 'Q']);
                s
            }
            OperationCode::FNE => {
                proof { reveal_strlit("FNE"); }
                let s = "FNE";
                assert(s@ =~= seq!['F', 'N', 'E']);
                s
            }
            OperationCode::FLT => {
                proof { reveal_strlit("FLT"); }
                let s = "FLT";
                assert(s@ =~= seq!['F', 'L', 'T']);
                s
            }
            OperationCode::FLE => {
                proof { reveal_strlit("FLE"); }
                let s = "FLE";
                assert(s@ =~= seq!['F', 'L', 'E']);
                s
            }
            OperationCode::FGT => {
                proof { reveal_strlit("FGT"); }
                let s = "FGT";
                assert(s@ =~= seq!['F', 'G', 'T']);
                s
            }
            OperationCode::FGE => {
                proof { reveal_strlit("FGE"); }
                let s = "FGE";
                assert(s@ =~= seq!['F', 'G', 'E']);
                s
            }
            OperationCode::JMP => {
                proof { reveal_strlit("JMP"); }
                let s = "JMP";
                assert(s@ =~= seq!['J', 'M', 'P']);
                s
            }
            OperationCode::JZ => {
                proof { reveal_strlit("JZ"); }
                let s = "JZ";
                assert(s@ =~= seq!['J', 'Z']);
                s
            }
            OperationCode::JNZ => {
                proof { reveal_strlit("JNZ"); }
                let s = "JNZ";
                assert(s@ =~= seq!['J', 'N', 'Z']);
                s
            }
            OperationCode::CALL => {
                proof { reveal_strlit("CALL"); }
                let s = "CALL";
                assert(s@ =~= seq!['C', 'A', 'L', 'L']);
                s
            }
            OperationCode::RET => {
                proof { reveal_strlit("RET"); }
                let s = "RET";
                assert(s@ =~= seq!['R', 'E', 'T']);
                s
            }
        }
    }
}

/// The ASCII lower-case form of a character; other characters are unchanged.
pub open spec fn ascii_lower(c: char) -> char {
    if 'A' <= c && c <= 'Z' {
        ((c as int) + 32) as char
    } else {
        c
    }
}

/// The ASCII lower-case form of a text.
pub open spec fn ascii_lowercase(s: Seq<char>) -> Seq<char> {
    s.map_values(|c: char| ascii_lower(c))
}

/// Whether `a` and `b` are equal up to ASCII case.
pub fn eq_ignore_ascii_case(a: &str, b: &str) -> (r: bool)
    ensures
        r == (ascii_lowercase(a@) == ascii_lowercase(b@)),
{
    let la = a.unicode_len();
    let lb = b.unicode_len();
    if la != lb {
        assert(ascii_lowercase(a@).len() != ascii_lowercase(b@).len());
        return false;
    }
    let mut i: usize = 0;
    while i < la
        invariant
            la == a@.len(),
            lb == b@.len(),
            la == lb,
            i <= la,
            forall|j: int| 0 <= j < i ==> ascii_lower(a@[j]) == ascii_lower(b@[j]),
        decreases la - i,
    {
        let ca = a.get_char(i);
        let cb = b.get_char(i);
        let la_c: u32 = if 'A' <= ca && ca <= 'Z' { (ca as u32) + 32 } else { ca as u32 };
        let lb_c: u32 = if 'A' <= cb && cb <= 'Z' { (cb as u32) + 32 } else { cb as u32 };
        assert(la_c == ascii_lower(ca) as u32);
        assert(lb_c == ascii_lower(cb) as u32);
        if la_c != lb_c {
            assert(ascii_lowercase(a@)[i as int] != ascii_lowercase(b@)[i as int]);
            return false;
        }
        i = i + 1;
    }
    assert(ascii_lowercase(a@) =~= ascii_lowercase(b@));
    true
}

/// The opcode whose mnemonic, in lower case, is `s`.
pub open spec fn of_lower_mnemonic(s: Seq<char>) -> Option<OperationCode> {
    if s == seq!['n', 'o', 'p'] {
        Some(OperationCode::NOP)
    } else if s == seq!['e', 'x', 'i', 't'] {
        Some(OperationCode::EXIT)
    } else if s == seq!['m', 'o', 'v', 'e'] {
        Some(OperationCode::MOVE)
    } else if s == seq!['l', 'o', 'a', 'd', '8'] {
        Some(OperationCode::LOAD8)
    } else if s == seq!['l', 'o', 'a', 'd', '1', '6'] {
        Some(OperationCode::LOAD16)
    } else if s == seq!['l', 'o', 'a', 'd', '3', '2'] {
        Some(OperationCode::LOAD32)
    } else if s == seq!['l', 'o', 'a', 'd', '6', '4'] {
        Some(OperationCode::LOAD64)
    } else if s == seq!['s', 't', 'o', 'r', 'e', '8'] {
        Some(OperationCode::STORE8)
    } else if s == seq!['s', 't', 'o', 'r', 'e', '1', '6'] {
        Some(OperationCode::STORE16)
    } else if s == seq!['s', 't', 'o', 'r', 'e', '3', '2'] {
        Some(OperationCode::STORE32)
    } else if s == seq!['s', 't', 'o', 'r', 'e', '6', '4'] {
        Some(OperationCode::STORE64)
    } else if s == seq!['i', 'a', 'd', 'd'] {
        Some(OperationCode::IADD)
    } else if s == seq!['i', 's', 'u', 'b'] {
        Some(OperationCode::ISUB)
    } else if s == seq!['i', 'm', 'u', 'l'] {
        Some(OperationCode::IMUL)
    } else if s == seq!['s', 'd', 'i', 'v'] {
        Some(OperationCode::SDIV)
    } else if s == seq!['u', 'd', 'i', 'v'] {
        Some(OperationCode::UDIV)
    } else if s == seq!['s', 'r', 'e', 'm'] {
        Some(OperationCode::SREM)
    } else if s == seq!['u', 'r', 'e', 'm'] {
        Some(OperationCode::UREM)
    } else if s == seq!['i', 'n', 'e', 'g'] {
        Some(OperationCode::INEG)
    } else if s == seq!['f', 'a', 'd', 'd'] {
        Some(OperationCode::FADD)
    } else if s == seq!['f', 's', 'u', 'b'] {
        Some(OperationCode::FSUB)
    } else if s == seq!['f', 'm', 'u', 'l'] {
        Some(OperationCode::FMUL)
    } else if s == seq!['f', 'd', 'i', 'v'] {
        Some(OperationCode::FDIV)
    } else if s == seq!['f', 'r', 'e', 'm'] {
        Some(OperationCode::FREM)
    } else if s == seq!['f', 'n', 'e', 'g'] {
        Some(OperationCode::FNEG)
    } else if s == seq!['a', 'n', 'd'] {
        Some(OperationCode::AND)
    } else if s == seq!['o', 'r'] {
        Some(OperationCode::OR)
    } else if s == seq!['x', 'o', 'r'] {
        Some(OperationCode::XOR)
    } else if s == seq!['n', 'o', 't'] {
        Some(OperationCode::NOT)
    } else if s == seq!['s', 'h', 'l'] {
        Some(OperationCode::SHL)
    } else if s == seq!['s', 'h', 'r'] {
        Some(OperationCode::SHR)
    } else if s == seq!['s', 'a', 'r'] {
        Some(OperationCode::SAR)
    } else if s == seq!['i', 'e', 'q'] {
        Some(OperationCode::IEQ)
    } else if s == seq!['i', 'n', 'e'] {
        Some(OperationCode::INE)
    } else if s == seq!['s', 'l', 't'] {
        Some(OperationCode::SLT)
    } else if s == seq!['s', 'l', 'e'] {
        Some(OperationCode::SLE)
    } else if s == seq!['s', 'g', 't'] {
        Some(OperationCode::SGT)
    } else if s == seq!['s', 'g', 'e'] {
        Some(OperationCode::SGE)
    } else if s == seq!['u', 'l', 't'] {
        Some(OperationCode::ULT)
    } else if s == seq!['u', 'l', 'e'] {
        Some(OperationCode::ULE)
    } else if s == seq!['u', 'g', 't'] {
        Some(OperationCode::UGT)
    } else if s == seq!['u', 'g', 'e'] {
        Some(OperationCode::UGE)
    } else if s == seq!['f', 'e', 'q'] {
        Some(OperationCode::FEQ)
    } else if s == seq!['f', 'n', 'e'] {
        Some(OperationCode::FNE)
    } else if s == seq!['f', 'l', 't'] {
        Some(OperationCode::FLT)
    } else if s == seq!['f', 'l', 'e'] {
        Some(OperationCode::FLE)
    } else if s == seq!['f', 'g', 't'] {
        Some(OperationCode::FGT)
    } else if s == seq!['f', 'g', 'e'] {
        Some(OperationCode::FGE)
    } else if s == seq!['j', 'm', 'p'] {
        Some(OperationCode::JMP)
    } else if s == seq!['j', 'z'] {
        Some(OperationCode::JZ)
    } else if s == seq!['j', 'n', 'z'] {
        Some(OperationCode::JNZ)
    } else if s == seq!['c', 'a', 'l', 'l'] {
        Some(OperationCode::CALL)
    } else if s == seq!['r', 'e', 't'] {
        Some(OperationCode::RET)
    } else {
        None
    }
}

impl OperationCode {
    /// The lower-case mnemonic of every opcode names that opcode.
    pub proof fn lemma_lower_mnemonic(op: OperationCode)
        ensures
            of_lower_mnemonic(ascii_lowercase(op.mnemonic_of())) == Some(op),
    {
        match op {
            OperationCode::NOP => {
                assert(ascii_lowercase(OperationCode::NOP.mnemonic_of()) =~= seq!['n', 'o', 'p']);
            },
            OperationCode::EXIT => {
                assert(ascii_lowercase(OperationCode::EXIT.mnemonic_of()) =~= seq!['e', 'x', 'i', 't']);
            },
            OperationCode::MOVE => {
                assert(ascii_lowercase(OperationCode::MOVE.mnemonic_of()) =~= seq!['m', 'o', 'v', 'e']);
            },
            OperationCode::LOAD8 => {
                assert(ascii_lowercase(OperationCode::LOAD8.mnemonic_of()) =~= seq!['l', 'o', 'a', 'd', '8']);
            },
            OperationCode::LOAD16 => {
                assert(ascii_lowercase(OperationCode::LOAD16.mnemonic_of()) =~= seq!['l', 'o', 'a', 'd', '1', '6']);
            },
            OperationCode::LOAD32 => {
                assert(ascii_lowercase(OperationCode::LOAD32.mnemonic_of()) =~= seq!['l', 'o', 'a', 'd', '3', '2']);
            },
            OperationCode::LOAD64 => {
                assert(ascii_lowercase(OperationCode::LOAD64.mnemonic_of()) =~= seq!['l', 'o', 'a', 'd', '6', '4']);
            },
            OperationCode::STORE8 => {
                assert(ascii_lowercase(OperationCode::STORE8.mnemonic_of()) =~= seq!['s', 't', 'o', 'r', 'e', '8']);
            },
            OperationCode::STORE16 => {
                assert(ascii_lowercase(OperationCode::STORE16.mnemonic_of()) =~= seq!['s', 't', 'o', 'r', 'e', '1', '6']);
            },
            OperationCode::STORE32 => {
                assert(ascii_lowercase(OperationCode::STORE32.mnemonic_of()) =~= seq!['s', 't', 'o', 'r', 'e', '3', '2']);
            },
            OperationCode::STORE64 => {
                assert(ascii_lowercase(OperationCode::STORE64.mnemonic_of()) =~= seq!['s', 't', 'o', 'r', 'e', '6', '4']);
            },
            OperationCode::IADD => {
                assert(ascii_lowercase(OperationCode::IADD.mnemonic_of()) =~= seq!['i', 'a', 'd', 'd']);
            },
            OperationCode::ISUB => {
                assert(ascii_lowercase(OperationCode::ISUB.mnemonic_of()) =~= seq!['i', 's', 'u', 'b']);
            },
            OperationCode::IMUL => {
                assert(ascii_lowercase(OperationCode::IMUL.mnemonic_of()) =~= seq!['i', 'm', 'u', 'l']);
            },
            OperationCode::SDIV => {
                assert(ascii_lowercase(OperationCode::SDIV.mnemonic_of()) =~= seq!['s', 'd', 'i', 'v']);
            },
            OperationCode::UDIV => {
                assert(ascii_lowercase(OperationCode::UDIV.mnemonic_of()) =~= seq!['u', 'd', 'i', 'v']);
            },
            OperationCode::SREM => {
                assert(ascii_lowercase(OperationCode::SREM.mnemonic_of()) =~= seq!['s', 'r', 'e', 'm']);
            },
            OperationCode::UREM => {
                assert(ascii_lowercase(OperationCode::UREM.mnemonic_of()) =~= seq!['u', 'r', 'e', 'm']);
            },
            OperationCode::INEG => {
                assert(ascii_lowercase(OperationCode::INEG.mnemonic_of()) =~= seq!['i', 'n', 'e', 'g']);
            },
            OperationCode::FADD => {
                assert(ascii_lowercase(OperationCode::FADD.mnemonic_of()) =~= seq!['f', 'a', 'd', 'd']);
            },
            OperationCode::FSUB => {
                assert(ascii_lowercase(OperationCode::FSUB.mnemonic_of()) =~= seq!['f', 's', 'u', 'b']);
            },
            OperationCode::FMUL => {
                assert(ascii_lowercase(OperationCode::FMUL.mnemonic_of()) =~= seq!['f', 'm', 'u', 'l']);
            },
            OperationCode::FDIV => {
                assert(ascii_lowercase(OperationCode::FDIV.mnemonic_of()) =~= seq!['f', 'd', 'i', 'v']);
            },
            OperationCode::FREM => {
                assert(ascii_lowercase(OperationCode::FREM.mnemonic_of()) =~= seq!['f', 'r', 'e', 'm']);
            },
            OperationCode::FNEG => {
                assert(ascii_lowercase(OperationCode::FNEG.mnemonic_of()) =~= seq!['f', 'n', 'e', 'g']);
            },
            OperationCode::AND => {
                assert(ascii_lowercase(OperationCode::AND.mnemonic_of()) =~= seq!['a', 'n', 'd']);
            },
            OperationCode::OR => {
                assert(ascii_lowercase(OperationCode::OR.mnemonic_of()) =~= seq!['o', 'r']);
            },
            OperationCode::XOR => {
                assert(ascii_lowercase(OperationCode::XOR.mnemonic_of()) =~= seq!['x', 'o', 'r']);
            },
            OperationCode::NOT => {
                assert(ascii_lowercase(OperationCode::NOT.mnemonic_of()) =~= seq!['n', 'o', 't']);
            },
            OperationCode::SHL => {
                assert(ascii_lowercase(OperationCode::SHL.mnemonic_of()) =~= seq!['s', 'h', 'l']);
            },
            OperationCode::SHR => {
                assert(ascii_lowercase(OperationCode::SHR.mnemonic_of()) =~= seq!['s', 'h', 'r']);
            },
            OperationCode::SAR => {
                assert(ascii_lowercase(OperationCode::SAR.mnemonic_of()) =~= seq!['s', 'a', 'r']);
            },
            OperationCode::IEQ => {
                assert(ascii_lowercase(OperationCode::IEQ.mnemonic_of()) =~= seq!['i', 'e', 'q']);
            },
            OperationCode::INE => {
                assert(ascii_lowercase(OperationCode::INE.mnemonic_of()) =~= seq!['i', 'n', 'e']);
            },
            OperationCode::SLT => {
                assert(ascii_lowercase(OperationCode::SLT.mnemonic_of()) =~= seq!['s', 'l', 't']);
            },
            OperationCode::SLE => {
                assert(ascii_lowercase(OperationCode::SLE.mnemonic_of()) =~= seq!['s', 'l', 'e']);
            },
            OperationCode::SGT => {
                assert(ascii_lowercase(OperationCode::SGT.mnemonic_of()) =~= seq!['s', 'g', 't']);
            },
            OperationCode::SGE => {
                assert(ascii_lowercase(OperationCode::SGE.mnemonic_of()) =~= seq!['s', 'g', 'e']);
            },
            OperationCode::ULT => {
                assert(ascii_lowercase(OperationCode::ULT.mnemonic_of()) =~= seq!['u', 'l', 't']);
            },
            OperationCode::ULE => {
                assert(ascii_lowercase(OperationCode::ULE.mnemonic_of()) =~= seq!['u', 'l', 'e']);
            },
            OperationCode::UGT => {
                assert(ascii_lowercase(OperationCode::UGT.mnemonic_of()) =~= seq!['u', 'g', 't']);
            },
            OperationCode::UGE => {
                assert(ascii_lowercase(OperationCode::UGE.mnemonic_of()) =~= seq!['u', 'g', 'e']);
            },
            OperationCode::FEQ => {
                assert(ascii_lowercase(OperationCode::FEQ.mnemonic_of()) =~= seq!['f', 'e', 'q']);
            },
            OperationCode::FNE => {
                assert(ascii_lowercase(OperationCode::FNE.mnemonic_of()) =~= seq!['f', 'n', 'e']);
            },
            OperationCode::FLT => {
                assert(ascii_lowercase(OperationCode::FLT.mnemonic_of()) =~= seq!['f', 'l', 't']);
            },
            OperationCode::FLE => {
                assert(ascii_lowercase(OperationCode::FLE.mnemonic_of()) =~= seq!['f', 'l', 'e']);
            },
            OperationCode::FGT => {
                assert(ascii_lowercase(OperationCode::FGT.mnemonic_of()) =~= seq!['f', 'g', 't']);
            },
            OperationCode::FGE => {
                assert(ascii_lowercase(OperationCode::FGE.mnemonic_of()) =~= seq!['f', 'g', 'e']);
            },
            OperationCode::JMP => {
                assert(ascii_lowercase(OperationCode::JMP.mnemonic_of()) =~= seq!['j', 'm', 'p']);
            },
            OperationCode::JZ => {
                assert(ascii_lowercase(OperationCode::JZ.mnemonic_of()) =~= seq!['j', 'z']);
            },
            OperationCode::JNZ => {
                assert(ascii_lowercase(OperationCode::JNZ.mnemonic_of()) =~= seq!['j', 'n', 'z']);
            },
            OperationCode::CALL => {
                assert(ascii_lowercase(OperationCode::CALL.mnemonic_of()) =~= seq!['c', 'a', 'l', 'l']);
            },
            OperationCode::RET => {
                assert(ascii_lowercase(OperationCode::RET.mnemonic_of()) =~= seq!['r', 'e', 't']);
            },
        }
    }

    /// Mnemonics differ from each other even when letter case is ignored.
    pub proof fn lemma_mnemonics_distinct(a: OperationCode, b: OperationCode)
        requires
            ascii_lowercase(a.mnemonic_of()) == ascii_lowercase(b.mnemonic_of()),
        ensures
            a == b,
    {
        Self::lemma_lower_mnemonic(a);
        Self::lemma_lower_mnemonic(b);
    }
}

/// The mnemonics of the instruction set by byte value, in the documented
/// order: `NOP` = 0, `EXIT` = 1, `MOVE` = 2, ..., `ULE` = 39, `UGT` = 40, ...,
/// `RET` = 52.
pub open spec fn isa_mnemonic(b: u8) -> Seq<char> {
    if b == 0 {
        seq!['N', 'O', 'P']
    } else if b == 1 {
        seq!['E', 'X', 'I', 'T']
    } else if b == 2 {
        seq!['M', 'O', 'V', 'E']
    } else if b == 3 {
        seq!['L', 'O', 'A', 'D', '8']
    } else if b == 4 {
        seq!['L', 'O', 'A', 'D', '1', '6']
    } else if b == 5 {
        seq!['L', 'O', 'A', 'D', '3', '2']
    } else if b == 6 {
        seq!['L', 'O', 'A', 'D', '6', '4']
    } else if b == 7 {
        seq!['S', 'T', 'O', 'R', 'E', '8']
    } else if b == 8 {
        seq!['S', 'T', 'O', 'R', 'E', '1', '6']
    } else if b == 9 {
        seq!['S', 'T', 'O', 'R', 'E', '3', '2']
    } else if b == 10 {
        seq!['S', 'T', 'O', 'R', 'E', '6', '4']
    } else if b == 11 {
        seq!['I', 'A', 'D', 'D']
    } else if b == 12 {
        seq!['I', 'S', 'U', 'B']
    } else if b == 13 {
        seq!['I', 'M', 'U', 'L']
    } else if b == 14 {
        seq!['S', 'D', 'I', 'V']
    } else if b == 15 {
        seq!['U', 'D', 'I', 'V']
    } else if b == 16 {
        seq!['S', 'R', 'E', 'M']
    } else if b == 17 {
        seq!['U', 'R', 'E', 'M']
    } else if b == 18 {
        seq!['I', 'N', 'E', 'G']
    } else if b == 19 {
        seq!['F', 'A', 'D', 'D']
    } else if b == 20 {
        seq!['F', 'S', 'U', 'B']
    } else if b == 21 {
        seq!['F', 'M', 'U', 'L']
    } else if b == 22 {
        seq!['F', 'D', 'I', 'V']
    } else if b == 23 {
        seq!['F', 'R', 'E', 'M']
    } else if b == 24 {
        seq!['F', 'N', 'E', 'G']
    } else if b == 25 {
        seq!['A', 'N', 'D']
    } else if b == 26 {
        seq!['O', 'R']
    } else if b == 27 {
        seq!['X', 'O', 'R']
    } else if b == 28 {
        seq!['N', 'O', 'T']
    } else if b == 29 {
        seq!['S', 'H', 'L']
    } else if b == 30 {
        seq!['S', 'H', 'R']
    } else if b == 31 {
        seq!['S', 'A', 'R']
    } else if b == 32 {
        seq!['I', 'E', 'Q']
    } else if b == 33 {
        seq!['I', 'N', 'E']
    } else if b == 34 {
        seq!['S', 'L', 'T']
    } else if b == 35 {
        seq!['S', 'L', 'E']
    } else if b == 36 {
        seq!['S', 'G', 'T']
    } else if b == 37 {
        seq!['S', 'G', 'E']
    } else if b == 38 {
        seq!['U', 'L', 'T']
    } else if b == 39 {
        seq!['U', 'L', 'E']
    } else if b == 40 {
        seq!['U', 'G', 'T']
    } else if b == 41 {
        seq!['U', 'G', 'E']
    } else if b == 42 {
        seq!['F', 'E', 'Q']
    } else if b == 43 {
        seq!['F', 'N', 'E']
    } else if b == 44 {
        seq!['F', 'L', 'T']
    } else if b == 45 {
        seq!['F', 'L', 'E']
    } else if b == 46 {
        seq!['F', 'G', 'T']
    } else if b == 47 {
        seq!['F', 'G', 'E']
    } else if b == 48 {
        seq!['J', 'M', 'P']
    } else if b == 49 {
        seq!['J', 'Z']
    } else if b == 50 {
        seq!['J', 'N', 'Z']
    } else if b == 51 {
        seq!['C', 'A', 'L', 'L']
    } else if b == 52 {
        seq!['R', 'E', 'T']
    } else {
        Seq::empty()
    }
}

impl OperationCode {
    /// Every opcode has the byte value of its mnemonic's place in the
    /// instruction set's numbering.
    pub proof fn lemma_opcode_numbering(op: OperationCode)
        ensures
            op.byte_of() < OPCODE_COUNT,
            op.mnemonic_of() == isa_mnemonic(op.byte_of()),
            Self::of_byte(op.byte_of()) == Some(op),
    {
    }

    /// Every byte below [`OPCODE_COUNT`] names the opcode with the mnemonic of
    /// that place in the numbering, and no other byte names one.
    pub proof fn lemma_byte_names(b: u8)
        ensures
            b < OPCODE_COUNT <==> Self::of_byte(b) is Some,
            Self::of_byte(b) matches Some(op) ==> op.mnemonic_of() == isa_mnemonic(b)
                && op.byte_of() == b,
    {
    }
}

impl OperationCode {
    /// Every opcode is the one named by its own byte, and that byte is below
    /// [`OPCODE_COUNT`].
    pub proof fn lemma_byte_roundtrip(op: OperationCode)
        ensures
            Self::of_byte(op.byte_of()) == Some(op),
            op.byte_of() < OPCODE_COUNT,
    {
    }

    /// The opcode with byte value `value`, or an unknown-opcode error that
    /// carries the byte in decimal.
    pub fn try_from_byte(value: u8) -> (r: Result<OperationCode, ISAError>)
        ensures
            value < OPCODE_COUNT <==> r is Ok,
            r matches Ok(op) ==> op.byte_of() == value,
            r matches Err(e) ==> e.kind matches ISAErrorKind::UnknownOperationCode(t) && t@
                == decimal(value as nat),
    {
        match Self::from_byte(value) {
            Some(op) => Ok(op),
            None => Err(ISAError::new(ISAErrorKind::UnknownOperationCode(decimal_string(value as u64)))),
        }
    }

    /// Parses a mnemonic, ignoring ASCII case, or returns an unknown-opcode
    /// error that carries the text.
    pub fn parse(s: &str) -> (r: Result<OperationCode, ISAError>)
        ensures
            forall|op: OperationCode|
                #![trigger op.mnemonic_of()]
                ascii_lowercase(s@) == ascii_lowercase(op.mnemonic_of()) ==> r == Ok::<
                    OperationCode,
                    ISAError,
                >(op),
            r is Err <==> forall|op: OperationCode|
                ascii_lowercase(s@) != ascii_lowercase(#[trigger] op.mnemonic_of()),
            r matches Err(e) ==> e.kind matches ISAErrorKind::UnknownOperationCode(t) && t@ == s@,
    {
        let mut b: u8 = 0;
        while b < OPCODE_COUNT
            invariant
                b <= OPCODE_COUNT,
                forall|op: OperationCode|
                    #![trigger op.mnemonic_of()]
                    op.byte_of() < b ==> ascii_lowercase(s@) != ascii_lowercase(op.mnemonic_of()),
            decreases OPCODE_COUNT - b,
        {
            let op = Self::from_byte(b).unwrap();
            if eq_ignore_ascii_case(s, op.mnemonic()) {
                proof {
                    assert forall|o: OperationCode|
                        #![trigger o.mnemonic_of()]
                        ascii_lowercase(s@) == ascii_lowercase(o.mnemonic_of()) implies o == op by {
                        Self::lemma_mnemonics_distinct(o, op);
                    }
                }
                return Ok(op);
            }
            b = b + 1;
        }
        Err(ISAError::new(ISAErrorKind::UnknownOperationCode(String::from_str(s))))
    }
}

/// Parsing a mnemonic with `str::parse`; see [`OperationCode::parse`].
impl std::str::FromStr for OperationCode {
    type Err = ISAError;

    fn from_str(s: &str) -> Result<OperationCode, ISAError> {
        OperationCode::parse(s)
    }
}

} // verus!
