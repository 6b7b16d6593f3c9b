//! Instruction operands: a register or an immediate value.
use vstd::prelude::*;
use vstd::string::*;

use crate::isa::register::Register;
use crate::text::{decimal, push_decimal};
use crate::vm::err::{VMError, VMErrorKind};

verus! {

/// The kind of an operand.
#[derive(Debug, Clone, Copy)]
pub enum OperandKind {
    /// A register of the machine.
    Register(Register),
    /// An immediate value.
    Immediate(u64),
}

impl OperandKind {
    /// The name of the kind, as used in error messages.
    pub open spec fn kind_name(self) -> Seq<char> {
        match self {
            OperandKind::Immediate(_) => "value"@,
            OperandKind::Register(_) => "register"@,
        }
    }

    /// The textual form of the operand: the value, or `R<n>`.
    pub open spec fn text(self) -> Seq<char> {
        match self {
            OperandKind::Immediate(v) => decimal(v as nat),
            OperandKind::Register(r) => r.text(),
        }
    }

    /// The name of the kind: `"value"` or `"register"`.
    pub fn kind(&self) -> (s: &'static str)
        ensures
            s@ == self.kind_name(),
    {
        match self {
            OperandKind::Immediate(_) => "value",
            OperandKind::Register(_) => "register",
        }
    }

    /// Appends the textual form of the operand to `s`.
    pub fn push_text(&self, s: &mut String)
        ensures
            final(s)@ == old(s)@ + self.text(),
    {
        match self {
            OperandKind::Immediate(v) => push_decimal(s, *v),
            OperandKind::Register(r) => r.push_text(s),
        }
    }
}

/// An operand of an instruction.
#[derive(Debug, Clone, Copy)]
pub struct Operand {
    pub kind: OperandKind,
}

impl Operand {
    /// The register of a register operand, or an operand-type error.
    pub fn expect_register(&self) -> (r: Result<Register, VMError>)
        ensures
            match self.kind {
                OperandKind::Register(reg) => r == Ok::<Register, VMError>(reg),
                OperandKind::Immediate(_) => r == Err::<Register, VMError>(
                    VMError {
                        kind: VMErrorKind::IncorrectTypeOfOperand {
                            expected: OperandKind::Register(Register(0)),
                            got: self.kind,
                        },
                    },
                ),
            },
    {
        match self.kind {
            OperandKind::Register(r) => Ok(r),
            got => Err(
                VMError::new(
                    VMErrorKind::IncorrectTypeOfOperand {
                        expected: OperandKind::Register(Register(0)),
                        got,
                    },
                ),
            ),
        }
    }

    /// The value of an immediate operand, or an operand-type error.
    pub fn expect_immediate(&self) -> (r: Result<u64, VMError>)
        ensures
            match self.kind {
                OperandKind::Immediate(v) => r == Ok::<u64, VMError>(v),
                OperandKind::Register(_) => r == Err::<u64, VMError>(
                    VMError {
                        kind: VMErrorKind::IncorrectTypeOfOperand {
                            expected: OperandKind::Immediate(0),
                            got: self.kind,
                        },
                    },
                ),
            },
    {
        match self.kind {
            OperandKind::Immediate(v) => Ok(v),
            got => Err(
                VMError::new(
                    VMErrorKind::IncorrectTypeOfOperand { expected: OperandKind::Immediate(0), got },
                ),
            ),
        }
    }
}

} // verus!
