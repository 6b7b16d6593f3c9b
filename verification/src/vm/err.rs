//! Errors of the virtual machine.
use vstd::prelude::*;
use vstd::string::*;

use crate::isa::operand::OperandKind;
use crate::text::{decimal, push_decimal};

verus! {

/// The kinds of execution errors.
#[allow(inconsistent_fields)]
#[derive(Debug, Clone, Copy)]
pub enum VMErrorKind {
    /// An instruction has the wrong number of operands.
    IncorrectNumberOfOperands { expected: u8, got: u8 },
    /// An operand has the wrong type (a destination must be a register).
    IncorrectTypeOfOperand { expected: OperandKind, got: OperandKind },
    /// A memory access outside the memory.
    InvalidAddress {
        /// The address that was accessed.
        got: usize,
        /// The size of the memory.
        memory_length: usize,
    },
    /// A division or remainder by zero.
    DivisionByZero,
    /// `RET` with an empty call stack.
    EmptyCallStack,
}

impl VMErrorKind {
    /// The human-readable message of the error.
    pub open spec fn message(self) -> Seq<char> {
        match self {
            VMErrorKind::IncorrectNumberOfOperands { expected, got } => "expected "@ + decimal(
                expected as nat,
            ) + " operands, but got "@ + decimal(got as nat) + " operands"@,
            VMErrorKind::IncorrectTypeOfOperand { expected, got } => "expected type "@
                + expected.kind_name() + ", but got "@ + got.kind_name() + " type"@,
            VMErrorKind::InvalidAddress { got, memory_length } => "memory access out of bounds: address "@
                + decimal(got as nat) + " is outside memory (size: "@ + decimal(
                memory_length as nat,
            ) + " bytes)"@,
            VMErrorKind::DivisionByZero => "division by zero"@,
            VMErrorKind::EmptyCallStack => "empty call stack"@,
        }
    }

    /// Renders the message of the error.
    pub fn to_string(&self) -> (s: String)
        ensures
            s@ == self.message(),
    {
        let mut s = String::new();
        match self {
            VMErrorKind::IncorrectNumberOfOperands { expected, got } => {
                s.append("expected ");
                push_decimal(&mut s, *expected as u64);
                s.append(" operands, but got ");
                push_decimal(&mut s, *got as u64);
                s.append(" operands");
            },
            VMErrorKind::IncorrectTypeOfOperand { expected, got } => {
                s.append("expected type ");
                s.append(expected.kind());
                s.append(", but got ");
                s.append(got.kind());
                s.append(" type");
            },
            VMErrorKind::InvalidAddress { got, memory_length } => {
                s.append("memory access out of bounds: address ");
                push_decimal(&mut s, *got as u64);
                s.append(" is outside memory (size: ");
                push_decimal(&mut s, *memory_length as u64);
                s.append(" bytes)");
            },
            VMErrorKind::DivisionByZero => {
                s.append("division by zero");
            },
            VMErrorKind::EmptyCallStack => {
                s.append("empty call stack");
            },
        }
        assert(s@ =~= self.message());
        s
    }
}

/// An execution error.
#[derive(Debug, Clone, Copy)]
pub struct VMError {
    pub kind: VMErrorKind,
}

impl VMError {
    /// Creates an error of the given kind.
    pub fn new(kind: VMErrorKind) -> (e: Self)
        ensures
            e.kind == kind,
    {
        Self { kind }
    }

    /// Renders the message of the error.
    pub fn to_string(&self) -> (s: String)
        ensures
            s@ == self.kind.message(),
    {
        self.kind.to_string()
    }
}

} // verus!
