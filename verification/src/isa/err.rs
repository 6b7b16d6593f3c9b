//! Errors of the instruction-set layer.
use vstd::prelude::*;
use vstd::string::*;

use crate::text::{decimal, push_decimal};

verus! {

/// The kinds of instruction-set errors.
#[derive(Debug)]
pub enum ISAErrorKind {
    /// An unknown operation code (its text or its byte in decimal).
    UnknownOperationCode(String),
    /// The data ended before the instruction did.
    UnexpectedEndOfData { expected: usize, found: usize },
    /// An operand count above three.
    InvalidOperandCount { count: u8 },
    /// An operand tag that is neither register nor immediate.
    UnknownOperandTag { byte: u8 },
}

impl ISAErrorKind {
    /// The human-readable message of the error.
    pub open spec fn message(&self) -> Seq<char> {
        match self {
            ISAErrorKind::UnknownOperationCode(opcode) => "unknown operation code: '"@ + opcode@ + "'"@,
            ISAErrorKind::UnexpectedEndOfData { expected, found } => "unexpected end of data: expected at least "@
                + decimal(*expected as nat) + " bytes, but only "@ + decimal(*found as nat)
                + " were provided"@,
            ISAErrorKind::InvalidOperandCount { count } => "invalid operand count: "@ + decimal(
                *count as nat,
            ) + " (expected 0–3)"@,
            ISAErrorKind::UnknownOperandTag { byte } => "unknown operand tag byte: "@ + decimal(
                *byte as nat,
            ),
        }
    }

    /// Renders the message of the error.
    pub fn to_string(&self) -> (s: String)
        ensures
            s@ == self.message(),
    {
        let mut s = String::new();
        match self {
            ISAErrorKind::UnknownOperationCode(opcode) => {
                s.append("unknown operation code: '");
                s.append(opcode.as_str());
                s.append("'");
            },
            ISAErrorKind::UnexpectedEndOfData { expected, found } => {
                s.append("unexpected end of data: expected at least ");
                push_decimal(&mut s, *expected as u64);
                s.append(" bytes, but only ");
                push_decimal(&mut s, *found as u64);
                s.append(" were provided");
            },
            ISAErrorKind::InvalidOperandCount { count } => {
                s.append("invalid operand count: ");
                push_decimal(&mut s, *count as u64);
                s.append(" (expected 0–3)");
            },
            ISAErrorKind::UnknownOperandTag { byte } => {
                s.append("unknown operand tag byte: ");
                push_decimal(&mut s, *byte as u64);
            },
        }
        assert(s@ =~= self.message());
        s
    }
}

/// An instruction-set error.
#[derive(Debug)]
pub struct ISAError {
    pub kind: ISAErrorKind,
}

impl ISAError {
    /// Creates an error of the given kind.
    pub fn new(kind: ISAErrorKind) -> (e: Self)
        ensures
            e.kind == kind,
    {
        Self { kind }
    }

    /// Renders the message of the error.
    pub fn to_string(&self) -> (s: String)
        ensures
            s@ == self.kind.message(),
    {
        self.kind.to_string()
    }
}

} // verus!
