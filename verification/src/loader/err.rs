//! Errors of the bytecode loader.
use vstd::prelude::*;
use vstd::string::*;

use crate::text::{decimal, push_decimal};

verus! {

/// The kinds of loader errors.
#[derive(Debug)]
pub enum LoaderErrorKind {
    /// The file is not in NVM Bytecode format.
    FileIsNotInNVMBytecodeFormat {
        /// The full reason of the error.
        reason: String,
    },
    /// The file requires a newer virtual machine.
    UnsupportedVersion {
        /// The version the file requires.
        file_version: String,
        /// The version of this virtual machine.
        vm_version: String,
    },
    /// A byte that names no opcode (or an operand count above three).
    UnknownOpcode {
        /// The opcode byte.
        byte: u8,
    },
    /// An operand tag that is neither `0x00` (register) nor `0x01` (immediate).
    UnknownOperandTag {
        /// The tag byte.
        byte: u8,
    },
    /// The file ends inside an instruction.
    UnexpectedEndOfFile {
        /// How many bytes were needed.
        needed: usize,
        /// How many bytes remain.
        remaining: usize,
    },
}

impl LoaderErrorKind {
    /// The human-readable message of the error.
    pub open spec fn message(&self) -> Seq<char> {
        match self {
            LoaderErrorKind::FileIsNotInNVMBytecodeFormat { reason } =>
                "the file is not in NVM Bytecode format: "@ + reason@,
            LoaderErrorKind::UnsupportedVersion { file_version, vm_version } =>
                "the file requires NVM version "@ + file_version@ + " or newer, but the VM version is "@
                    + vm_version@,
            LoaderErrorKind::UnknownOpcode { byte } => "unknown opcode byte: "@ + decimal(
                *byte as nat,
            ),
            LoaderErrorKind::UnknownOperandTag { byte } => "unknown operand tag: "@ + decimal(
                *byte as nat,
            ),
            LoaderErrorKind::UnexpectedEndOfFile { needed, remaining } =>
                "unexpected end of file: needed "@ + decimal(*needed as nat) + " more bytes, but only "@
                    + decimal(*remaining as nat) + " remain"@,
        }
    }

    /// Renders the message of the error.
    pub fn to_string(&self) -> (s: String)
        ensures
            s@ == self.message(),
    {
        let mut s = String::new();
        match self {
            LoaderErrorKind::FileIsNotInNVMBytecodeFormat { reason } => {
                s.append("the file is not in NVM Bytecode format: ");
                s.append(reason.as_str());
            },
            LoaderErrorKind::UnsupportedVersion { file_version, vm_version } => {
                s.append("the file requires NVM version ");
                s.append(file_version.as_str());
                s.append(" or newer, but the VM version is ");
                s.append(vm_version.as_str());
            },
            LoaderErrorKind::UnknownOpcode { byte } => {
                s.append("unknown opcode byte: ");
                push_decimal(&mut s, *byte as u64);
            },
            LoaderErrorKind::UnknownOperandTag { byte } => {
                s.append("unknown operand tag: ");
                push_decimal(&mut s, *byte as u64);
            },
            LoaderErrorKind::UnexpectedEndOfFile { needed, remaining } => {
                s.append("unexpected end of file: needed ");
                push_decimal(&mut s, *needed as u64);
                s.append(" more bytes, but only ");
                push_decimal(&mut s, *remaining as u64);
                s.append(" remain");
            },
        }
        assert(s@ =~= self.message());
        s
    }
}

/// A loader error.
#[derive(Debug)]
pub struct LoaderError {
    pub kind: LoaderErrorKind,
}

impl LoaderError {
    /// Creates an error of the given kind.
    pub fn new(kind: LoaderErrorKind) -> (e: Self)
        ensures
            e.kind == kind,
    {
        Self { kind }
    }

    /// Renders the message of the error.
    pub fn to_string(&self) -> (s: String)
        ensures
            s@ == self.kind.message(),
    {
        self.kind.to_string()
    }
}

} // verus!
