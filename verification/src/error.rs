//! Errors of the whole crate and the text of their report.
use vstd::prelude::*;
use vstd::string::*;

use crate::isa::err::ISAError;
use crate::isa::instruction::Instruction;
use crate::loader::err::LoaderError;
use crate::vm::err::VMError;

verus! {

/// `std::io::Error`, carried through the library as an opaque value.
#[verifier::external_type_specification]
#[verifier::external_body]
pub struct ExIoError(std::io::Error);

/// The text of an I/O error, as its `Display` renders it.
///
/// Trusted: the text comes from `std::io::Error`'s `Display`, which for an
/// operating-system error depends on the system; nothing is stated of it.
#[verifier::external_body]
fn io_error_text(e: &std::io::Error) -> String {
    format!("{e}")
}

/// The errors of every part of the crate.
#[derive(Debug)]
pub enum NVMErrorKind {
    ISAError(ISAError),
    VMError(VMError),
    LoaderError(LoaderError),
    IoError(std::io::Error),
}

impl NVMErrorKind {
    /// `m` is the message of the error (any text for an I/O error, whose text
    /// the system gives).
    pub open spec fn describes(&self, m: Seq<char>) -> bool {
        match self {
            NVMErrorKind::ISAError(e) => m == e.kind.message(),
            NVMErrorKind::VMError(e) => m == e.kind.message(),
            NVMErrorKind::LoaderError(e) => m == e.kind.message(),
            NVMErrorKind::IoError(_) => true,
        }
    }

    /// Renders the message of the error.
    pub fn to_string(&self) -> (s: String)
        ensures
            self.describes(s@),
    {
        match self {
            NVMErrorKind::ISAError(e) => e.to_string(),
            NVMErrorKind::VMError(e) => e.to_string(),
            NVMErrorKind::LoaderError(e) => e.to_string(),
            NVMErrorKind::IoError(e) => io_error_text(e),
        }
    }
}

/// `n` copies of `c`.
pub open spec fn repeated(c: char, n: nat) -> Seq<char> {
    Seq::new(n, |_i: int| c)
}

/// The report of an error with message `message`, about `instruction` if
/// there is one, with terminal colours if `ansi`:
///
/// ```text
/// Error: expected type register, but got value type.
///
/// -->  MOVE 0, R0
///      ^^^^^^^^^^
/// ```
pub open spec fn report_of(ansi: bool, message: Seq<char>, instruction: Option<Instruction>) -> Seq<
    char,
> {
    let head = if ansi {
        "\x1b[1;31mError\x1b[0m: \x1b[1m"@ + message + "\x1b[0m.\n\n"@
    } else {
        "Error: "@ + message + ".\n\n"@
    };
    match instruction {
        None => head,
        Some(i) => {
            let arrows = repeated('^', i.text().len());
            if ansi {
                head + "\x1b[36m-->\x1b[0m  "@ + i.text() + "\n     \x1b[1m"@ + arrows
                    + "\x1b[0m\n"@
            } else {
                head + "-->  "@ + i.text() + "\n     "@ + arrows + "\n"@
            }
        },
    }
}

/// An error with the instruction it concerns, for reporting.
#[derive(Debug)]
pub struct NVMError {
    pub kind: NVMErrorKind,
    /// The instruction the error concerns, shown under the message.
    pub instruction: Option<Instruction>,
    /// Whether the report uses ANSI escape sequences for colours.
    have_ansi: bool,
}

/// Appends `n` copies of `^` to `s`.
fn push_arrows(s: &mut String, n: usize)
    ensures
        final(s)@ == old(s)@ + repeated('^', n as nat),
{
    let mut k: usize = 0;
    while k < n
        invariant
            k <= n,
            s@ == old(s)@ + repeated('^', k as nat),
        decreases n - k,
    {
        s.append("^");
        proof {
            reveal_strlit("^");
        }
        k = k + 1;
        assert(s@ =~= old(s)@ + repeated('^', k as nat));
    }
}

impl NVMError {
    /// The kind of the error.
    pub closed spec fn kind_of(&self) -> NVMErrorKind {
        self.kind
    }

    /// The instruction the error concerns.
    pub closed spec fn instruction_of(&self) -> Option<Instruction> {
        self.instruction
    }

    /// Whether the report uses colours.
    pub closed spec fn uses_ansi(&self) -> bool {
        self.have_ansi
    }

    /// An error of the given kind, about `instruction`, reported with colours
    /// if `have_ansi`.
    pub fn new(kind: NVMErrorKind, instruction: Option<Instruction>, have_ansi: bool) -> (e: Self)
        ensures
            e.kind_of() == kind,
            e.instruction_of() == instruction,
            e.uses_ansi() == have_ansi,
    {
        Self { kind, instruction, have_ansi }
    }

    /// The text that reporting the error prints: the message, then the
    /// instruction with a line of `^` under it.
    pub fn report_text(&self) -> (s: String)
        ensures
            exists|m: Seq<char>|
                self.kind_of().describes(m) && s@ == report_of(
                    self.uses_ansi(),
                    m,
                    self.instruction_of(),
                ),
    {
        let message = self.kind.to_string();
        let mut s = String::new();
        if self.have_ansi {
            s.append("\x1b[1;31mError\x1b[0m: \x1b[1m");
            s.append(message.as_str());
            s.append("\x1b[0m.\n\n");
        } else {
            s.append("Error: ");
            s.append(message.as_str());
            s.append(".\n\n");
        }
        if let Some(instr) = self.instruction {
            let text = instr.to_string();
            if self.have_ansi {
                s.append("\x1b[36m-->\x1b[0m  ");
                s.append(text.as_str());
                s.append("\n     \x1b[1m");
                push_arrows(&mut s, text.unicode_len());
                s.append("\x1b[0m\n");
            } else {
                s.append("-->  ");
                s.append(text.as_str());
                s.append("\n     ");
                push_arrows(&mut s, text.unicode_len());
                s.append("\n");
            }
        }
        assert(s@ =~= report_of(self.have_ansi, message@, self.instruction));
        s
    }
}

} // verus!
