//! Instructions: an opcode with up to three operands, and their byte encoding.
//!
//! Encoding of one instruction:
//!
//! ```text
//! [opcode] [operand count] [operand]*
//! operand = [0x00] [register]          (2 bytes)
//!         | [0x01] [u64, little-endian] (9 bytes)
//! ```
use vstd::prelude::*;
use vstd::string::*;

use crate::bytes::{le_u64_at, lemma_le_values, read_le_u64};
use crate::isa::err::{ISAError, ISAErrorKind};
use crate::isa::opcode::{OperationCode, OPCODE_COUNT};
use crate::isa::operand::{Operand, OperandKind};
use crate::isa::register::{Register, REGISTER_COUNT};
use crate::text::{decimal, decimal_string};
use crate::vm::err::{VMError, VMErrorKind};

verus! {

/// Operand tag byte of a register operand.
pub const TAG_REGISTER: u8 = 0;

/// Operand tag byte of an immediate operand.
pub const TAG_IMMEDIATE: u8 = 1;

/// One instruction of a program.
#[derive(Debug, Clone, Copy)]
pub struct Instruction {
    pub opcode: OperationCode,
    pub operand1: Option<Operand>,
    pub operand2: Option<Operand>,
    pub operand3: Option<Operand>,
}

/// Why a byte sequence is not an instruction.
pub enum DecodeFault {
    /// The bytes end before the instruction does.
    EndOfData { expected: nat, found: nat },
    /// The first byte names no opcode.
    Opcode(u8),
    /// The operand count is above three.
    OperandCount(u8),
    /// An operand tag is neither register nor immediate.
    OperandTag(u8),
}

/// Whether the error `kind` reports the fault `f`.
pub open spec fn reports_fault(kind: ISAErrorKind, f: DecodeFault) -> bool {
    match f {
        DecodeFault::EndOfData { expected, found } => kind
            == ISAErrorKind::UnexpectedEndOfData { expected: expected as usize, found: found as usize },
        DecodeFault::Opcode(b) => kind matches ISAErrorKind::UnknownOperationCode(t) && t@ == decimal(
            b as nat,
        ),
        DecodeFault::OperandCount(c) => kind == ISAErrorKind::InvalidOperandCount { count: c },
        DecodeFault::OperandTag(t) => kind == ISAErrorKind::UnknownOperandTag { byte: t },
    }
}

/// The operand encoded at `pos` of `b`, and the position after it.
pub open spec fn operand_at(b: Seq<u8>, pos: nat) -> Result<(Operand, nat), DecodeFault> {
    if pos >= b.len() {
        Err(DecodeFault::EndOfData { expected: pos + 1, found: b.len() })
    } else if b[pos as int] == TAG_REGISTER {
        if pos + 2 > b.len() {
            Err(DecodeFault::EndOfData { expected: pos + 2, found: b.len() })
        } else {
            Ok((Operand { kind: OperandKind::Register(Register(b[pos + 1 as int])) }, pos + 2))
        }
    } else if b[pos as int] == TAG_IMMEDIATE {
        if pos + 9 > b.len() {
            Err(DecodeFault::EndOfData { expected: pos + 9, found: b.len() })
        } else {
            Ok((Operand { kind: OperandKind::Immediate(le_u64_at(b, pos + 1 as int)) }, pos + 9))
        }
    } else {
        Err(DecodeFault::OperandTag(b[pos as int]))
    }
}

/// The instruction encoded by `b`. Bytes after the last operand are ignored.
pub open spec fn decode_spec(b: Seq<u8>) -> Result<Instruction, DecodeFault> {
    if b.len() < 2 {
        Err(DecodeFault::EndOfData { expected: 2, found: b.len() })
    } else if OperationCode::of_byte(b[0]) is None {
        Err(DecodeFault::Opcode(b[0]))
    } else if b[1] > 3 {
        Err(DecodeFault::OperandCount(b[1]))
    } else {
        let opcode = OperationCode::of_byte(b[0]).unwrap();
        let n = b[1];
        if n == 0 {
            Ok(Instruction { opcode, operand1: None, operand2: None, operand3: None })
        } else {
            match operand_at(b, 2) {
                Err(f) => Err(f),
                Ok((o1, p1)) => if n == 1 {
                    Ok(Instruction { opcode, operand1: Some(o1), operand2: None, operand3: None })
                } else {
                    match operand_at(b, p1) {
                        Err(f) => Err(f),
                        Ok((o2, p2)) => if n == 2 {
                            Ok(
                                Instruction {
                                    opcode,
                                    operand1: Some(o1),
                                    operand2: Some(o2),
                                    operand3: None,
                                },
                            )
                        } else {
                            match operand_at(b, p2) {
                                Err(f) => Err(f),
                                Ok((o3, _p3)) => Ok(
                                    Instruction {
                                        opcode,
                                        operand1: Some(o1),
                                        operand2: Some(o2),
                                        operand3: Some(o3),
                                    },
                                ),
                            }
                        },
                    }
                },
            }
        }
    }
}

/// `1` if the operand is present, `0` if not.
pub open spec fn present(o: Option<Operand>) -> nat {
    if o is Some {
        1
    } else {
        0
    }
}

/// The register number of a register operand, if it is one.
pub open spec fn register_index(o: Option<Operand>) -> Option<u8> {
    match o {
        Some(Operand { kind: OperandKind::Register(r) }) => Some(r.0),
        _ => None,
    }
}

/// The operand names no register, or a register below [`REGISTER_COUNT`].
pub open spec fn operand_register_ok(o: Option<Operand>) -> bool {
    match register_index(o) {
        Some(r) => r < REGISTER_COUNT,
        None => true,
    }
}

/// The text of an operand in an instruction listing, with its separator.
pub open spec fn operand_piece(o: Option<Operand>, after_another: bool) -> Seq<char> {
    match o {
        None => Seq::empty(),
        Some(op) => (if after_another {
            ", "@
        } else {
            " "@
        }) + op.kind.text(),
    }
}

impl Instruction {
    /// The number of operands present.
    pub open spec fn count_of(self) -> nat {
        present(self.operand1) + present(self.operand2) + present(self.operand3)
    }

    /// The operands present come first: no operand follows a missing one.
    pub open spec fn is_aligned(self) -> bool {
        &&& (self.operand2 is Some ==> self.operand1 is Some)
        &&& (self.operand3 is Some ==> self.operand2 is Some)
    }

    /// Every register operand names one of the machine's registers.
    pub open spec fn registers_ok(self) -> bool {
        &&& operand_register_ok(self.operand1)
        &&& operand_register_ok(self.operand2)
        &&& operand_register_ok(self.operand3)
    }

    /// The listing of the instruction, such as `IADD R0, R1, 5`.
    pub open spec fn text(self) -> Seq<char> {
        self.opcode.mnemonic_of() + operand_piece(self.operand1, false) + operand_piece(
            self.operand2,
            self.operand1 is Some,
        ) + operand_piece(self.operand3, self.operand1 is Some || self.operand2 is Some)
    }

    /// The number of operands present.
    pub fn operand_count(&self) -> (n: usize)
        ensures
            n == self.count_of(),
            n <= 3,
    {
        let mut n: usize = 0;
        if self.operand1.is_some() {
            n = n + 1;
        }
        if self.operand2.is_some() {
            n = n + 1;
        }
        if self.operand3.is_some() {
            n = n + 1;
        }
        n
    }

    /// The error for an instruction that does not have exactly `expected`
    /// leading operands.
    pub open spec fn count_error(self, expected: u8) -> VMError {
        VMError {
            kind: VMErrorKind::IncorrectNumberOfOperands {
                expected,
                got: self.count_of() as u8,
            },
        }
    }

    /// The only operand, or an operand-count error.
    pub fn expect1(&self) -> (r: Result<Operand, VMError>)
        ensures
            match (self.operand1, self.operand2, self.operand3) {
                (Some(a), None, None) => r == Ok::<Operand, VMError>(a),
                _ => r == Err::<Operand, VMError>(self.count_error(1)),
            },
    {
        match (self.operand1, self.operand2, self.operand3) {
            (Some(a), None, None) => Ok(a),
            _ => Err(
                VMError::new(
                    VMErrorKind::IncorrectNumberOfOperands {
                        expected: 1,
                        got: self.operand_count() as u8,
                    },
                ),
            ),
        }
    }

    /// The two operands, or an operand-count error.
    pub fn expect2(&self) -> (r: Result<(Operand, Operand), VMError>)
        ensures
            match (self.operand1, self.operand2, self.operand3) {
                (Some(a), Some(b), None) => r == Ok::<(Operand, Operand), VMError>((a, b)),
                _ => r == Err::<(Operand, Operand), VMError>(self.count_error(2)),
            },
    {
        match (self.operand1, self.operand2, self.operand3) {
            (Some(a), Some(b), None) => Ok((a, b)),
            _ => Err(
                VMError::new(
                    VMErrorKind::IncorrectNumberOfOperands {
                        expected: 2,
                        got: self.operand_count() as u8,
                    },
                ),
            ),
        }
    }

    /// The three operands, or an operand-count error.
    pub fn expect3(&self) -> (r: Result<(Operand, Operand, Operand), VMError>)
        ensures
            match (self.operand1, self.operand2, self.operand3) {
                (Some(a), Some(b), Some(c)) => r == Ok::<(Operand, Operand, Operand), VMError>(
                    (a, b, c),
                ),
                _ => r == Err::<(Operand, Operand, Operand), VMError>(self.count_error(3)),
            },
    {
        match (self.operand1, self.operand2, self.operand3) {
            (Some(a), Some(b), Some(c)) => Ok((a, b, c)),
            _ => Err(
                VMError::new(
                    VMErrorKind::IncorrectNumberOfOperands {
                        expected: 3,
                        got: self.operand_count() as u8,
                    },
                ),
            ),
        }
    }

    /// Renders the listing of the instruction, such as `IADD R0, R1, 5`.
    pub fn to_string(&self) -> (s: String)
        ensures
            s@ == self.text(),
    {
        let mut s = String::from_str(self.opcode.mnemonic());
        if let Some(o) = self.operand1 {
            s.append(" ");
            o.kind.push_text(&mut s);
        }
        if let Some(o) = self.operand2 {
            if self.operand1.is_some() {
                s.append(", ");
            } else {
                s.append(" ");
            }
            o.kind.push_text(&mut s);
        }
        if let Some(o) = self.operand3 {
            if self.operand1.is_some() || self.operand2.is_some() {
                s.append(", ");
            } else {
                s.append(" ");
            }
            o.kind.push_text(&mut s);
        }
        assert(s@ =~= self.text());
        s
    }

    /// Decodes the operand at `pos` of `b`, returning it and the position
    /// after it.
    fn decode_operand(b: &[u8], pos: usize) -> (r: Result<(Operand, usize), ISAError>)
        requires
            pos <= b@.len(),
            b@.len() + 9 <= usize::MAX,
        ensures
            r matches Ok((_, next)) ==> next <= b@.len(),
            match operand_at(b@, pos as nat) {
                Ok((o, next)) => r matches Ok((o2, next2)) && o2 == o && next2 == next,
                Err(f) => r matches Err(e) && reports_fault(e.kind, f),
            },
    {
        let len = b.len();
        if pos >= len {
            return Err(ISAError::new(ISAErrorKind::UnexpectedEndOfData { expected: pos + 1, found: len }));
        }
        let tag = b[pos];
        if tag == TAG_REGISTER {
            if len - pos < 2 {
                return Err(ISAError::new(ISAErrorKind::UnexpectedEndOfData { expected: pos + 2, found: len }));
            }
            Ok((Operand { kind: OperandKind::Register(Register(b[pos + 1])) }, pos + 2))
        } else if tag == TAG_IMMEDIATE {
            if len - pos < 9 {
                return Err(ISAError::new(ISAErrorKind::UnexpectedEndOfData { expected: pos + 9, found: len }));
            }
            Ok((Operand { kind: OperandKind::Immediate(read_le_u64(b, pos + 1)) }, pos + 9))
        } else {
            Err(ISAError::new(ISAErrorKind::UnknownOperandTag { byte: tag }))
        }
    }

    /// Decodes one instruction from the start of `b`.
    pub fn decode(b: &[u8]) -> (r: Result<Instruction, ISAError>)
        requires
            b@.len() + 9 <= usize::MAX,
        ensures
            match decode_spec(b@) {
                Ok(i) => r == Ok::<Instruction, ISAError>(i),
                Err(f) => r matches Err(e) && reports_fault(e.kind, f),
            },
    {
        let len = b.len();
        if len < 2 {
            return Err(ISAError::new(ISAErrorKind::UnexpectedEndOfData { expected: 2, found: len }));
        }
        let opcode = match OperationCode::from_byte(b[0]) {
            Some(op) => op,
            None => {
                return Err(ISAError::new(ISAErrorKind::UnknownOperationCode(decimal_string(b[0] as u64))));
            },
        };
        let n = b[1];
        if n > 3 {
            return Err(ISAError::new(ISAErrorKind::InvalidOperandCount { count: n }));
        }
        let mut instr = Instruction { opcode, operand1: None, operand2: None, operand3: None };
        if n == 0 {
            return Ok(instr);
        }
        let (o1, p1) = Self::decode_operand(b, 2)?;
        instr.operand1 = Some(o1);
        if n == 1 {
            return Ok(instr);
        }
        let (o2, p2) = Self::decode_operand(b, p1)?;
        instr.operand2 = Some(o2);
        if n == 2 {
            return Ok(instr);
        }
        let (o3, _p3) = Self::decode_operand(b, p2)?;
        instr.operand3 = Some(o3);
        Ok(instr)
    }
}

/// How the bytes of an instruction decode, by their values: the first byte
/// is the opcode, the second the operand count; an operand is `0x00` and a
/// register number, or `0x01` and eight bytes of little-endian immediate.
pub proof fn lemma_decode_bytes(op: u8, x: u8, b: Seq<u8>)
    requires
        op < OPCODE_COUNT,
        b.len() == 8,
    ensures
        decode_spec(seq![op, 0u8]) == Ok::<Instruction, DecodeFault>(
            Instruction {
                opcode: OperationCode::of_byte(op)->Some_0,
                operand1: None,
                operand2: None,
                operand3: None,
            },
        ),
        decode_spec(seq![op, 1u8, 0x00u8, x]) == Ok::<Instruction, DecodeFault>(
            Instruction {
                opcode: OperationCode::of_byte(op)->Some_0,
                operand1: Some(Operand { kind: OperandKind::Register(Register(x)) }),
                operand2: None,
                operand3: None,
            },
        ),
        decode_spec(seq![op, 1u8, 0x01u8] + b) matches Ok(i) && i.opcode == OperationCode::of_byte(
            op,
        )->Some_0 && i.operand2 is None && i.operand3 is None && (i.operand1 matches Some(
            Operand { kind: OperandKind::Immediate(v) },
        ) && v == b[0] + 256 * b[1] + 65536 * b[2] + 16777216 * b[3] + 4294967296 * b[4]
            + 1099511627776 * b[5] + 281474976710656 * b[6] + 72057594037927936 * b[7]),
        decode_spec(seq![op, 2u8, 0x00u8, x, 0x00u8, x]) matches Ok(i) && i.operand1 == Some(
            Operand { kind: OperandKind::Register(Register(x)) },
        ) && i.operand2 == i.operand1 && i.operand3 is None,
        x > 3 ==> decode_spec(seq![op, x]) == Err::<Instruction, DecodeFault>(
            DecodeFault::OperandCount(x),
        ),
        x > 1 ==> decode_spec(seq![op, 1u8, x, 0u8]) == Err::<Instruction, DecodeFault>(
            DecodeFault::OperandTag(x),
        ),
{
    OperationCode::lemma_byte_names(op);
    let c = seq![op, 1u8, 0x01u8] + b;
    assert(c[3] == b[0] && c[4] == b[1] && c[5] == b[2] && c[6] == b[3]);
    assert(c[7] == b[4] && c[8] == b[5] && c[9] == b[6] && c[10] == b[7]);
    lemma_le_values(b[0], b[1], b[2], b[3], b[4], b[5], b[6], b[7]);
}

} // verus!
