//! The loader of files in the NVM Bytecode format (`.nb`).
//!
//! A file is the magic `NVMBC`, the minimal virtual-machine version it
//! requires as three little-endian `u16` (major, minor, patch), and then the
//! instructions, each encoded as [`crate::isa::instruction`] describes.
pub mod err;

use vstd::prelude::*;
use vstd::slice::slice_subrange;
use vstd::string::*;

use crate::bytes::{le_u16_at, le_u64_at, lemma_u64_roundtrip, read_le_u16, u64_le_bytes};
use crate::isa::instruction::{
    decode_spec, operand_at, DecodeFault, Instruction, TAG_IMMEDIATE, TAG_REGISTER,
};
use crate::isa::operand::{Operand, OperandKind};
use crate::isa::opcode::{OperationCode, OPCODE_COUNT};
use crate::loader::err::{LoaderError, LoaderErrorKind};
use crate::vm::semantics::aligned;
use crate::text::{
    decimal, decimal_string, lemma_decimal_digits, lemma_lex_step, lex_less, push_decimal, str_greater,
};
use crate::NVM_VERSION;

verus! {

/// The size of the header: five bytes of magic and six of version.
pub const HEADER_LEN: usize = 11;

/// Why a file does not load.
pub enum LoadFault {
    /// Not a bytecode file, for the given reason.
    Format(Seq<char>),
    /// The file requires the given version, which is newer than this machine.
    Version(Seq<char>),
    /// An unknown opcode byte (or an operand count above three after it).
    Opcode(u8),
    /// An unknown operand tag.
    OperandTag(u8),
    /// The file ends inside an instruction.
    EndOfFile { needed: nat, remaining: nat },
}

/// Whether the error `kind` reports the fault `f`.
pub open spec fn reports_load_fault(kind: LoaderErrorKind, f: LoadFault) -> bool {
    match f {
        LoadFault::Format(reason) => kind matches LoaderErrorKind::FileIsNotInNVMBytecodeFormat {
            reason: r,
        } && r@ == reason,
        LoadFault::Version(v) => kind matches LoaderErrorKind::UnsupportedVersion {
            file_version,
            vm_version,
        } && file_version@ == v && vm_version@ == NVM_VERSION@,
        LoadFault::Opcode(b) => kind matches LoaderErrorKind::UnknownOpcode { byte } && byte == b,
        LoadFault::OperandTag(b) => kind matches LoaderErrorKind::UnknownOperandTag { byte } && byte
            == b,
        LoadFault::EndOfFile { needed, remaining } => kind
            matches LoaderErrorKind::UnexpectedEndOfFile { needed: n, remaining: r } && n == needed
            && r == remaining,
    }
}

/// The file starts with the ASCII bytes of `NVMBC`.
pub open spec fn has_magic(src: Seq<u8>) -> bool {
    &&& src[0] == 0x4e
    &&& src[1] == 0x56
    &&& src[2] == 0x4d
    &&& src[3] == 0x42
    &&& src[4] == 0x43
}

/// The version a file requires, as `major.minor.patch` in decimal.
pub open spec fn version_text(src: Seq<u8>) -> Seq<char> {
    decimal(le_u16_at(src, 5) as nat) + "."@ + decimal(le_u16_at(src, 7) as nat) + "."@ + decimal(
        le_u16_at(src, 9) as nat,
    )
}

/// The size of an operand with the given tag.
pub open spec fn operand_size(tag: u8) -> Option<nat> {
    if tag == TAG_REGISTER {
        Some(2)
    } else if tag == TAG_IMMEDIATE {
        Some(9)
    } else {
        None
    }
}

/// Skips `k` operands from `pos` by their tags; the position after them.
/// Only the tag byte of each operand is required to be in the file.
pub open spec fn scan_operands(src: Seq<u8>, pos: nat, k: nat) -> Result<nat, LoadFault>
    decreases k,
{
    if k == 0 {
        Ok(pos)
    } else if pos >= src.len() {
        Err(LoadFault::EndOfFile { needed: 1, remaining: 0 })
    } else {
        match operand_size(src[pos as int]) {
            None => Err(LoadFault::OperandTag(src[pos as int])),
            Some(size) => scan_operands(src, pos + size, (k - 1) as nat),
        }
    }
}

/// The end of the instruction that starts at `offset` (`offset < src.len()`).
pub open spec fn instruction_end(src: Seq<u8>, offset: nat) -> Result<nat, LoadFault> {
    if offset + 2 > src.len() {
        Err(LoadFault::EndOfFile { needed: 2, remaining: (src.len() - offset) as nat })
    } else if src[offset as int] >= OPCODE_COUNT {
        Err(LoadFault::Opcode(src[offset as int]))
    } else if src[offset + 1int] > 3 {
        Err(LoadFault::Opcode(src[offset as int]))
    } else {
        match scan_operands(src, offset + 2, src[offset + 1int] as nat) {
            Err(f) => Err(f),
            Ok(end) => if end > src.len() {
                Err(
                    LoadFault::EndOfFile {
                        needed: (end - offset) as nat,
                        remaining: (src.len() - offset) as nat,
                    },
                )
            } else {
                Ok(end)
            },
        }
    }
}

/// The position after the operands is at or after where they start.
pub proof fn lemma_scan_grows(src: Seq<u8>, pos: nat, k: nat)
    ensures
        scan_operands(src, pos, k) matches Ok(e) ==> e >= pos,
    decreases k,
{
    if k > 0 && pos < src.len() {
        match operand_size(src[pos as int]) {
            Some(size) => lemma_scan_grows(src, pos + size, (k - 1) as nat),
            None => {},
        }
    }
}

/// An instruction spans at least its two header bytes and ends in the file.
pub proof fn lemma_instruction_end_bounds(src: Seq<u8>, offset: nat)
    ensures
        instruction_end(src, offset) matches Ok(end) ==> offset + 2 <= end <= src.len(),
{
    if offset + 2 <= src.len() && src[offset as int] < OPCODE_COUNT && src[offset + 1int] <= 3 {
        lemma_scan_grows(src, offset + 2, src[offset + 1int] as nat);
    }
}

/// The instruction encoded by the bytes `b` (which decode: see
/// [`lemma_instruction_decodes`]).
pub open spec fn decoded(b: Seq<u8>) -> Instruction {
    decode_spec(b)->Ok_0
}

/// The instructions of `src` from `offset` on, or the first fault.
pub open spec fn load_from(src: Seq<u8>, offset: nat) -> Result<Seq<Instruction>, LoadFault>
    decreases src.len() - offset,
{
    if offset >= src.len() {
        Ok(Seq::empty())
    } else {
        match instruction_end(src, offset) {
            Err(f) => Err(f),
            Ok(end) => {
                proof {
                    lemma_instruction_end_bounds(src, offset);
                }
                match load_from(src, end) {
                    Err(f) => Err(f),
                    Ok(rest) => Ok(seq![decoded(src.subrange(offset as int, end as int))] + rest),
                }
            },
        }
    }
}

/// What loading the file `src` gives: its instructions, or why it does not
/// load.
pub open spec fn load_spec(src: Seq<u8>) -> Result<Seq<Instruction>, LoadFault> {
    if src.len() < HEADER_LEN {
        Err(LoadFault::Format("the file must be at least 11 bytes in size"@))
    } else if !has_magic(src) {
        Err(LoadFault::Format("incorrect magic section"@))
    } else if lex_less(NVM_VERSION@, version_text(src)) {
        Err(LoadFault::Version(version_text(src)))
    } else {
        load_from(src, HEADER_LEN as nat)
    }
}

/// The version check orders versions as numbers: the text of version
/// `major.minor.patch` comes after [`NVM_VERSION`] (`0.1.0`) exactly when
/// `(major, minor, patch)` is above `(0, 1, 0)`.
pub proof fn lemma_version_order(major: nat, minor: nat, patch: nat)
    ensures
        lex_less(NVM_VERSION@, decimal(major) + "."@ + decimal(minor) + "."@ + decimal(patch))
            <==> !(major == 0 && (minor == 0 || (minor == 1 && patch == 0))),
{
    reveal_strlit("0.1.0");
    reveal_strlit(".");
    let a = NVM_VERSION@;
    assert(a =~= seq!['0', '.', '1', '.', '0']);
    let dm = decimal(major);
    let dn = decimal(minor);
    let dp = decimal(patch);
    lemma_decimal_digits(major);
    lemma_decimal_digits(minor);
    lemma_decimal_digits(patch);
    let v = dm + "."@ + dn + "."@ + dp;
    assert(v[0] == dm[0]);
    lemma_lex_step(a, v);
    if major == 0 {
        let v1 = v.drop_first();
        assert(v1 =~= "."@ + dn + "."@ + dp);
        let a1 = a.drop_first();
        lemma_lex_step(a1, v1);
        let v2 = v1.drop_first();
        assert(v2 =~= dn + "."@ + dp);
        let a2 = a1.drop_first();
        assert(a2 =~= seq!['1', '.', '0']);
        lemma_lex_step(a2, v2);
        assert(v2[0] == dn[0]);
        if minor == 1 {
            let v3 = v2.drop_first();
            assert(v3 =~= "."@ + dp);
            let a3 = a2.drop_first();
            lemma_lex_step(a3, v3);
            let v4 = v3.drop_first();
            assert(v4 =~= dp);
            let a4 = a3.drop_first();
            assert(a4 =~= seq!['0']);
            lemma_lex_step(a4, v4);
            if patch == 0 {
                assert(a4.drop_first() =~= Seq::<char>::empty());
                assert(v4.drop_first() =~= Seq::<char>::empty());
            }
        } else if minor >= 10 && dn[0] == '1' {
            let v3 = v2.drop_first();
            assert(v3[0] == dn[1]);
            let a3 = a2.drop_first();
            lemma_lex_step(a3, v3);
        }
    }
}

/// `r` with `p` in front of its instructions.
pub open spec fn prepend(p: Seq<Instruction>, r: Result<Seq<Instruction>, LoadFault>) -> Result<
    Seq<Instruction>,
    LoadFault,
> {
    match r {
        Ok(rest) => Ok(p + rest),
        Err(f) => Err(f),
    }
}

/// An operand that the scan skipped lies wholly within its instruction.
proof fn lemma_operand_fits(src: Seq<u8>, offset: nat, end: nat, q: nat, k: nat, e: nat)
    requires
        k >= 1,
        scan_operands(src, offset + q, k) == Ok::<nat, LoadFault>(e),
        e <= end,
        end <= src.len(),
    ensures
        operand_at(src.subrange(offset as int, end as int), q) matches Ok((_, q2)) && scan_operands(
            src,
            offset + q2,
            (k - 1) as nat,
        ) == Ok::<nat, LoadFault>(e),
{
    let pos = offset + q;
    let size = operand_size(src[pos as int])->Some_0;
    lemma_scan_grows(src, pos + size, (k - 1) as nat);
    let b = src.subrange(offset as int, end as int);
    assert(b[q as int] == src[pos as int]);
}

/// The bytes of every instruction that the scan accepts decode.
pub proof fn lemma_instruction_decodes(src: Seq<u8>, offset: nat, end: nat)
    requires
        offset < src.len(),
        instruction_end(src, offset) == Ok::<nat, LoadFault>(end),
    ensures
        decode_spec(src.subrange(offset as int, end as int)) is Ok,
{
    lemma_instruction_end_bounds(src, offset);
    let b = src.subrange(offset as int, end as int);
    let n = src[offset + 1int] as nat;
    assert(b[0] == src[offset as int]);
    assert(b[1] == src[offset + 1int]);
    assert(OperationCode::of_byte(b[0]) is Some);
    if n >= 1 {
        lemma_operand_fits(src, offset, end, 2, n, end);
        let q1 = operand_at(b, 2)->Ok_0.1;
        if n >= 2 {
            lemma_operand_fits(src, offset, end, q1, (n - 1) as nat, end);
            let q2 = operand_at(b, q1)->Ok_0.1;
            if n >= 3 {
                lemma_operand_fits(src, offset, end, q2, (n - 2) as nat, end);
            }
        }
    }
}

/// Every instruction that decodes has its operands first.
pub proof fn lemma_decoded_aligned(b: Seq<u8>)
    ensures
        decode_spec(b) matches Ok(i) ==> i.is_aligned(),
{
}

/// The instructions loaded from `offset` on have their operands first.
proof fn lemma_load_from_aligned(src: Seq<u8>, offset: nat)
    ensures
        load_from(src, offset) matches Ok(p) ==> aligned(p),
    decreases src.len() - offset,
{
    if offset < src.len() {
        match instruction_end(src, offset) {
            Ok(end) => {
                lemma_instruction_end_bounds(src, offset);
                lemma_load_from_aligned(src, end);
                lemma_instruction_decodes(src, offset, end);
                let b = src.subrange(offset as int, end as int);
                lemma_decoded_aligned(b);
                match load_from(src, end) {
                    Ok(rest) => {
                        let p = seq![decoded(b)] + rest;
                        assert forall|j: int| 0 <= j < p.len() implies (#[trigger] p[j]).is_aligned() by {
                            if j > 0 {
                                assert(p[j] == rest[j - 1]);
                            }
                        }
                    },
                    Err(_) => {},
                }
            },
            Err(_) => {},
        }
    }
}

/// Every loaded program has its operands first, as [`NVM::run`] requires.
///
/// [`NVM::run`]: crate::vm::NVM::run
pub proof fn lemma_loaded_aligned(src: Seq<u8>)
    ensures
        load_spec(src) matches Ok(p) ==> aligned(p),
{
    lemma_load_from_aligned(src, HEADER_LEN as nat);
}

/// `s2` from `o2` on holds the bytes of `s1` from `o1` on.
pub open spec fn same_tail(s1: Seq<u8>, o1: nat, s2: Seq<u8>, o2: nat) -> bool {
    &&& o1 <= s1.len()
    &&& o2 <= s2.len()
    &&& s1.len() - o1 == s2.len() - o2
    &&& forall|t: int| 0 <= t < s1.len() - o1 ==> #[trigger] s1[o1 + t] == s2[o2 + t]
}

/// Skipping operands reads only the bytes from where it starts: on equal
/// tails it gives the same fault, or ends at the same distance.
proof fn lemma_scan_shift(s1: Seq<u8>, o1: nat, s2: Seq<u8>, o2: nat, d: nat, k: nat)
    requires
        same_tail(s1, o1, s2, o2),
    ensures
        match scan_operands(s1, o1 + d, k) {
            Ok(e) => e >= o1 + d && scan_operands(s2, o2 + d, k) == Ok::<nat, LoadFault>(
                (e - o1 + o2) as nat,
            ),
            Err(f) => scan_operands(s2, o2 + d, k) == Err::<nat, LoadFault>(f),
        },
    decreases k,
{
    if k > 0 && o1 + d < s1.len() {
        assert(s1[o1 + (d as int)] == s2[o2 + (d as int)]);
        match operand_size(s1[(o1 + d) as int]) {
            Some(size) => {
                lemma_scan_shift(s1, o1, s2, o2, d + size, (k - 1) as nat);
            },
            None => {},
        }
    }
}

/// The end of an instruction depends only on the bytes from its start.
proof fn lemma_instruction_end_shift(s1: Seq<u8>, o1: nat, s2: Seq<u8>, o2: nat, d: nat)
    requires
        same_tail(s1, o1, s2, o2),
        o1 + d < s1.len(),
    ensures
        match instruction_end(s1, o1 + d) {
            Ok(e) => o1 + d + 2 <= e <= s1.len() && instruction_end(s2, o2 + d) == Ok::<nat, LoadFault>(
                (e - o1 + o2) as nat,
            ) && s1.subrange((o1 + d) as int, e as int) == s2.subrange((o2 + d) as int, e - o1 + o2),
            Err(f) => instruction_end(s2, o2 + d) == Err::<nat, LoadFault>(f),
        },
{
    lemma_instruction_end_bounds(s1, o1 + d);
    if o1 + d + 2 <= s1.len() {
        assert(s1[o1 + (d as int)] == s2[o2 + (d as int)]);
        assert(s1[o1 + (d + 1) as int] == s2[o2 + (d + 1) as int]);
        if s1[(o1 + d) as int] < OPCODE_COUNT && s1[(o1 + d + 1) as int] <= 3 {
            lemma_scan_shift(s1, o1, s2, o2, d + 2, s1[(o1 + d + 1) as int] as nat);
        }
    }
    if let Ok(e) = instruction_end(s1, o1 + d) {
        let e2 = e - o1 + o2;
        assert forall|t: int| 0 <= t < e - (o1 + d) implies #[trigger] s1.subrange(
            (o1 + d) as int,
            e as int,
        )[t] == s2.subrange((o2 + d) as int, e2)[t] by {
            assert(s1[o1 + (d + t)] == s2[o2 + (d + t)]);
        }
        assert(s1.subrange((o1 + d) as int, e as int) =~= s2.subrange((o2 + d) as int, e2));
    }
}

/// Loading depends only on the bytes from where it starts.
proof fn lemma_load_shift(s1: Seq<u8>, o1: nat, s2: Seq<u8>, o2: nat, d: nat)
    requires
        same_tail(s1, o1, s2, o2),
    ensures
        load_from(s1, o1 + d) == load_from(s2, o2 + d),
    decreases s1.len() - (o1 + d),
{
    if o1 + d < s1.len() {
        lemma_instruction_end_shift(s1, o1, s2, o2, d);
        match instruction_end(s1, o1 + d) {
            Ok(e) => {
                lemma_load_shift(s1, o1, s2, o2, (e - o1) as nat);
                assert(o2 + (e - o1) == e - o1 + o2);
            },
            Err(_) => {},
        }
    }
}

/// Reading an instruction reads only the bytes up to its end: a longer file
/// gives the same instruction.
proof fn lemma_scan_prefix(x: Seq<u8>, y: Seq<u8>, pos: nat, k: nat)
    requires
        scan_operands(x, pos, k) matches Ok(e) && e <= x.len(),
    ensures
        scan_operands(x + y, pos, k) == scan_operands(x, pos, k),
    decreases k,
{
    if k > 0 {
        lemma_scan_grows(x, pos + operand_size(x[pos as int])->Some_0, (k - 1) as nat);
        assert((x + y)[pos as int] == x[pos as int]);
        lemma_scan_prefix(x, y, pos + operand_size(x[pos as int])->Some_0, (k - 1) as nat);
    }
}

/// Loading a file that continues after `x`: the instructions of `x` from
/// `offset` on, then those after `x`.
proof fn lemma_load_prefix(x: Seq<u8>, y: Seq<u8>, offset: nat)
    requires
        offset <= x.len(),
        load_from(x, offset) is Ok,
    ensures
        load_from(x + y, offset) == prepend(load_from(x, offset)->Ok_0, load_from(x + y, x.len())),
    decreases x.len() - offset,
{
    if offset >= x.len() {
        assert(offset == x.len());
        match load_from(x + y, x.len()) {
            Ok(rest) => {
                assert(Seq::<Instruction>::empty() + rest =~= rest);
            },
            Err(_) => {},
        }
    } else {
        let xy = x + y;
        let end = instruction_end(x, offset)->Ok_0;
        lemma_instruction_end_bounds(x, offset);
        assert(xy[offset as int] == x[offset as int]);
        assert(xy[offset + 1int] == x[offset + 1int]);
        lemma_scan_prefix(x, y, offset + 2, x[offset + 1int] as nat);
        assert(instruction_end(xy, offset) == Ok::<nat, LoadFault>(end));
        assert(xy.subrange(offset as int, end as int) =~= x.subrange(offset as int, end as int));
        lemma_load_prefix(x, y, end);
        let v = load_from(x, end)->Ok_0;
        match load_from(xy, x.len()) {
            Ok(rest) => {
                let d = decoded(x.subrange(offset as int, end as int));
                assert(seq![d] + (v + rest) =~= (seq![d] + v) + rest);
            },
            Err(_) => {},
        }
    }
}

/// Loading a concatenation concatenates the loadings: with the same header,
/// a file whose stream is `a` then `b` holds the instructions of `a`, then
/// those of `b`, in order, none dropped or merged.
pub proof fn lemma_load_concat(header: Seq<u8>, a: Seq<u8>, b: Seq<u8>)
    requires
        header.len() == HEADER_LEN,
        load_spec(header + a) is Ok,
        load_spec(header + b) is Ok,
    ensures
        load_spec(header + a + b) == Ok::<Seq<Instruction>, LoadFault>(
            load_spec(header + a)->Ok_0 + load_spec(header + b)->Ok_0,
        ),
{
    let x = header + a;
    let ab = header + a + b;
    let hb = header + b;
    assert(ab =~= x + b);
    assert forall|i: int| 0 <= i < HEADER_LEN implies ab[i] == x[i] && hb[i] == x[i] by {}
    assert(le_u16_at(ab, 5) == le_u16_at(x, 5) && le_u16_at(ab, 7) == le_u16_at(x, 7) && le_u16_at(
        ab,
        9,
    ) == le_u16_at(x, 9));
    assert(version_text(ab) == version_text(x));
    lemma_load_prefix(x, b, HEADER_LEN as nat);
    assert(same_tail(ab, x.len(), hb, HEADER_LEN as nat)) by {
        assert forall|t: int| 0 <= t < ab.len() - x.len() implies #[trigger] ab[x.len() + t]
            == hb[HEADER_LEN + t] by {}
    }
    lemma_load_shift(ab, x.len(), hb, HEADER_LEN as nat, 0);
    assert(x.len() + 0 == x.len());
}

/// The bytes of an operand in a bytecode file: a tag, then the register
/// number or the little-endian immediate.
pub open spec fn operand_bytes(o: Operand) -> Seq<u8> {
    match o.kind {
        OperandKind::Register(r) => seq![TAG_REGISTER, r.0],
        OperandKind::Immediate(v) => seq![TAG_IMMEDIATE] + u64_le_bytes(v),
    }
}

/// The bytes of an operand that may be missing.
pub open spec fn present_bytes(o: Option<Operand>) -> Seq<u8> {
    match o {
        Some(x) => operand_bytes(x),
        None => Seq::empty(),
    }
}

/// The bytes of an instruction in a bytecode file: opcode, operand count,
/// operands.
pub open spec fn instruction_bytes(i: Instruction) -> Seq<u8> {
    seq![i.opcode.byte_of(), i.count_of() as u8] + present_bytes(i.operand1) + present_bytes(
        i.operand2,
    ) + present_bytes(i.operand3)
}

/// The bytes of the instructions of a program, one after another.
pub open spec fn program_bytes(p: Seq<Instruction>) -> Seq<u8>
    decreases p.len(),
{
    if p.len() == 0 {
        Seq::empty()
    } else {
        program_bytes(p.drop_last()) + instruction_bytes(p.last())
    }
}

/// An operand's bytes, wherever they stand, are skipped by their tag and read
/// back as the operand.
proof fn lemma_operand_bytes(pre: Seq<u8>, o: Operand, post: Seq<u8>)
    ensures
        operand_size((pre + operand_bytes(o) + post)[pre.len() as int]) == Some(
            operand_bytes(o).len(),
        ),
        operand_at(pre + operand_bytes(o) + post, pre.len()) == Ok::<(Operand, nat), DecodeFault>(
            (o, pre.len() + operand_bytes(o).len()),
        ),
{
    let ob = operand_bytes(o);
    let b = pre + ob + post;
    let n = pre.len() as int;
    assert forall|t: int| 0 <= t < ob.len() implies #[trigger] b[n + t] == ob[t] by {
        assert((pre + ob)[n + t] == ob[t]);
    }
    assert(b[n + 0] == ob[0]);
    match o.kind {
        OperandKind::Register(r) => {
            assert(b[n + 1] == ob[1]);
        },
        OperandKind::Immediate(v) => {
            let w = u64_le_bytes(v);
            lemma_u64_roundtrip(v);
            assert forall|t: int| 0 <= t < 8 implies #[trigger] b[n + 1 + t] == w[t] by {
                assert(b[n + (1 + t)] == ob[1 + t]);
            }
            assert(b[n + 1 + 0] == w[0] && b[n + 1 + 1] == w[1] && b[n + 1 + 2] == w[2] && b[n + 1 + 3]
                == w[3]);
            assert(b[n + 1 + 4] == w[4] && b[n + 1 + 5] == w[5] && b[n + 1 + 6] == w[6] && b[n + 1 + 7]
                == w[7]);
            assert(le_u64_at(b, n + 1) == le_u64_at(w, 0));
        },
    }
}

/// The bytes of an instruction whose operands come first, wherever they
/// stand, are scanned to their end.
proof fn lemma_instruction_bytes_end(pre: Seq<u8>, i: Instruction)
    requires
        i.is_aligned(),
    ensures
        instruction_end(pre + instruction_bytes(i), pre.len()) == Ok::<nat, LoadFault>(
            pre.len() + instruction_bytes(i).len(),
        ),
{
    OperationCode::lemma_byte_roundtrip(i.opcode);
    let h2 = seq![i.opcode.byte_of(), i.count_of() as u8];
    let p1 = present_bytes(i.operand1);
    let p2 = present_bytes(i.operand2);
    let p3 = present_bytes(i.operand3);
    let bb = instruction_bytes(i);
    let x = pre + bb;
    let base = pre.len();
    assert(bb =~= h2 + p1 + p2 + p3);
    assert(x[base as int] == bb[0] && x[base + 1int] == bb[1]);
    let q0 = base + 2;
    match i.operand1 {
        None => {
            assert(scan_operands(x, q0, 0) == Ok::<nat, LoadFault>(q0));
        },
        Some(o1) => {
            let q1 = q0 + p1.len();
            assert(x =~= (pre + h2) + operand_bytes(o1) + (p2 + p3));
            lemma_operand_bytes(pre + h2, o1, p2 + p3);
            match i.operand2 {
                None => {
                    assert(scan_operands(x, q1, 0) == Ok::<nat, LoadFault>(q1));
                    assert(scan_operands(x, q0, 1) == Ok::<nat, LoadFault>(q1));
                },
                Some(o2) => {
                    let q2 = q1 + p2.len();
                    assert(x =~= (pre + h2 + p1) + operand_bytes(o2) + p3);
                    lemma_operand_bytes(pre + h2 + p1, o2, p3);
                    match i.operand3 {
                        None => {
                            assert(scan_operands(x, q2, 0) == Ok::<nat, LoadFault>(q2));
                            assert(scan_operands(x, q1, 1) == Ok::<nat, LoadFault>(q2));
                            assert(scan_operands(x, q0, 2) == Ok::<nat, LoadFault>(q2));
                        },
                        Some(o3) => {
                            let q3 = q2 + p3.len();
                            assert(x =~= (pre + h2 + p1 + p2) + operand_bytes(o3) + Seq::empty());
                            lemma_operand_bytes(pre + h2 + p1 + p2, o3, Seq::empty());
                            assert(scan_operands(x, q3, 0) == Ok::<nat, LoadFault>(q3));
                            assert(scan_operands(x, q2, 1) == Ok::<nat, LoadFault>(q3));
                            assert(scan_operands(x, q1, 2) == Ok::<nat, LoadFault>(q3));
                            assert(scan_operands(x, q0, 3) == Ok::<nat, LoadFault>(q3));
                        },
                    }
                },
            }
        },
    }
}

/// The bytes of an instruction whose operands come first decode as it.
proof fn lemma_instruction_bytes_decode(i: Instruction)
    requires
        i.is_aligned(),
    ensures
        decode_spec(instruction_bytes(i)) == Ok::<Instruction, DecodeFault>(i),
{
    OperationCode::lemma_byte_roundtrip(i.opcode);
    let h2 = seq![i.opcode.byte_of(), i.count_of() as u8];
    let p1 = present_bytes(i.operand1);
    let p2 = present_bytes(i.operand2);
    let p3 = present_bytes(i.operand3);
    let bb = instruction_bytes(i);
    assert(bb =~= h2 + p1 + p2 + p3);
    assert(bb[0] == h2[0] && bb[1] == h2[1]);
    match i.operand1 {
        None => {},
        Some(o1) => {
            assert(bb =~= h2 + operand_bytes(o1) + (p2 + p3));
            lemma_operand_bytes(h2, o1, p2 + p3);
            match i.operand2 {
                None => {},
                Some(o2) => {
                    assert(bb =~= (h2 + p1) + operand_bytes(o2) + p3);
                    lemma_operand_bytes(h2 + p1, o2, p3);
                    match i.operand3 {
                        None => {},
                        Some(o3) => {
                            assert(bb =~= (h2 + p1 + p2) + operand_bytes(o3) + Seq::empty());
                            lemma_operand_bytes(h2 + p1 + p2, o3, Seq::empty());
                        },
                    }
                },
            }
        },
    }
}

/// A file with a valid header and the bytes of one instruction whose
/// operands come first loads as that instruction.
proof fn lemma_single_instruction(header: Seq<u8>, i: Instruction)
    requires
        header.len() == HEADER_LEN,
        load_spec(header) is Ok,
        i.is_aligned(),
    ensures
        load_spec(header + instruction_bytes(i)) == Ok::<Seq<Instruction>, LoadFault>(seq![i]),
{
    let bb = instruction_bytes(i);
    let x = header + bb;
    let base = HEADER_LEN as nat;
    assert forall|t: int| 0 <= t < HEADER_LEN implies x[t] == header[t] by {}
    assert(le_u16_at(x, 5) == le_u16_at(header, 5) && le_u16_at(x, 7) == le_u16_at(header, 7)
        && le_u16_at(x, 9) == le_u16_at(header, 9));
    assert(version_text(x) == version_text(header));
    lemma_instruction_bytes_end(header, i);
    lemma_instruction_bytes_decode(i);
    let end = x.len();
    assert(x.subrange(base as int, end as int) =~= bb);
    assert(load_from(x, end) == Ok::<Seq<Instruction>, LoadFault>(Seq::empty()));
    assert(seq![decoded(bb)] + Seq::<Instruction>::empty() =~= seq![i]);
}

/// Loading reads back what is written: a file with a valid header followed
/// by the bytes of the instructions of a program whose operands come first
/// loads as that program.
pub proof fn lemma_program_roundtrip(header: Seq<u8>, p: Seq<Instruction>)
    requires
        header.len() == HEADER_LEN,
        load_spec(header) is Ok,
        aligned(p),
    ensures
        load_spec(header + program_bytes(p)) == Ok::<Seq<Instruction>, LoadFault>(p),
    decreases p.len(),
{
    if p.len() == 0 {
        assert(header + program_bytes(p) =~= header);
        assert(load_from(header, HEADER_LEN as nat) == Ok::<Seq<Instruction>, LoadFault>(Seq::empty()));
        assert(p =~= Seq::<Instruction>::empty());
    } else {
        let q = p.drop_last();
        let i = p.last();
        assert(aligned(q)) by {
            assert forall|j: int| 0 <= j < q.len() implies (#[trigger] q[j]).is_aligned() by {
                assert(q[j] == p[j]);
            }
        }
        assert(p[p.len() - 1].is_aligned());
        lemma_program_roundtrip(header, q);
        lemma_single_instruction(header, i);
        lemma_load_concat(header, program_bytes(q), instruction_bytes(i));
        assert(header + program_bytes(p) =~= header + program_bytes(q) + instruction_bytes(i));
        assert(q + seq![i] =~= p);
    }
}

/// A loader of one bytecode file.
pub struct NVMLoader {
    /// The bytes of the file.
    pub src: Vec<u8>,
}

impl NVMLoader {
    /// A loader of the file with the given bytes.
    pub fn new(src: Vec<u8>) -> (l: Self)
        ensures
            l.src@ == src@,
    {
        Self { src }
    }

    /// Reads the program of the file.
    ///
    /// Fails if the file is shorter than its header or lacks the magic, if it
    /// requires a version that is (as text, character by character) later
    /// than [`NVM_VERSION`], or at the first instruction with an unknown
    /// opcode, an operand count above three, an unknown operand tag, or that
    /// does not end in the file.
    pub fn transpile(&self) -> (r: Result<Vec<Instruction>, LoaderError>)
        requires
            self.src@.len() <= isize::MAX,
        ensures
            match load_spec(self.src@) {
                Ok(p) => r matches Ok(v) && v@ == p,
                Err(f) => r matches Err(e) && reports_load_fault(e.kind, f),
            },
    {
        let len = self.src.len();
        if len < HEADER_LEN {
            return Err(
                LoaderError::new(
                    LoaderErrorKind::FileIsNotInNVMBytecodeFormat {
                        reason: String::from_str("the file must be at least 11 bytes in size"),
                    },
                ),
            );
        }
        if !(self.src[0] == 0x4e && self.src[1] == 0x56 && self.src[2] == 0x4d && self.src[3]
            == 0x42 && self.src[4] == 0x43) {
            return Err(
                LoaderError::new(
                    LoaderErrorKind::FileIsNotInNVMBytecodeFormat {
                        reason: String::from_str("incorrect magic section"),
                    },
                ),
            );
        }
        let bytes = self.src.as_slice();
        let first = read_le_u16(bytes, 5);
        let second = read_le_u16(bytes, 7);
        let third = read_le_u16(bytes, 9);
        let mut minimal_version = decimal_string(first as u64);
        minimal_version.append(".");
        push_decimal(&mut minimal_version, second as u64);
        minimal_version.append(".");
        push_decimal(&mut minimal_version, third as u64);
        assert(minimal_version@ =~= version_text(self.src@));
        if str_greater(minimal_version.as_str(), NVM_VERSION) {
            return Err(
                LoaderError::new(
                    LoaderErrorKind::UnsupportedVersion {
                        file_version: minimal_version,
                        vm_version: String::from_str(NVM_VERSION),
                    },
                ),
            );
        }
        let ghost src = self.src@;
        let mut instructions: Vec<Instruction> = Vec::new();
        let mut offset: usize = HEADER_LEN;
        assert(instructions@ + Seq::<Instruction>::empty() =~= Seq::<Instruction>::empty());
        assert(prepend(instructions@, load_from(src, offset as nat)) == load_from(src, offset as nat))
            by {
            match load_from(src, offset as nat) {
                Ok(rest) => {
                    assert(instructions@ + rest =~= rest);
                },
                Err(_) => {},
            }
        }
        while offset < len
            invariant
                src == self.src@,
                len == src.len(),
                len <= isize::MAX,
                HEADER_LEN <= offset <= len,
                load_spec(src) == load_from(src, HEADER_LEN as nat),
                load_from(src, HEADER_LEN as nat) == prepend(
                    instructions@,
                    load_from(src, offset as nat),
                ),
            decreases len - offset,
        {
            if len - offset < 2 {
                return Err(
                    LoaderError::new(
                        LoaderErrorKind::UnexpectedEndOfFile { needed: 2, remaining: len - offset },
                    ),
                );
            }
            let opcode_byte = self.src[offset];
            if opcode_byte >= OPCODE_COUNT {
                return Err(LoaderError::new(LoaderErrorKind::UnknownOpcode { byte: opcode_byte }));
            }
            let operand_count = self.src[offset + 1];
            if operand_count > 3 {
                return Err(LoaderError::new(LoaderErrorKind::UnknownOpcode { byte: opcode_byte }));
            }
            proof {
                assert(load_spec(src) == prepend(instructions@, load_from(src, offset as nat)));
            }
            let mut instr_size: usize = 2;
            let mut pos: usize = offset + 2;
            let mut k: u8 = 0;
            while k < operand_count
                invariant
                    src == self.src@,
                    len == src.len(),
                    len <= isize::MAX,
                    offset + 2 <= len,
                    HEADER_LEN <= offset,
                    load_spec(src) == prepend(instructions@, load_from(src, offset as nat)),
                    src[offset as int] < OPCODE_COUNT,
                    operand_count <= 3,
                    k <= operand_count,
                    operand_count == src[offset + 1int],
                    pos == offset + instr_size,
                    pos <= len + 8,
                    scan_operands(src, offset as nat + 2, operand_count as nat) == scan_operands(
                        src,
                        pos as nat,
                        (operand_count - k) as nat,
                    ),
                decreases operand_count - k,
            {
                if pos >= len {
                    proof {
                        assert(load_from(src, offset as nat) == Err::<Seq<Instruction>, LoadFault>(
                            LoadFault::EndOfFile { needed: 1, remaining: 0 },
                        ));
                    }
                    // `pos` is at or past the end of the file: no byte remains.
                    return Err(
                        LoaderError::new(
                            LoaderErrorKind::UnexpectedEndOfFile { needed: 1, remaining: 0 },
                        ),
                    );
                }
                let tag = self.src[pos];
                let op_size: usize = if tag == TAG_REGISTER {
                    2
                } else if tag == TAG_IMMEDIATE {
                    9
                } else {
                    proof {
                        assert(load_from(src, offset as nat) == Err::<Seq<Instruction>, LoadFault>(
                            LoadFault::OperandTag(tag),
                        ));
                    }
                    return Err(LoaderError::new(LoaderErrorKind::UnknownOperandTag { byte: tag }));
                };
                instr_size = instr_size + op_size;
                pos = pos + op_size;
                k = k + 1;
            }
            let end = pos;
            if end > len {
                return Err(
                    LoaderError::new(
                        LoaderErrorKind::UnexpectedEndOfFile {
                            needed: instr_size,
                            remaining: len - offset,
                        },
                    ),
                );
            }
            proof {
                assert(instruction_end(src, offset as nat) == Ok::<nat, LoadFault>(end as nat));
                lemma_instruction_decodes(src, offset as nat, end as nat);
            }
            let instr_bytes = slice_subrange(self.src.as_slice(), offset, end);
            let instruction = match Instruction::decode(instr_bytes) {
                Ok(i) => i,
                Err(e) => {
                    let mut reason = String::from_str("failed to parse instruction at offset ");
                    push_decimal(&mut reason, offset as u64);
                    reason.append(": ");
                    let message = e.to_string();
                    reason.append(message.as_str());
                    return Err(
                        LoaderError::new(LoaderErrorKind::FileIsNotInNVMBytecodeFormat { reason }),
                    );
                },
            };
            let ghost before = instructions@;
            instructions.push(instruction);
            proof {
                match load_from(src, end as nat) {
                    Ok(rest) => {
                        assert(before + (seq![instruction] + rest) =~= instructions@ + rest);
                    },
                    Err(_) => {},
                }
            }
            offset = end;
        }
        proof {
            assert(instructions@ + Seq::<Instruction>::empty() =~= instructions@);
        }
        Ok(instructions)
    }
}

} // verus!
