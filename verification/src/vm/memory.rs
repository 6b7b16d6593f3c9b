//! The memory of the virtual machine: a contiguous sequence of bytes,
//! addressed from `0`. Multi-byte values are stored little-endian.
//!
//! ```text
//! Address:   0    1    2    3    ...
//!          +----+----+----+----+
//! Data     | 12 | FF | 00 | A5 |
//!          +----+----+----+----+
//! ```
use vstd::prelude::*;

use crate::isa::register::Register;

use crate::bytes::{
    lemma_le_values,
    lemma_u16_roundtrip, lemma_u32_roundtrip, lemma_u64_roundtrip, le_u16_at, le_u32_at, le_u64_at, read_le_u16, read_le_u32, read_le_u64, u16_le_bytes,
    u32_le_bytes, u64_le_bytes,
};

verus! {

/// `bytes` written over `m` from address `a`, if they fit.
pub open spec fn write_bytes(m: Seq<u8>, a: int, bytes: Seq<u8>) -> Option<Seq<u8>> {
    if 0 <= a && a + bytes.len() <= m.len() {
        Some(m.take(a) + bytes + m.skip(a + bytes.len()))
    } else {
        None
    }
}

/// The byte at address `a` of `m`, if there is one.
pub open spec fn read_u8(m: Seq<u8>, a: int) -> Option<u8> {
    if 0 <= a < m.len() {
        Some(m[a])
    } else {
        None
    }
}

/// The little-endian `u16` at address `a` of `m`, if it fits.
pub open spec fn read_u16(m: Seq<u8>, a: int) -> Option<u16> {
    if 0 <= a && a + 2 <= m.len() {
        Some(le_u16_at(m, a))
    } else {
        None
    }
}

/// The little-endian `u32` at address `a` of `m`, if it fits.
pub open spec fn read_u32(m: Seq<u8>, a: int) -> Option<u32> {
    if 0 <= a && a + 4 <= m.len() {
        Some(le_u32_at(m, a))
    } else {
        None
    }
}

/// The little-endian `u64` at address `a` of `m`, if it fits.
pub open spec fn read_u64(m: Seq<u8>, a: int) -> Option<u64> {
    if 0 <= a && a + 8 <= m.len() {
        Some(le_u64_at(m, a))
    } else {
        None
    }
}

/// Writing keeps the size, puts `bytes` from `a` on, and keeps every other
/// byte.
pub proof fn lemma_write_bytes(m: Seq<u8>, a: int, bytes: Seq<u8>)
    ensures
        write_bytes(m, a, bytes) matches Some(m2) ==> {
            &&& m2.len() == m.len()
            &&& forall|k: int| 0 <= k < bytes.len() ==> m2[a + k] == #[trigger] bytes[k]
            &&& forall|j: int| 0 <= j < m.len() && !(a <= j < a + bytes.len()) ==> #[trigger] m2[j] == m[j]
        },
{
    if 0 <= a && a + bytes.len() <= m.len() {
        let m2 = m.take(a) + bytes + m.skip(a + bytes.len());
        assert forall|k: int| 0 <= k < bytes.len() implies m2[a + k] == #[trigger] bytes[k] by {
            assert((m.take(a) + bytes)[a + k] == bytes[k]);
        }
    }
}

/// A byte stored at `a` reads back at `a`. The store succeeds exactly where a
/// load of the same width does, and keeps the size and every other byte.
pub proof fn lemma_u8_store_load(m: Seq<u8>, a: int, v: u8)
    ensures
        write_bytes(m, a, seq![v]) is Some <==> read_u8(m, a) is Some,
        write_bytes(m, a, seq![v]) matches Some(m2) ==> {
            &&& read_u8(m2, a) == Some(v)
            &&& m2.len() == m.len()
            &&& forall|j: int| 0 <= j < m.len() && j != a ==> #[trigger] m2[j] == m[j]
        },
{
    lemma_write_bytes(m, a, seq![v]);
    if let Some(m2) = write_bytes(m, a, seq![v]) {
        assert(m2[a + 0] == seq![v][0]);
    }
}

/// A `u16` stored at `a` reads back at `a`. The store succeeds exactly where
/// a load of the same width does, and keeps the size and every other byte.
pub proof fn lemma_u16_store_load(m: Seq<u8>, a: int, v: u16)
    ensures
        write_bytes(m, a, u16_le_bytes(v)) is Some <==> read_u16(m, a) is Some,
        write_bytes(m, a, u16_le_bytes(v)) matches Some(m2) ==> {
            &&& read_u16(m2, a) == Some(v)
            &&& m2.len() == m.len()
            &&& forall|j: int| 0 <= j < m.len() && !(a <= j < a + 2) ==> #[trigger] m2[j] == m[j]
        },
{
    let b = u16_le_bytes(v);
    lemma_write_bytes(m, a, b);
    lemma_u16_roundtrip(v);
    if let Some(m2) = write_bytes(m, a, b) {
        assert(m2[a + 0] == b[0] && m2[a + 1] == b[1]);
        assert(le_u16_at(m2, a) == le_u16_at(b, 0));
    }
}

/// A `u32` stored at `a` reads back at `a`. The store succeeds exactly where
/// a load of the same width does, and keeps the size and every other byte.
pub proof fn lemma_u32_store_load(m: Seq<u8>, a: int, v: u32)
    ensures
        write_bytes(m, a, u32_le_bytes(v)) is Some <==> read_u32(m, a) is Some,
        write_bytes(m, a, u32_le_bytes(v)) matches Some(m2) ==> {
            &&& read_u32(m2, a) == Some(v)
            &&& m2.len() == m.len()
            &&& forall|j: int| 0 <= j < m.len() && !(a <= j < a + 4) ==> #[trigger] m2[j] == m[j]
        },
{
    let b = u32_le_bytes(v);
    lemma_write_bytes(m, a, b);
    lemma_u32_roundtrip(v);
    if let Some(m2) = write_bytes(m, a, b) {
        assert(m2[a + 0] == b[0] && m2[a + 1] == b[1] && m2[a + 2] == b[2] && m2[a + 3] == b[3]);
        assert(le_u32_at(m2, a) == le_u32_at(b, 0));
    }
}

/// A `u64` stored at `a` reads back at `a`. The store succeeds exactly where
/// a load of the same width does, and keeps the size and every other byte.
pub proof fn lemma_u64_store_load(m: Seq<u8>, a: int, v: u64)
    ensures
        write_bytes(m, a, u64_le_bytes(v)) is Some <==> read_u64(m, a) is Some,
        write_bytes(m, a, u64_le_bytes(v)) matches Some(m2) ==> {
            &&& read_u64(m2, a) == Some(v)
            &&& m2.len() == m.len()
            &&& forall|j: int| 0 <= j < m.len() && !(a <= j < a + 8) ==> #[trigger] m2[j] == m[j]
        },
{
    let b = u64_le_bytes(v);
    lemma_write_bytes(m, a, b);
    lemma_u64_roundtrip(v);
    if let Some(m2) = write_bytes(m, a, b) {
        assert(m2[a + 0] == b[0] && m2[a + 1] == b[1] && m2[a + 2] == b[2] && m2[a + 3] == b[3]);
        assert(m2[a + 4] == b[4] && m2[a + 5] == b[5] && m2[a + 6] == b[6] && m2[a + 7] == b[7]);
        assert(le_u64_at(m2, a) == le_u64_at(b, 0));
    }
}

/// What a load reads, by the bytes of memory: it succeeds exactly when all its
/// bytes are in memory, and gives them little-endian (the first byte counts
/// ones, the next 256s, and so on).
pub proof fn lemma_read_values(m: Seq<u8>, a: int)
    ensures
        read_u8(m, a) is Some <==> 0 <= a && a + 1 <= m.len(),
        read_u8(m, a) matches Some(v) ==> v == m[a],
        read_u16(m, a) is Some <==> 0 <= a && a + 2 <= m.len(),
        read_u16(m, a) matches Some(v) ==> v == m[a] + 256 * m[a + 1],
        read_u32(m, a) is Some <==> 0 <= a && a + 4 <= m.len(),
        read_u32(m, a) matches Some(v) ==> v == m[a] + 256 * m[a + 1] + 65536 * m[a + 2] + 16777216
            * m[a + 3],
        read_u64(m, a) is Some <==> 0 <= a && a + 8 <= m.len(),
        read_u64(m, a) matches Some(v) ==> v == m[a] + 256 * m[a + 1] + 65536 * m[a + 2] + 16777216
            * m[a + 3] + 4294967296 * m[a + 4] + 1099511627776 * m[a + 5] + 281474976710656 * m[a
            + 6] + 72057594037927936 * m[a + 7],
{
    if 0 <= a && a + 2 <= m.len() {
        lemma_le_values(m[a], m[a + 1], 0, 0, 0, 0, 0, 0);
    }
    if 0 <= a && a + 4 <= m.len() {
        lemma_le_values(m[a], m[a + 1], m[a + 2], m[a + 3], 0, 0, 0, 0);
    }
    if 0 <= a && a + 8 <= m.len() {
        lemma_le_values(m[a], m[a + 1], m[a + 2], m[a + 3], m[a + 4], m[a + 5], m[a + 6], m[a + 7]);
    }
}

/// The memory of the virtual machine.
#[derive(Debug, Clone, PartialEq, Eq)]
pub struct NVMMemory {
    data: Vec<u8>,
}

impl View for NVMMemory {
    type V = Seq<u8>;

    closed spec fn view(&self) -> Seq<u8> {
        self.data@
    }
}

impl NVMMemory {
    /// Creates a memory of `size` bytes, all zero.
    pub fn new(size: usize) -> (m: Self)
        ensures
            m@ == Seq::new(size as nat, |_i: int| 0u8),
    {
        let data = vec![0u8; size];
        let m = Self { data };
        assert(m@ =~= Seq::new(size as nat, |_i: int| 0u8));
        m
    }

    /// The byte at the address given by a register's number.
    pub fn index(&self, index: Register) -> (b: u8)
        requires
            (index.0 as int) < self@.len(),
        ensures
            b == self@[index.0 as int],
    {
        self.data[index.0 as usize]
    }

    /// The size of the memory in bytes.
    pub fn len(&self) -> (n: usize)
        ensures
            n == self@.len(),
    {
        self.data.len()
    }

    // ================== loads ==================

    /// Loads the byte at `address`.
    pub fn load_u8(&self, address: usize) -> (r: Option<u8>)
        ensures
            r == read_u8(self@, address as int),
    {
        if address < self.data.len() {
            Some(self.data[address])
        } else {
            None
        }
    }

    /// Loads the little-endian `u16` at `address`.
    pub fn load_u16(&self, address: usize) -> (r: Option<u16>)
        ensures
            r == read_u16(self@, address as int),
    {
        let len = self.data.len();
        if address <= len && len - address >= 2 {
            Some(read_le_u16(self.data.as_slice(), address))
        } else {
            None
        }
    }

    /// Loads the little-endian `u32` at `address`.
    pub fn load_u32(&self, address: usize) -> (r: Option<u32>)
        ensures
            r == read_u32(self@, address as int),
    {
        let len = self.data.len();
        if address <= len && len - address >= 4 {
            Some(read_le_u32(self.data.as_slice(), address))
        } else {
            None
        }
    }

    /// Loads the little-endian `u64` at `address`.
    pub fn load_u64(&self, address: usize) -> (r: Option<u64>)
        ensures
            r == read_u64(self@, address as int),
    {
        let len = self.data.len();
        if address <= len && len - address >= 8 {
            Some(read_le_u64(self.data.as_slice(), address))
        } else {
            None
        }
    }

    /// Loads the byte at `address` as a signed value.
    pub fn load_i8(&self, address: usize) -> (r: Option<i8>)
        ensures
            r == match read_u8(self@, address as int) {
                Some(v) => Some(v as i8),
                None => None,
            },
    {
        match self.load_u8(address) {
            Some(v) => Some(v as i8),
            None => None,
        }
    }

    /// Loads the little-endian `i16` at `address`.
    pub fn load_i16(&self, address: usize) -> (r: Option<i16>)
        ensures
            r == match read_u16(self@, address as int) {
                Some(v) => Some(v as i16),
                None => None,
            },
    {
        match self.load_u16(address) {
            Some(v) => Some(v as i16),
            None => None,
        }
    }

    /// Loads the little-endian `i32` at `address`.
    pub fn load_i32(&self, address: usize) -> (r: Option<i32>)
        ensures
            r == match read_u32(self@, address as int) {
                Some(v) => Some(v as i32),
                None => None,
            },
    {
        match self.load_u32(address) {
            Some(v) => Some(v as i32),
            None => None,
        }
    }

    /// Loads the little-endian `i64` at `address`.
    pub fn load_i64(&self, address: usize) -> (r: Option<i64>)
        ensures
            r == match read_u64(self@, address as int) {
                Some(v) => Some(v as i64),
                None => None,
            },
    {
        match self.load_u64(address) {
            Some(v) => Some(v as i64),
            None => None,
        }
    }

    // ================== stores ==================

    /// Stores a byte at `address`. Outside the memory nothing changes and the
    /// result is `None`.
    pub fn store_u8(&mut self, address: usize, value: u8) -> (r: Option<()>)
        ensures
            match write_bytes(old(self)@, address as int, seq![value]) {
                Some(m) => r is Some && final(self)@ == m,
                None => r is None && final(self)@ == old(self)@,
            },
    {
        if address < self.data.len() {
            self.data.set(address, value);
            assert(self@ =~= old(self)@.take(address as int) + seq![value] + old(self)@.skip(
                address + 1,
            ));
            Some(())
        } else {
            None
        }
    }

    /// Stores a `u16` little-endian at `address`. Outside the memory nothing
    /// changes and the result is `None`.
    pub fn store_u16(&mut self, address: usize, value: u16) -> (r: Option<()>)
        ensures
            match write_bytes(old(self)@, address as int, u16_le_bytes(value)) {
                Some(m) => r is Some && final(self)@ == m,
                None => r is None && final(self)@ == old(self)@,
            },
    {
        let len = self.data.len();
        if address <= len && len - address >= 2 {
            self.data.set(address, (value & 0xff) as u8);
            self.data.set(address + 1, ((value >> 8u16) & 0xff) as u8);
            assert(self@ =~= old(self)@.take(address as int) + u16_le_bytes(value) + old(self)@.skip(
                address + 2,
            ));
            Some(())
        } else {
            None
        }
    }

    /// Stores a `u32` little-endian at `address`. Outside the memory nothing
    /// changes and the result is `None`.
    pub fn store_u32(&mut self, address: usize, value: u32) -> (r: Option<()>)
        ensures
            match write_bytes(old(self)@, address as int, u32_le_bytes(value)) {
                Some(m) => r is Some && final(self)@ == m,
                None => r is None && final(self)@ == old(self)@,
            },
    {
        let len = self.data.len();
        if address <= len && len - address >= 4 {
            self.data.set(address, (value & 0xff) as u8);
            self.data.set(address + 1, ((value >> 8u32) & 0xff) as u8);
            self.data.set(address + 2, ((value >> 16u32) & 0xff) as u8);
            self.data.set(address + 3, ((value >> 24u32) & 0xff) as u8);
            assert(self@ =~= old(self)@.take(address as int) + u32_le_bytes(value) + old(self)@.skip(
                address + 4,
            ));
            Some(())
        } else {
            None
        }
    }

    /// Stores a `u64` little-endian at `address`. Outside the memory nothing
    /// changes and the result is `None`.
    pub fn store_u64(&mut self, address: usize, value: u64) -> (r: Option<()>)
        ensures
            match write_bytes(old(self)@, address as int, u64_le_bytes(value)) {
                Some(m) => r is Some && final(self)@ == m,
                None => r is None && final(self)@ == old(self)@,
            },
    {
        let len = self.data.len();
        if address <= len && len - address >= 8 {
            self.data.set(address, (value & 0xff) as u8);
            self.data.set(address + 1, ((value >> 8u64) & 0xff) as u8);
            self.data.set(address + 2, ((value >> 16u64) & 0xff) as u8);
            self.data.set(address + 3, ((value >> 24u64) & 0xff) as u8);
            self.data.set(address + 4, ((value >> 32u64) & 0xff) as u8);
            self.data.set(address + 5, ((value >> 40u64) & 0xff) as u8);
            self.data.set(address + 6, ((value >> 48u64) & 0xff) as u8);
            self.data.set(address + 7, ((value >> 56u64) & 0xff) as u8);
            assert(self@ =~= old(self)@.take(address as int) + u64_le_bytes(value) + old(self)@.skip(
                address + 8,
            ));
            Some(())
        } else {
            None
        }
    }

    /// Stores a signed byte at `address`.
    pub fn store_i8(&mut self, address: usize, value: i8) -> (r: Option<()>)
        ensures
            match write_bytes(old(self)@, address as int, seq![value as u8]) {
                Some(m) => r is Some && final(self)@ == m,
                None => r is None && final(self)@ == old(self)@,
            },
    {
        self.store_u8(address, value as u8)
    }

    /// Stores an `i16` little-endian at `address`.
    pub fn store_i16(&mut self, address: usize, value: i16) -> (r: Option<()>)
        ensures
            match write_bytes(old(self)@, address as int, u16_le_bytes(value as u16)) {
                Some(m) => r is Some && final(self)@ == m,
                None => r is None && final(self)@ == old(self)@,
            },
    {
        self.store_u16(address, value as u16)
    }

    /// Stores an `i32` little-endian at `address`.
    pub fn store_i32(&mut self, address: usize, value: i32) -> (r: Option<()>)
        ensures
            match write_bytes(old(self)@, address as int, u32_le_bytes(value as u32)) {
                Some(m) => r is Some && final(self)@ == m,
                None => r is None && final(self)@ == old(self)@,
            },
    {
        self.store_u32(address, value as u32)
    }

    /// Stores an `i64` little-endian at `address`.
    pub fn store_i64(&mut self, address: usize, value: i64) -> (r: Option<()>)
        ensures
            match write_bytes(old(self)@, address as int, u64_le_bytes(value as u64)) {
                Some(m) => r is Some && final(self)@ == m,
                None => r is None && final(self)@ == old(self)@,
            },
    {
        self.store_u64(address, value as u64)
    }
}

} // verus!
