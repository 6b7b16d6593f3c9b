//! The register file: one `u64` value per register.
use vstd::prelude::*;

use crate::isa::register::{Register, REGISTER_COUNT};

verus! {

broadcast use vstd::array::group_array_axioms;

/// The values of the machine's registers.
pub struct RegisterFile {
    registers: [u64; 255],
}

impl View for RegisterFile {
    type V = Seq<u64>;

    closed spec fn view(&self) -> Seq<u64> {
        self.registers@
    }
}

impl RegisterFile {
    /// There is one value per register.
    pub proof fn lemma_len(&self)
        ensures
            self@.len() == REGISTER_COUNT,
    {
    }

    /// A register file with every register zero.
    pub fn new() -> (r: Self)
        ensures
            r@ == Seq::new(REGISTER_COUNT as nat, |_i: int| 0u64),
    {
        let r = Self { registers: [0u64; 255] };
        assert(r@ =~= Seq::new(REGISTER_COUNT as nat, |_i: int| 0u64));
        r
    }

    /// A register file holding the given values.
    pub fn from_registers(registers: [u64; 255]) -> (r: Self)
        ensures
            r@ == registers@,
    {
        Self { registers }
    }

    /// The value of register `reg`.
    pub fn get(&self, reg: Register) -> (v: u64)
        requires
            reg.0 < REGISTER_COUNT,
        ensures
            v == self@[reg.0 as int],
    {
        self.registers[reg.0 as usize]
    }

    /// Sets register `reg` to `value`; the other registers keep their values.
    pub fn set(&mut self, reg: Register, value: u64)
        requires
            reg.0 < REGISTER_COUNT,
        ensures
            final(self)@ == old(self)@.update(reg.0 as int, value),
    {
        self.registers.set(reg.0 as usize, value);
    }
}

/// Reading a register after setting register `r` to `v` gives `v` for `r`
/// and the earlier value for every other register.
pub proof fn lemma_get_after_set(regs: Seq<u64>, r: int, q: int, v: u64)
    requires
        regs.len() == REGISTER_COUNT,
        0 <= r < REGISTER_COUNT,
        0 <= q < REGISTER_COUNT,
    ensures
        regs.update(r, v)[q] == (if q == r {
            v
        } else {
            regs[q]
        }),
{
}

impl Default for RegisterFile {
    fn default() -> (r: Self)
        ensures
            r@ == Seq::new(REGISTER_COUNT as nat, |_i: int| 0u64),
    {
        Self::new()
    }
}

} // verus!
