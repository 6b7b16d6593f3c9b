//! Register identifiers of the virtual machine.
use vstd::prelude::*;
use vstd::string::*;

use crate::text::{decimal, push_decimal};

verus! {

/// The number of registers of the machine. Register identifiers are bytes,
/// but only the identifiers below this bound name a register.
pub const REGISTER_COUNT: usize = 255;

/// The identifier of one of the general-purpose registers.
///
/// The identifier only names a register; the value lives in the register file.
#[derive(Debug, Clone, Copy)]
pub struct Register(pub u8);

impl Register {
    /// The textual form of the register, `R<n>`.
    pub open spec fn text(self) -> Seq<char> {
        "R"@ + decimal(self.0 as nat)
    }

    /// Appends the textual form of the register to `s`.
    pub fn push_text(&self, s: &mut String)
        ensures
            final(s)@ == old(s)@ + self.text(),
    {
        s.append("R");
        push_decimal(s, self.0 as u64);
        assert(final(s)@ =~= old(s)@ + self.text());
    }
}

} // verus!
