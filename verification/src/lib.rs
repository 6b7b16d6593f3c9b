//! Core of NVM: the instruction set, the bytecode loader and the virtual machine.
pub mod bytes;
pub mod error;
pub mod isa;
pub mod loader;
pub mod text;
pub mod vm;

use vstd::prelude::*;

verus! {

/// The version of the virtual machine, as `major.minor.patch`.
pub const NVM_VERSION: &'static str = "0.1.0";

} // verus!
