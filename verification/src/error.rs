//! The single error of the simulator core.

use vstd::prelude::*;

verus! {

/// Raised when no opcode/funct3/funct7 combination matches a known
/// instruction.  It carries the offending raw word for diagnostics and is
/// always fatal to the run.
#[derive(Clone, Copy, Debug, PartialEq, Eq, Structural)]
pub enum Error {
    IllegalInstruction(u32),
}

impl Error {
    /// The raw instruction word the error carries.
    pub open spec fn raw_word(self) -> u32 {
        match self {
            Error::IllegalInstruction(w) => w,
        }
    }
}

} // verus!
