//! Error taxonomy shared by the architecture detector and the patch engine.

use vstd::prelude::*;

verus! {

/// Everything that can go wrong while detecting an architecture or while
/// applying a pattern set to a module's bytes.
#[derive(Clone, Copy, Debug, PartialEq, Eq, Structural)]
pub enum PatchError {
    /// The header buffer is too short to hold the fields the detector reads.
    HeaderReadError,
    /// The header's machine code is not in the closed set of supported
    /// architectures; carries the code that was read.
    UnsupportedArchitecture { machine: u16 },
    /// A pattern failed to compile; reported at rule-construction time.
    InvalidPattern,
    /// A match and its replacement disagree in nibble length; carries the
    /// index of the offending rule and the byte offset of the match.
    PatchSizeMismatch { rule: usize, offset: usize },
    /// The patched buffer no longer decodes to bytes of the original length.
    CorruptPatchResult,
}

} // verus!
