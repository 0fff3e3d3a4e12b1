//! Binary pattern-patch engine.
//!
//! Applies declarative nibble-level match/replace rules to the raw bytes of
//! an executable module, and detects the module's machine architecture from
//! its header. Patterns operate on the hexadecimal-nibble rendering of the
//! buffer, so a single hex digit (half a byte) can be wildcarded; every
//! substitution is checked to preserve the buffer's length exactly.

pub mod arch;
pub mod engine;
pub mod errors;
pub mod hexnib;
pub mod recipe;

pub use arch::ArchTag;
pub use arch::check_machine;
pub use engine::PatchData;
pub use engine::PatchRegex;
pub use engine::patch_module;
pub use errors::PatchError;
pub use recipe::Patch;
pub use recipe::PatchRoot;
