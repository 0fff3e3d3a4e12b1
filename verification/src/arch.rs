//! Architecture detection from an executable's header.
//!
//! The detector reads a 4-byte little-endian offset at position 0x3C (the
//! pointer to the COFF header), skips the 4-byte COFF signature at that
//! offset, and reads the next 2 bytes little-endian as the machine code.
//! The code is mapped to a closed set of four architecture tags; anything
//! else is an unsupported architecture.

use vstd::prelude::*;

use crate::errors::PatchError;

verus! {

/// COFF machine code for x86-64.
pub const MACHINE_AMD64: u16 = 0x8664;

/// COFF machine code for 32-bit x86.
pub const MACHINE_I386: u16 = 0x14c;

/// COFF machine code for 32-bit ARM.
pub const MACHINE_ARM: u16 = 0x1c0;

/// COFF machine code for 32-bit ARM Thumb-2.
pub const MACHINE_ARMNT: u16 = 0x1c4;

/// COFF machine code for 64-bit ARM.
pub const MACHINE_ARM64: u16 = 0xaa64;

/// Position of the 4-byte little-endian pointer to the COFF header.
pub const COFF_POINTER_OFFSET: usize = 0x3c;

/// The closed set of architectures a recipe can target.
#[derive(Clone, Copy, Debug, PartialEq, Eq, Structural)]
pub enum ArchTag {
    Amd64,
    I386,
    Arm,
    Arm64,
}

impl ArchTag {
    /// The textual tag used by recipe documents for this architecture.
    pub fn as_str(&self) -> (r: &'static str)
        ensures
            *self is Amd64 ==> r@ == "amd64"@,
            *self is I386 ==> r@ == "i386"@,
            *self is Arm ==> r@ == "arm"@,
            *self is Arm64 ==> r@ == "arm64"@,
    {
        match self {
            ArchTag::Amd64 => "amd64",
            ArchTag::I386 => "i386",
            ArchTag::Arm => "arm",
            ArchTag::Arm64 => "arm64",
        }
    }
}

/// The value of the two bytes at `off` read as a little-endian integer.
pub open spec fn le16_at(b: Seq<u8>, off: int) -> int
    recommends
        0 <= off,
        off + 2 <= b.len(),
{
    b[off] + 0x100 * b[off + 1]
}

/// The value of the four bytes at `off` read as a little-endian integer.
pub open spec fn le32_at(b: Seq<u8>, off: int) -> int
    recommends
        0 <= off,
        off + 4 <= b.len(),
{
    b[off] + 0x100 * b[off + 1] + 0x1_0000 * b[off + 2] + 0x100_0000 * b[off + 3]
}

/// The architecture tag a given machine code maps to, if any.
pub open spec fn spec_tag_of_machine(machine: int) -> Option<ArchTag> {
    if machine == MACHINE_AMD64 {
        Some(ArchTag::Amd64)
    } else if machine == MACHINE_I386 {
        Some(ArchTag::I386)
    } else if machine == MACHINE_ARM || machine == MACHINE_ARMNT {
        Some(ArchTag::Arm)
    } else if machine == MACHINE_ARM64 {
        Some(ArchTag::Arm64)
    } else {
        None
    }
}

/// What `check_machine` returns on a given header: the header must hold the
/// COFF pointer field (so at least 0x40 bytes) and, at the offset the pointer
/// gives, the 4-byte signature followed by the 2-byte machine code; the code
/// must be in the closed set of supported machines.
pub open spec fn spec_check_machine(h: Seq<u8>) -> Result<ArchTag, PatchError> {
    if h.len() < COFF_POINTER_OFFSET + 4 {
        Err(PatchError::HeaderReadError)
    } else {
        let coff = le32_at(h, COFF_POINTER_OFFSET as int);
        if coff + 6 > h.len() {
            Err(PatchError::HeaderReadError)
        } else {
            let machine = le16_at(h, coff + 4);
            match spec_tag_of_machine(machine) {
                Some(tag) => Ok(tag),
                None => Err(PatchError::UnsupportedArchitecture { machine: machine as u16 }),
            }
        }
    }
}

/// Reads the two bytes at `off` as a little-endian integer.
fn read_u16_le(b: &[u8], off: usize) -> (r: u16)
    requires
        off + 2 <= b@.len(),
    ensures
        r == le16_at(b@, off as int),
{
    b[off] as u16 + 0x100 * (b[off + 1] as u16)
}

/// Reads the four bytes at `off` as a little-endian integer.
fn read_u32_le(b: &[u8], off: usize) -> (r: u32)
    requires
        off + 4 <= b@.len(),
    ensures
        r == le32_at(b@, off as int),
{
    b[off] as u32 + 0x100 * (b[off + 1] as u32) + 0x1_0000 * (b[off + 2] as u32) + 0x100_0000
        * (b[off + 3] as u32)
}

/// Detects the target architecture of an executable from its header bytes.
///
/// The buffer must hold the COFF-pointer field and the fields it points at;
/// a shorter buffer is a malformed-header error, never silent truncation.
/// A machine code outside the closed four-tag set is an unsupported
/// architecture; the set is deliberately closed because recipe pattern sets
/// are keyed by the same tags.
pub fn check_machine(header: &[u8]) -> (r: Result<ArchTag, PatchError>)
    ensures
        r == spec_check_machine(header@),
{
    if header.len() < COFF_POINTER_OFFSET + 4 {
        return Err(PatchError::HeaderReadError);
    }
    let coff: u64 = read_u32_le(header, COFF_POINTER_OFFSET) as u64;
    if coff + 6 > header.len() as u64 {
        return Err(PatchError::HeaderReadError);
    }
    let machine: u16 = read_u16_le(header, (coff as usize) + 4);
    if machine == MACHINE_AMD64 {
        Ok(ArchTag::Amd64)
    } else if machine == MACHINE_I386 {
        Ok(ArchTag::I386)
    } else if machine == MACHINE_ARM || machine == MACHINE_ARMNT {
        Ok(ArchTag::Arm)
    } else if machine == MACHINE_ARM64 {
        Ok(ArchTag::Arm64)
    } else {
        Err(PatchError::UnsupportedArchitecture { machine })
    }
}

} // verus!
