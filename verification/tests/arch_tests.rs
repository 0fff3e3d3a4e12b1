use slpatch::check_machine;
use slpatch::ArchTag;
use slpatch::PatchError;

/// A minimal header: `len` zero bytes, the COFF-pointer field at 0x3C set to
/// `coff`, and the machine code placed right after the 4-byte signature at
/// `coff + 4`.
fn header(coff: u32, machine: u16, len: usize) -> Vec<u8> {
    let mut h = vec![0u8; len];
    h[0x3C..0x40].copy_from_slice(&coff.to_le_bytes());
    let at = coff as usize + 4;
    h[at..at + 2].copy_from_slice(&machine.to_le_bytes());
    h
}

#[test]
fn detects_amd64() {
    let h = header(0x50, 0x8664, 0x56);
    assert_eq!(check_machine(&h), Ok(ArchTag::Amd64));
}

#[test]
fn detects_i386() {
    let h = header(0x50, 0x14c, 0x60);
    assert_eq!(check_machine(&h), Ok(ArchTag::I386));
}

#[test]
fn detects_arm() {
    let h = header(0x50, 0x1c0, 0x60);
    assert_eq!(check_machine(&h), Ok(ArchTag::Arm));
}

#[test]
fn detects_arm_thumb2_as_arm() {
    let h = header(0x50, 0x1c4, 0x60);
    assert_eq!(check_machine(&h), Ok(ArchTag::Arm));
}

#[test]
fn detects_arm64() {
    let h = header(0x48, 0xaa64, 0x60);
    assert_eq!(check_machine(&h), Ok(ArchTag::Arm64));
}

#[test]
fn unknown_machine_code_is_unsupported() {
    let h = header(0x50, 0x0ebc, 0x60);
    assert_eq!(
        check_machine(&h),
        Err(PatchError::UnsupportedArchitecture { machine: 0x0ebc })
    );
}

#[test]
fn short_header_is_a_read_error() {
    let h = vec![0u8; 0x20];
    assert_eq!(check_machine(&h), Err(PatchError::HeaderReadError));
}

#[test]
fn coff_pointer_past_the_buffer_is_a_read_error() {
    let h = header(0x50, 0x8664, 0x56);
    // Truncate so the machine field no longer fits.
    let h = &h[..0x55];
    assert_eq!(check_machine(h), Err(PatchError::HeaderReadError));
}

#[test]
fn tags_render_as_recipe_strings() {
    assert_eq!(ArchTag::Amd64.as_str(), "amd64");
    assert_eq!(ArchTag::I386.as_str(), "i386");
    assert_eq!(ArchTag::Arm.as_str(), "arm");
    assert_eq!(ArchTag::Arm64.as_str(), "arm64");
}
