use slpatch::patch_module;
use slpatch::ArchTag;
use slpatch::Patch;
use slpatch::PatchError;
use slpatch::PatchRegex;

fn rule(pattern: &str, replace: &str) -> (PatchRegex, String) {
    (PatchRegex::new(pattern).unwrap(), replace.to_string())
}

#[test]
fn empty_rule_list_is_identity() {
    let content: Vec<u8> = vec![0xDE, 0xAD, 0xBE, 0xEF, 0x00, 0x7F];
    let result = patch_module(&vec![], &content);
    assert_eq!(result, Ok(content));
}

#[test]
fn empty_rule_list_on_empty_content() {
    let content: Vec<u8> = vec![];
    assert_eq!(patch_module(&vec![], &content), Ok(vec![]));
}

#[test]
fn patches_middle_bytes() {
    let content: Vec<u8> = vec![0xAA, 0xBB, 0xCC, 0xDD];
    let rules = vec![rule("bbcc", "1234")];
    let result = patch_module(&rules, &content);
    assert_eq!(result, Ok(vec![0xAA, 0x12, 0x34, 0xDD]));
}

#[test]
fn length_is_preserved_over_multiple_matches() {
    let content: Vec<u8> = vec![0x00, 0xAB, 0x00, 0xAB, 0xAB];
    let rules = vec![rule("ab", "cd")];
    let result = patch_module(&rules, &content).unwrap();
    assert_eq!(result.len(), content.len());
    assert_eq!(result, vec![0x00, 0xCD, 0x00, 0xCD, 0xCD]);
}

#[test]
fn rule_order_is_respected() {
    let content: Vec<u8> = vec![0xAA];
    let a = || rule("aa", "bb");
    let b = || rule("bb", "cc");
    let ab = patch_module(&vec![a(), b()], &content).unwrap();
    let ba = patch_module(&vec![b(), a()], &content).unwrap();
    // A rewrites aa to bb, then B rewrites that bb to cc; in the other
    // order B finds nothing and A then produces bb.
    assert_eq!(ab, vec![0xCC]);
    assert_eq!(ba, vec![0xBB]);
    assert_ne!(ab, ba);
}

#[test]
fn size_mismatch_is_detected() {
    let content: Vec<u8> = vec![0xAA, 0xBB, 0xCC, 0xDD];
    let rules = vec![rule("bbcc", "123456")];
    let result = patch_module(&rules, &content);
    assert_eq!(result, Err(PatchError::PatchSizeMismatch { rule: 0, offset: 1 }));
    assert_eq!(content.len(), 4);
}

#[test]
fn size_mismatch_names_the_failing_rule() {
    let content: Vec<u8> = vec![0xAA, 0xBB, 0xCC, 0xDD];
    let rules = vec![rule("ff", "ee"), rule("ccdd", "12")];
    let result = patch_module(&rules, &content);
    assert_eq!(result, Err(PatchError::PatchSizeMismatch { rule: 1, offset: 2 }));
}

#[test]
fn second_application_is_fixed_point_when_patterns_cannot_recur() {
    let content: Vec<u8> = vec![0xAA, 0xBB, 0x00];
    let rules = vec![rule("aabb", "ccdd")];
    let once = patch_module(&rules, &content).unwrap();
    assert_eq!(once, vec![0xCC, 0xDD, 0x00]);
    let rules = vec![rule("aabb", "ccdd")];
    let twice = patch_module(&rules, &once).unwrap();
    assert_eq!(twice, once);
}

#[test]
fn wildcard_matches_single_nibbles() {
    // Hex rendering is "abbccd"; "b.c." matches the middle four nibbles,
    // crossing byte boundaries.
    let content: Vec<u8> = vec![0xAB, 0xBC, 0xCD];
    let rules = vec![rule("b.c.", "0000")];
    let result = patch_module(&rules, &content);
    assert_eq!(result, Ok(vec![0xA0, 0x00, 0x0D]));
}

#[test]
fn capture_groups_are_expanded() {
    let content: Vec<u8> = vec![0xAA, 0xBB];
    let rules = vec![rule("(aa)(bb)", "$2$1")];
    let result = patch_module(&rules, &content);
    assert_eq!(result, Ok(vec![0xBB, 0xAA]));
}

#[test]
fn patterns_and_replacements_ignore_spaces_and_case() {
    let content: Vec<u8> = vec![0xAA, 0xBB, 0xCC, 0xDD];
    let rules = vec![rule("BB cC", "12 34")];
    let result = patch_module(&rules, &content);
    assert_eq!(result, Ok(vec![0xAA, 0x12, 0x34, 0xDD]));
}

#[test]
fn invalid_pattern_is_rejected_at_compile_time() {
    let result = PatchRegex::new("[");
    assert!(matches!(result, Err(PatchError::InvalidPattern)));
}

#[test]
fn non_hex_replacement_is_a_corrupt_result() {
    let content: Vec<u8> = vec![0xAA];
    let rules = vec![rule("aa", "zz")];
    let result = patch_module(&rules, &content);
    assert_eq!(result, Err(PatchError::CorruptPatchResult));
}

#[test]
fn pattern_compilation_normalizes_before_compiling() {
    // "B Bcc" and "bbcc" compile to the same pattern text, so they patch
    // identically.
    let content: Vec<u8> = vec![0xAA, 0xBB, 0xCC, 0xDD];
    let spaced = patch_module(&vec![rule("B Bcc", "1234")], &content);
    let plain = patch_module(&vec![rule("bbcc", "1234")], &content);
    assert_eq!(spaced, Ok(vec![0xAA, 0x12, 0x34, 0xDD]));
    assert_eq!(spaced, plain);
}

#[test]
fn patterns_for_finds_the_matching_architecture() {
    let patch = Patch {
        module: "target.dll".to_string(),
        patterns: vec![
            (ArchTag::Amd64, vec![rule("aa", "bb")]),
            (ArchTag::Arm64, vec![]),
        ],
    };
    let amd = patch.patterns_for(ArchTag::Amd64);
    assert!(amd.is_some());
    assert_eq!(amd.unwrap().len(), 1);
    let arm64 = patch.patterns_for(ArchTag::Arm64);
    assert!(arm64.is_some());
    assert_eq!(arm64.unwrap().len(), 0);
    assert!(patch.patterns_for(ArchTag::I386).is_none());
}
