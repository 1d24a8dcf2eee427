use evtx_archiver::signature::{evtx_matcher, evtx_signature, SignatureRule};

#[test]
fn magic_prefix_classifies_true() {
    let buf = vec![0x45, 0x6C, 0x66, 0x46, 0x69, 0x6C, 0x65, 0xFF, 0x00, 0x13];
    assert!(evtx_matcher(&buf));
}

#[test]
fn exact_magic_classifies_true() {
    let buf = vec![0x45, 0x6C, 0x66, 0x46, 0x69, 0x6C, 0x65];
    assert!(evtx_matcher(&buf));
}

#[test]
fn truncated_magic_classifies_false() {
    let buf = vec![0x45, 0x6C, 0x66, 0x46, 0x69, 0x6C];
    assert!(!evtx_matcher(&buf));
}

#[test]
fn wrong_first_byte_classifies_false() {
    let buf = vec![0x46, 0x6C, 0x66, 0x46, 0x69, 0x6C, 0x65, 0x00];
    assert!(!evtx_matcher(&buf));
}

#[test]
fn wrong_last_magic_byte_classifies_false() {
    let buf = vec![0x45, 0x6C, 0x66, 0x46, 0x69, 0x6C, 0x66, 0x00];
    assert!(!evtx_matcher(&buf));
}

#[test]
fn empty_buffer_classifies_false() {
    let buf: Vec<u8> = Vec::new();
    assert!(!evtx_matcher(&buf));
}

#[test]
fn jpeg_header_classifies_false() {
    let buf = vec![0xFF, 0xD8, 0xFF, 0xE0, 0x00, 0x10, 0x4A, 0x46];
    assert!(!evtx_matcher(&buf));
}

#[test]
fn evtx_signature_magic_bytes() {
    let rule = evtx_signature();
    assert_eq!(rule.magic, vec![0x45, 0x6C, 0x66, 0x46, 0x69, 0x6C, 0x65]);
}

#[test]
fn pluggable_rule_matches_its_own_signature() {
    let rule = SignatureRule { magic: vec![0x50, 0x4B] };
    assert!(rule.matches(&[0x50, 0x4B, 0x03, 0x04]));
    assert!(!rule.matches(&[0x45, 0x6C, 0x66, 0x46, 0x69, 0x6C, 0x65]));
    assert!(!rule.matches(&[0x50]));
}
