use alas_latinas::scan::contains_bytes;

#[test]
fn test_pattern_in_middle() {
    let hay = b"\x00asm ref.func table elem";
    assert!(contains_bytes(hay, b"ref.func"));
    assert!(contains_bytes(hay, b"table"));
    assert!(contains_bytes(hay, b"elem"));
}

#[test]
fn test_pattern_at_ends() {
    let hay = b"externref data anyref";
    assert!(contains_bytes(hay, b"externref"));
    assert!(contains_bytes(hay, b"anyref"));
}

#[test]
fn test_pattern_absent() {
    let hay = b"plain module without tokens";
    assert!(!contains_bytes(hay, b"ref.null"));
    assert!(!contains_bytes(hay, b"ref.is_null"));
}

#[test]
fn test_partial_overlap_is_not_a_match() {
    assert!(!contains_bytes(b"ref.fun", b"ref.func"));
    assert!(contains_bytes(b"rref.funcc", b"ref.func"));
}

#[test]
fn test_empty_and_oversized_needles() {
    assert!(contains_bytes(b"anything", b""));
    assert!(contains_bytes(b"", b""));
    assert!(!contains_bytes(b"ab", b"abc"));
}
