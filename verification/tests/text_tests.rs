use orthrus::text::{decode_utf8_lossy, join_path, str_eq, u16_to_decimal};

#[test]
fn join_relative_path() {
    assert_eq!(join_path("/proj", "docs"), "/proj/docs");
}

#[test]
fn join_keeps_single_separator() {
    assert_eq!(join_path("/proj/", "docs"), "/proj/docs");
}

#[test]
fn join_absolute_path_replaces_base() {
    assert_eq!(join_path("/proj", "/somewhere/else"), "/somewhere/else");
}

#[test]
fn join_empty_base() {
    assert_eq!(join_path("", "docs"), "docs");
}

#[test]
fn decimal_rendering_exact() {
    assert_eq!(u16_to_decimal(0), "0");
    assert_eq!(u16_to_decimal(7), "7");
    assert_eq!(u16_to_decimal(8080), "8080");
    assert_eq!(u16_to_decimal(65535), "65535");
}

#[test]
fn lossy_decode_is_identity_on_ascii() {
    let bytes: Vec<u8> = b"hello, world".to_vec();
    assert_eq!(decode_utf8_lossy(&bytes), "hello, world");
}

#[test]
fn lossy_decode_replaces_invalid_sequences() {
    let bytes: Vec<u8> = vec![0xff, b'o', b'k'];
    assert_eq!(decode_utf8_lossy(&bytes), "\u{FFFD}ok");
}

#[test]
fn str_eq_compares_contents() {
    assert!(str_eq("abc", "abc"));
    assert!(!str_eq("abc", "abd"));
    assert!(!str_eq("abc", "abcd"));
}
