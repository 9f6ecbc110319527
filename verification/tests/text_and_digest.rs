use tensor_sharder::digest::sha256_hex;
use tensor_sharder::dtype::dtype_bits;
use tensor_sharder::text::{str_eq, u32_to_string};

#[test]
fn decimal_rendering_matches_std() {
    assert_eq!(u32_to_string(0), "0");
    assert_eq!(u32_to_string(7), "7");
    assert_eq!(u32_to_string(42), "42");
    assert_eq!(u32_to_string(1000), "1000");
    assert_eq!(u32_to_string(u32::MAX), "4294967295");
}

#[test]
fn string_equality_is_exact() {
    assert!(str_eq("", ""));
    assert!(str_eq("abc", "abc"));
    assert!(!str_eq("abc", "abd"));
    assert!(!str_eq("abc", "ab"));
    assert!(!str_eq("ab", "abc"));
}

#[test]
fn sha256_hex_known_values() {
    // SHA-256 of the empty input.
    assert_eq!(
        sha256_hex(&[]),
        "e3b0c44298fc1c149afbf4c8996fb92427ae41e4649b934ca495991b7852b855"
    );
    // SHA-256 of "abc".
    assert_eq!(
        sha256_hex(b"abc"),
        "ba7816bf8f01cfea414140de5dae2223b00361a396177a9cb410ff61f20015ad"
    );
}

#[test]
fn dtype_bit_widths_match_the_container_format() {
    assert_eq!(dtype_bits("F32"), Some(32));
    assert_eq!(dtype_bits("F16"), Some(16));
    assert_eq!(dtype_bits("BF16"), Some(16));
    assert_eq!(dtype_bits("F64"), Some(64));
    assert_eq!(dtype_bits("I64"), Some(64));
    assert_eq!(dtype_bits("U8"), Some(8));
    assert_eq!(dtype_bits("BOOL"), Some(8));
    assert_eq!(dtype_bits("F4"), Some(4));
    assert_eq!(dtype_bits("F6_E2M3"), Some(6));
    assert_eq!(dtype_bits("C64"), Some(64));
    assert_eq!(dtype_bits("F128"), None);
    assert_eq!(dtype_bits(""), None);
}
