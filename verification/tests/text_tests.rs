use hips_atlas::text::{contains_bytes, contains_str, push_decimal, push_signed_decimal};

#[test]
fn decimal_writing() {
    let mut s = String::from("n=");
    push_decimal(&mut s, 0);
    assert_eq!(s, "n=0");
    push_decimal(&mut s, 7);
    assert_eq!(s, "n=07");
    let mut s = String::new();
    push_decimal(&mut s, 10);
    assert_eq!(s, "10");
    let mut s = String::new();
    push_decimal(&mut s, 1234567890);
    assert_eq!(s, "1234567890");
    let mut s = String::new();
    push_decimal(&mut s, u64::MAX);
    assert_eq!(s, "18446744073709551615");
}

#[test]
fn decimal_writing_tells_numbers_apart() {
    let mut seen = std::collections::HashSet::new();
    for n in 0..2000u64 {
        let mut s = String::new();
        push_decimal(&mut s, n);
        assert_eq!(s, n.to_string());
        assert!(seen.insert(s));
    }
}

#[test]
fn signed_decimal_writing() {
    let mut s = String::new();
    push_signed_decimal(&mut s, -5);
    assert_eq!(s, "-5");
    let mut s = String::new();
    push_signed_decimal(&mut s, 42);
    assert_eq!(s, "42");
    let mut s = String::new();
    push_signed_decimal(&mut s, 0);
    assert_eq!(s, "0");
    let mut s = String::new();
    push_signed_decimal(&mut s, i64::MIN);
    assert_eq!(s, "-9223372036854775808");
    let mut s = String::new();
    push_signed_decimal(&mut s, i64::MAX);
    assert_eq!(s, "9223372036854775807");
}

#[test]
fn substring_search() {
    assert!(contains_str("image/jpeg fits", "fits"));
    assert!(contains_str("image/jpeg fits", "jpeg"));
    assert!(!contains_str("image/jpeg fits", "png"));
    assert!(contains_str("png", "png"));
    assert!(!contains_str("pn", "png"));
    assert!(!contains_str("", "png"));
    assert!(contains_str("", ""));
    assert!(contains_str("abc", ""));
    assert!(contains_str("aab", "ab"));
    assert!(!contains_str("ppnng", "png"));
    assert!(contains_bytes(&[1, 2, 3, 4], &[3, 4]));
    assert!(!contains_bytes(&[1, 2, 3, 4], &[4, 3]));
}
