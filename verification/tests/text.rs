use winebasin::text::{bytes_eq, copy_of, decimal_text, push_all, push_decimal, starts_with};

#[test]
fn decimal_text_of_small_and_large_numbers() {
    assert_eq!(decimal_text(0), b"0".to_vec());
    assert_eq!(decimal_text(7), b"7".to_vec());
    assert_eq!(decimal_text(10), b"10".to_vec());
    assert_eq!(decimal_text(1234567890), b"1234567890".to_vec());
    assert_eq!(decimal_text(u64::MAX), b"18446744073709551615".to_vec());
}

#[test]
fn decimal_text_agrees_with_std() {
    for n in [0u64, 1, 9, 10, 11, 99, 100, 101, 999, 1000, 65535, 4294967296] {
        assert_eq!(decimal_text(n), n.to_string().into_bytes());
    }
}

#[test]
fn push_decimal_appends() {
    let mut out = b"echo ".to_vec();
    push_decimal(&mut out, 42);
    assert_eq!(out, b"echo 42".to_vec());
}

#[test]
fn push_all_appends() {
    let mut out = b"ab".to_vec();
    push_all(&mut out, b"cd");
    push_all(&mut out, b"");
    assert_eq!(out, b"abcd".to_vec());
    assert_eq!(copy_of(b"xyz"), b"xyz".to_vec());
}

#[test]
fn bytes_eq_compares_every_byte() {
    assert!(bytes_eq(b"", b""));
    assert!(bytes_eq(b"abc", b"abc"));
    assert!(!bytes_eq(b"abc", b"abd"));
    assert!(!bytes_eq(b"abc", b"ab"));
    assert!(!bytes_eq(b"ab", b"abc"));
}

#[test]
fn starts_with_looks_at_the_front() {
    assert!(starts_with(b"./run.sh", b"./"));
    assert!(starts_with(b"./", b"./"));
    assert!(starts_with(b"abc", b""));
    assert!(!starts_with(b".", b"./"));
    assert!(!starts_with(b"a./", b"./"));
}
