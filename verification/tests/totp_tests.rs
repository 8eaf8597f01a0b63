use otpfs::totp::generate;
use totp_lite::{totp_custom, Sha1};

// RFC 6238 test key for HMAC-SHA1: the ASCII bytes "12345678901234567890".
const KEY: &[u8] = b"12345678901234567890";

#[test]
fn rfc6238_vectors() {
    // The RFC 6238 appendix values, reduced to 6 digits.
    assert_eq!(generate(KEY, 59), b"287082".to_vec());
    assert_eq!(generate(KEY, 1111111109), b"081804".to_vec());
    assert_eq!(generate(KEY, 1111111111), b"050471".to_vec());
    assert_eq!(generate(KEY, 1234567890), b"005924".to_vec());
    assert_eq!(generate(KEY, 2000000000), b"279037".to_vec());
    assert_eq!(generate(KEY, 20000000000), b"353130".to_vec());
}

#[test]
fn matches_reference_implementation() {
    for &t in &[0u64, 1, 29, 30, 59, 60, 61, 12345, 1111111109, 20000000000] {
        let expected = totp_custom::<Sha1>(30, 6, KEY, t);
        assert_eq!(generate(KEY, t), expected.into_bytes());
    }
    let other_key: &[u8] = b"another shared secret";
    for &t in &[0u64, 59, 1234567890] {
        let expected = totp_custom::<Sha1>(30, 6, other_key, t);
        assert_eq!(generate(other_key, t), expected.into_bytes());
    }
}

#[test]
fn same_window_same_code() {
    assert_eq!(generate(KEY, 30), generate(KEY, 59));
    assert_eq!(generate(KEY, 60), generate(KEY, 89));
    assert_eq!(generate(KEY, 0), generate(KEY, 29));
}

#[test]
fn different_windows_differ() {
    // Codes from different windows have no relation; for these windows the
    // values happen to differ outright.
    assert_ne!(generate(KEY, 29), generate(KEY, 30));
    assert_ne!(generate(KEY, 59), generate(KEY, 60));
}

#[test]
fn always_six_ascii_digits() {
    for &t in &[0u64, 59, 1111111111, u64::MAX] {
        let code = generate(KEY, t);
        assert_eq!(code.len(), 6);
        for b in code {
            assert!(b.is_ascii_digit());
        }
    }
    let empty_key: &[u8] = b"";
    let code = generate(empty_key, 42);
    assert_eq!(code.len(), 6);
    for b in code {
        assert!(b.is_ascii_digit());
    }
}
