use otpfs::secret::{decode_secret, normalize_secret, ConfigError};

#[test]
fn decodes_plain_base32() {
    assert_eq!(decode_secret(b"nbswy3dp"), Ok(b"hello".to_vec()));
    assert_eq!(decode_secret(b"mzxw6ytboi"), Ok(b"foobar".to_vec()));
}

#[test]
fn decodes_after_normalization() {
    assert_eq!(decode_secret(b"  NBSWY3DP\n"), Ok(b"hello".to_vec()));
    assert_eq!(decode_secret(b"\tNbSwY3dP\r\n"), Ok(b"hello".to_vec()));
}

#[test]
fn empty_secret_decodes_to_empty_key() {
    assert_eq!(decode_secret(b""), Ok(Vec::new()));
    assert_eq!(decode_secret(b"   \n"), Ok(Vec::new()));
}

#[test]
fn rejects_invalid_characters() {
    // '1' is not in the RFC 4648 base32 alphabet.
    assert_eq!(decode_secret(b"abc1"), Err(ConfigError::InvalidSecret));
    // Inner whitespace is not trimmed and is not in the alphabet.
    assert_eq!(decode_secret(b"ab cd"), Err(ConfigError::InvalidSecret));
    assert_eq!(decode_secret(b"!!"), Err(ConfigError::InvalidSecret));
}

#[test]
fn normalization_trims_and_lowercases() {
    assert_eq!(normalize_secret(b" AbC2 "), b"abc2".to_vec());
    assert_eq!(normalize_secret(b"\t\r\n"), Vec::new());
    assert_eq!(normalize_secret(b"abc"), b"abc".to_vec());
}

#[test]
fn round_trip_through_encoder() {
    let key: &[u8] = b"12345678901234567890";
    let secret = koibumi_base32::encode(key);
    assert_eq!(decode_secret(secret.as_bytes()), Ok(key.to_vec()));
}
