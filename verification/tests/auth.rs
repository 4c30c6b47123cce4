use fus_client::auth::{
    calc_logic_check, decode_nonce, encode_nonce, sign_nonce, AuthError, Nonce, Session,
};

use base64ct::{Base64, Encoding};

// Reference vectors for the fixed protocol constants: a plaintext nonce,
// the token that decrypts to it, and the signature derived from it.
const PLAIN: &str = "abcdefgh01234567";
const TOKEN: &str = "6OfcsyJc6O5t+TAHO6mqNTfEbhPl6Og0JyXf/fnPWBk=";
const SIG: &str = "QPpljMRb9d5zkfvme82BdFSIgQyKW3tSfCxkF9+FXjM=";

const PLAIN2: &str = "zyxwvuts98765432";
const TOKEN2: &str = "UnsqYA45fpLkxPiAApHIJJo03giAqT03aLnFLV0wV1U=";
const SIG2: &str = "giZpNz7z+C0Inm5NAUX60HQKmO8vtL9eJ4vF8UCZ+MQ=";

#[test]
fn logic_check_deterministic_and_bounded() {
    let a = calc_logic_check("ABCDEFGHIJKLMNOP", PLAIN);
    let b = calc_logic_check("ABCDEFGHIJKLMNOP", PLAIN);
    assert_eq!(a, b);
    assert!(a.len() <= PLAIN.len());
    assert_eq!(a, "BCDEFGHIABCDEFGH");
}

#[test]
fn logic_check_short_input() {
    // offsets past the end of the input select nothing
    assert_eq!(calc_logic_check("XY", PLAIN), "YXY");
    assert_eq!(calc_logic_check("", PLAIN), "");
    assert_eq!(calc_logic_check("ABCDEFGHIJKLMNOP", ""), "");
}

#[test]
fn logic_check_skips_non_ascii_offsets() {
    // a multi-byte character occupies byte offsets that are not
    // selectable: only offsets holding an ASCII byte contribute
    let out = calc_logic_check("é", "abcdefgh01234567");
    assert_eq!(out, "");
}

#[test]
fn decode_nonce_fixture() {
    assert_eq!(decode_nonce(TOKEN).unwrap(), PLAIN);
    assert_eq!(decode_nonce(TOKEN2).unwrap(), PLAIN2);
}

#[test]
fn nonce_round_trip() {
    // decode_nonce inverts the reference encoder for plaintexts of the
    // expected nonce length
    let token = encode_nonce(PLAIN).unwrap();
    assert_eq!(token, TOKEN);
    assert_eq!(decode_nonce(&token).unwrap(), PLAIN);

    let other = "0123456789abcdefghijklmnopqrs";
    let token = encode_nonce(other).unwrap();
    assert_eq!(decode_nonce(&token).unwrap(), other);
}

#[test]
fn encode_nonce_rejects_unpaddable_lengths() {
    assert_eq!(encode_nonce("short").unwrap_err(), AuthError::EncryptionFailed);
    assert_eq!(
        encode_nonce("0123456789abcdefghijklmnopqrstuv").unwrap_err(),
        AuthError::EncryptionFailed
    );
}

#[test]
fn decode_nonce_rejects_bad_base64() {
    assert_eq!(decode_nonce("@@not base64@@").unwrap_err(), AuthError::InvalidEncoding);
    // valid Base64, but longer than one nonce ciphertext (48 zero bytes)
    let long = "AAAAAAAAAAAAAAAAAAAAAAAAAAAAAAAAAAAAAAAAAAAAAAAAAAAAAAAAAAAAAAAA";
    assert_eq!(decode_nonce(long).unwrap_err(), AuthError::InvalidEncoding);
}

#[test]
fn decode_nonce_rejects_bad_padding() {
    // an all-zero ciphertext (32 zero bytes) decrypts to noise whose
    // final byte is no valid padding length
    let bad = "AAAAAAAAAAAAAAAAAAAAAAAAAAAAAAAAAAAAAAAAAAA=";
    assert_eq!(decode_nonce(bad).unwrap_err(), AuthError::DecryptionFailed);
}

#[test]
fn sign_nonce_deterministic_and_decodable() {
    let a = sign_nonce(PLAIN.as_bytes()).unwrap();
    let b = sign_nonce(PLAIN.as_bytes()).unwrap();
    assert_eq!(a, b);
    assert_eq!(a, SIG);
    // the signature is valid Base64 holding one padded nonce ciphertext
    let mut buf = [0u8; 64];
    let decoded = Base64::decode(a.as_bytes(), &mut buf).unwrap();
    assert_eq!(decoded.len(), 32);
}

#[test]
fn sign_nonce_rejects_short_and_long() {
    assert_eq!(sign_nonce(b"fifteen-bytes-x").unwrap_err(), AuthError::InvalidKeyLength);
    assert_eq!(sign_nonce(&[0u8; 15]).unwrap_err(), AuthError::InvalidKeyLength);
    assert_eq!(sign_nonce(&[65u8; 32]).unwrap_err(), AuthError::EncryptionFailed);
    assert_eq!(sign_nonce(&[65u8; 100]).unwrap_err(), AuthError::EncryptionFailed);
}

#[test]
fn end_to_end_fixture() {
    // the full observation step: decode a captured token, then sign the
    // plaintext, reproducing the captured signature
    let value = decode_nonce(TOKEN).unwrap();
    assert_eq!(value, PLAIN);
    let sig = sign_nonce(value.as_bytes()).unwrap();
    assert_eq!(sig, SIG);

    let nonce = Nonce::from_encoded(TOKEN).unwrap();
    assert_eq!(nonce.encoded, TOKEN);
    assert_eq!(nonce.value, PLAIN);
    assert_eq!(nonce.signature, SIG);
}

#[test]
fn session_begin_requires_headers() {
    assert_eq!(
        Session::begin(None, Some("sid")).unwrap_err(),
        AuthError::MissingNonce
    );
    assert_eq!(Session::begin(Some(TOKEN), None).unwrap_err(), AuthError::MissingSessionId);
    let s = Session::begin(Some(TOKEN), Some("sid")).unwrap();
    assert_eq!(s.id, "sid");
    assert_eq!(s.nonce.signature, SIG);
}

#[test]
fn session_nonce_rotation() {
    let mut s = Session::begin(Some(TOKEN), Some("sid")).unwrap();
    let before_value = s.nonce.value.clone();
    let before_sig = s.nonce.signature.clone();

    // a response carrying a fresh token replaces the nonce wholesale
    s.update(Some(TOKEN2)).unwrap();
    assert_ne!(s.nonce.value, before_value);
    assert_ne!(s.nonce.signature, before_sig);
    assert_eq!(s.nonce.encoded, TOKEN2);
    assert_eq!(s.nonce.value, PLAIN2);
    assert_eq!(s.nonce.signature, SIG2);
    assert!(s.auth_header(false).contains(SIG2));

    // a response without a nonce header leaves the nonce untouched
    s.update(None).unwrap();
    assert_eq!(s.nonce.encoded, TOKEN2);
    assert_eq!(s.nonce.value, PLAIN2);
    assert_eq!(s.nonce.signature, SIG2);

    // a malformed token leaves the nonce untouched and reports the fault
    assert_eq!(s.update(Some("***")).unwrap_err(), AuthError::InvalidEncoding);
    assert_eq!(s.nonce.encoded, TOKEN2);
}

#[test]
fn auth_header_shape() {
    let s = Session::begin(Some(TOKEN), Some("sid")).unwrap();
    assert_eq!(
        s.auth_header(false),
        format!(r#"FUS nonce="", signature="{SIG}", type="", nc="", realm="", newauth="1""#)
    );
    assert_eq!(
        s.auth_header(true),
        format!(r#"FUS nonce="{TOKEN}", signature="{SIG}", type="", nc="", realm="", newauth="1""#)
    );
}
