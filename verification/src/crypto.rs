//! The cryptographic primitives the protocol is built on, supplied by
//! outside crates and specified here at their interface: single-block AES
//! under a fixed key, the MD5 digest, and Base64 with padding.
//!
//! Everything above the single-block level — CBC chaining, PKCS#7 padding,
//! the streaming flush logic — is written and verified in this crate; only
//! the primitives below are taken on trust.

use vstd::prelude::*;

verus! {

use aes::cipher::{BlockDecrypt, BlockEncrypt, KeyInit};
use base64ct::Encoding;
use md5::Digest;

/// AES-128 encryption of one 16-byte block under a 16-byte key.
pub uninterp spec fn aes128_enc_block(key: Seq<u8>, block: Seq<u8>) -> Seq<u8>;

/// AES-128 decryption of one 16-byte block under a 16-byte key.
pub uninterp spec fn aes128_dec_block(key: Seq<u8>, block: Seq<u8>) -> Seq<u8>;

/// AES-256 encryption of one 16-byte block under a 32-byte key.
pub uninterp spec fn aes256_enc_block(key: Seq<u8>, block: Seq<u8>) -> Seq<u8>;

/// AES-256 decryption of one 16-byte block under a 32-byte key.
pub uninterp spec fn aes256_dec_block(key: Seq<u8>, block: Seq<u8>) -> Seq<u8>;

/// The MD5 digest of a byte sequence.
pub uninterp spec fn md5_digest(data: Seq<u8>) -> Seq<u8>;

/// Padded Base64 encoding of a byte sequence.
pub uninterp spec fn base64_encoded(data: Seq<u8>) -> Seq<char>;

/// Padded Base64 decoding: `None` exactly on malformed input.
pub uninterp spec fn base64_decoded(text: Seq<char>) -> Option<Seq<u8>>;

/// Relies on `aes::Aes128` (`cipher::KeyInit::new_from_slice`, which accepts
/// exactly 16-byte keys, and `cipher::BlockEncrypt::encrypt_block`): encrypts
/// one block; `decrypt_block` inverts it.
#[verifier::external_body]
pub(crate) fn aes128_encrypt_block(key: &[u8], block: &[u8]) -> (r: Vec<u8>)
    requires
        key@.len() == 16,
        block@.len() == 16,
    ensures
        r@.len() == 16,
        r@ == aes128_enc_block(key@, block@),
        aes128_dec_block(key@, r@) == block@,
{
    let cipher = aes::Aes128::new_from_slice(key).unwrap();
    let mut b = aes::cipher::generic_array::GenericArray::clone_from_slice(block);
    cipher.encrypt_block(&mut b);
    b.to_vec()
}

/// Relies on `aes::Aes128` (`cipher::KeyInit::new_from_slice`, which accepts
/// exactly 16-byte keys, and `cipher::BlockDecrypt::decrypt_block`): decrypts
/// one block.
#[verifier::external_body]
pub(crate) fn aes128_decrypt_block(key: &[u8], block: &[u8]) -> (r: Vec<u8>)
    requires
        key@.len() == 16,
        block@.len() == 16,
    ensures
        r@.len() == 16,
        r@ == aes128_dec_block(key@, block@),
{
    let cipher = aes::Aes128::new_from_slice(key).unwrap();
    let mut b = aes::cipher::generic_array::GenericArray::clone_from_slice(block);
    cipher.decrypt_block(&mut b);
    b.to_vec()
}

/// Relies on `aes::Aes256` (`cipher::KeyInit::new_from_slice`, which accepts
/// exactly 32-byte keys, and `cipher::BlockEncrypt::encrypt_block`): encrypts
/// one block; `decrypt_block` inverts it.
#[verifier::external_body]
pub(crate) fn aes256_encrypt_block(key: &[u8], block: &[u8]) -> (r: Vec<u8>)
    requires
        key@.len() == 32,
        block@.len() == 16,
    ensures
        r@.len() == 16,
        r@ == aes256_enc_block(key@, block@),
        aes256_dec_block(key@, r@) == block@,
{
    let cipher = aes::Aes256::new_from_slice(key).unwrap();
    let mut b = aes::cipher::generic_array::GenericArray::clone_from_slice(block);
    cipher.encrypt_block(&mut b);
    b.to_vec()
}

/// Relies on `aes::Aes256` (`cipher::KeyInit::new_from_slice`, which accepts
/// exactly 32-byte keys, and `cipher::BlockDecrypt::decrypt_block`): decrypts
/// one block; `encrypt_block` inverts it.
#[verifier::external_body]
pub(crate) fn aes256_decrypt_block(key: &[u8], block: &[u8]) -> (r: Vec<u8>)
    requires
        key@.len() == 32,
        block@.len() == 16,
    ensures
        r@.len() == 16,
        r@ == aes256_dec_block(key@, block@),
        aes256_enc_block(key@, r@) == block@,
{
    let cipher = aes::Aes256::new_from_slice(key).unwrap();
    let mut b = aes::cipher::generic_array::GenericArray::clone_from_slice(block);
    cipher.decrypt_block(&mut b);
    b.to_vec()
}

/// Relies on `md5::Md5` (`digest::Digest::digest`): the 16-byte MD5 digest,
/// a function of the input bytes alone.
#[verifier::external_body]
pub(crate) fn md5(data: &[u8]) -> (r: Vec<u8>)
    ensures
        r@.len() == 16,
        r@ == md5_digest(data@),
{
    md5::Md5::digest(data).to_vec()
}

/// Relies on `base64ct::Base64` (`Encoding::encode_string`): padded Base64
/// encoding, a function of the input bytes alone, which `decode_vec` inverts.
#[verifier::external_body]
pub(crate) fn base64_encode(data: &[u8]) -> (r: String)
    ensures
        r@ == base64_encoded(data@),
        base64_decoded(r@) == Some(data@),
{
    let mut buf = vec![0u8; base64ct::Base64::encoded_len(data)];
    let encoded = base64ct::Base64::encode(data, &mut buf).unwrap();
    encoded.to_owned()
}

/// Relies on `base64ct::Base64` (`Encoding::decode_vec`): strict padded
/// Base64 decoding, failing exactly on malformed input.
#[verifier::external_body]
pub(crate) fn base64_decode(text: &str) -> (r: Option<Vec<u8>>)
    ensures
        match r {
            Some(v) => base64_decoded(text@) == Some(v@),
            None => base64_decoded(text@) is None,
        },
{
    let mut buf = vec![0u8; text.len()];
    match base64ct::Base64::decode(text, &mut buf) {
        Ok(decoded) => Some(decoded.to_vec()),
        Err(_) => None,
    }
}

} // verus!
