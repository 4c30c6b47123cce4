//! The nonce-based authentication core: the keyed character-selection
//! transform, the nonce codec (decode a server token, sign the plaintext
//! nonce back), and the session state that rotates the nonce after every
//! authenticated exchange.

use vstd::prelude::*;

verus! {

use vstd::string::{StrSliceExecFns, StringExecFns};
use vstd::utf8::{
    decode_utf8, encode_utf8, encode_utf8_decode_utf8, encode_utf8_valid_utf8, is_ascii_chars,
    is_ascii_chars_encode_utf8, valid_utf8,
};
use vstd::slice::slice_subrange;
use crate::crypto::{base64_decode, base64_decoded, base64_encode, base64_encoded};
use crate::modes::{cbc256_decrypt, cbc256_decrypt_vec, cbc256_encrypt, cbc256_encrypt_vec};
use crate::padding::{lemma_pad_unpad, pad, pkcs7_pad, pkcs7_unpad, unpad};
use crate::text::{push_char, utf8_to_string};

/// Index selected by one keystream character: the low four bits of its
/// code point.
pub open spec fn keystream_index(c: char) -> int {
    (c as u32 & 0xf) as int
}

/// The keyed character-selection transform: each keystream character picks
/// the input byte at the offset given by its low four bits; offsets past
/// the end of the input, and offsets holding a non-ASCII byte, select
/// nothing.
pub open spec fn logic_check(input: Seq<u8>, keystream: Seq<char>) -> Seq<char>
    decreases keystream.len(),
{
    if keystream.len() == 0 {
        Seq::empty()
    } else {
        let prefix = logic_check(input, keystream.drop_last());
        let n = keystream_index(keystream.last());
        if n < input.len() && input[n] < 0x80 {
            prefix.push(input[n] as char)
        } else {
            prefix
        }
    }
}

/// The output of the transform never exceeds the keystream in length.
pub proof fn lemma_logic_check_len(input: Seq<u8>, keystream: Seq<char>)
    ensures
        logic_check(input, keystream).len() <= keystream.len(),
    decreases keystream.len(),
{
    if keystream.len() > 0 {
        lemma_logic_check_len(input, keystream.drop_last());
    }
}

/// Pure integrity-token and key-derivation primitive: selects bytes of
/// `input` under the direction of `nonce` as keystream.
///
/// A byte offset of `input` contributes a character exactly when it lies
/// within the string and holds an ASCII byte, which is precisely when the
/// one-byte slice at that offset is a well-formed substring.
pub fn calc_logic_check(input: &str, nonce: &str) -> (r: String)
    ensures
        r@ == logic_check(encode_utf8(input@), nonce@),
        r@.len() <= nonce@.len(),
{
    let bytes = input.as_bytes();
    let klen = nonce.unicode_len();
    let mut out = String::new();
    let mut i: usize = 0;
    while i < klen
        invariant
            i <= klen,
            klen == nonce@.len(),
            bytes@ == encode_utf8(input@),
            out@ == logic_check(bytes@, nonce@.take(i as int)),
        decreases klen - i,
    {
        let c = nonce.get_char(i);
        let n = ((c as u32) & 0xf) as usize;
        proof {
            assert(nonce@.take(i + 1).drop_last() =~= nonce@.take(i as int));
            assert(nonce@.take(i + 1).last() == nonce@[i as int]);
        }
        if n < bytes.len() && bytes[n] < 0x80 {
            push_char(&mut out, bytes[n] as char);
        }
        i = i + 1;
    }
    proof {
        assert(nonce@.take(klen as int) =~= nonce@);
        lemma_logic_check_len(bytes@, nonce@);
    }
    out
}


/// The fixed 32-byte primary protocol key; its first 16 bytes double as
/// the IV for nonce decryption.
pub open spec fn primary_key() -> Seq<u8> {
    encode_utf8("vicopx7dqu06emacgpnpy8j8zwhduwlh"@)
}

/// The fixed 16-byte secondary key appended to the derived signing key.
pub open spec fn secondary_key() -> Seq<u8> {
    encode_utf8("9u7qab84rpc16gvk"@)
}

pub(crate) fn primary_key_bytes() -> (r: &'static [u8])
    ensures
        r@ == primary_key(),
        r@.len() == 32,
        forall|i: int| 0 <= i < 32 ==> r@[i] < 0x80,
{
    let s = "vicopx7dqu06emacgpnpy8j8zwhduwlh";
    proof {
        reveal_strlit("vicopx7dqu06emacgpnpy8j8zwhduwlh");
        assert(is_ascii_chars(s@));
        is_ascii_chars_encode_utf8(s@);
    }
    s.as_bytes()
}

pub(crate) fn secondary_key_bytes() -> (r: &'static [u8])
    ensures
        r@ == secondary_key(),
        r@.len() == 16,
{
    let s = "9u7qab84rpc16gvk";
    proof {
        reveal_strlit("9u7qab84rpc16gvk");
        assert(is_ascii_chars(s@));
        is_ascii_chars_encode_utf8(s@);
    }
    s.as_bytes()
}

/// Failures of the nonce codec and of the session protocol.
#[derive(Clone, Copy, Debug, PartialEq, Eq, Structural)]
pub enum AuthError {
    /// The server token is not well-formed Base64, or decodes to more
    /// bytes than one nonce ciphertext holds.
    InvalidEncoding,
    /// The decrypted nonce carries no well-formed PKCS#7 padding.
    DecryptionFailed,
    /// The decrypted nonce is not valid text.
    InvalidUtf8,
    /// The plaintext nonce is too short to derive a signing key from.
    InvalidKeyLength,
    /// The plaintext nonce does not fit the fixed signing buffer.
    EncryptionFailed,
    /// A response that had to carry a nonce header did not.
    MissingNonce,
    /// A response that had to carry a session identifier did not.
    MissingSessionId,
}

/// What decoding a server nonce token yields: Base64-decode into a 32-byte
/// zero-filled ciphertext buffer, CBC-decrypt under the primary key (IV:
/// its first half), strip PKCS#7 padding, read the rest as UTF-8.
pub open spec fn decode_nonce_spec(token: Seq<char>) -> Result<Seq<char>, AuthError> {
    match base64_decoded(token) {
        Option::None => Result::Err(AuthError::InvalidEncoding),
        Option::Some(d) => if d.len() > 32 {
            Result::Err(AuthError::InvalidEncoding)
        } else {
            let ct = d + Seq::new((32 - d.len()) as nat, |i| 0u8);
            let pt = cbc256_decrypt(primary_key(), primary_key().take(16), ct);
            match pkcs7_unpad(pt) {
                Option::None => Result::Err(AuthError::DecryptionFailed),
                Option::Some(m) => if valid_utf8(m) {
                    Result::Ok(decode_utf8(m))
                } else {
                    Result::Err(AuthError::InvalidUtf8)
                },
            }
        },
    }
}

/// Decrypt a server-issued nonce token into the plaintext nonce.
pub fn decode_nonce(token: &str) -> (r: Result<String, AuthError>)
    ensures
        match r {
            Ok(s) => decode_nonce_spec(token@) == Result::<Seq<char>, AuthError>::Ok(s@),
            Err(e) => decode_nonce_spec(token@) == Result::<Seq<char>, AuthError>::Err(e),
        },
{
    let decoded = match base64_decode(token) {
        Some(d) => d,
        None => {
            return Err(AuthError::InvalidEncoding);
        },
    };
    if decoded.len() > 32 {
        return Err(AuthError::InvalidEncoding);
    }
    let ghost decoded_view = decoded@;
    let mut ct = decoded;
    while ct.len() < 32
        invariant
            decoded_view.len() <= 32,
            decoded_view.len() <= ct@.len() <= 32,
            ct@ == decoded_view + Seq::new((ct@.len() - decoded_view.len()) as nat, |i| 0u8),
        decreases 32 - ct@.len(),
    {
        ct.push(0u8);
        proof {
            assert(ct@ =~= decoded_view
                + Seq::new((ct@.len() - decoded_view.len()) as nat, |i| 0u8));
        }
    }
    let key = primary_key_bytes();
    let iv = slice_subrange(key, 0, 16);
    proof {
        assert(iv@ =~= primary_key().take(16));
    }
    let pt = cbc256_decrypt_vec(key, iv, ct.as_slice());
    let message = match unpad(pt) {
        Some(m) => m,
        None => {
            return Err(AuthError::DecryptionFailed);
        },
    };
    match utf8_to_string(message) {
        Some(s) => Ok(s),
        None => Err(AuthError::InvalidUtf8),
    }
}

/// The 32-byte signing key derived from a plaintext nonce: each of the
/// nonce's first 16 bytes, reduced modulo 16, indexes the primary key;
/// the secondary key supplies the other 16 bytes.
pub open spec fn derived_key(nonce: Seq<u8>) -> Seq<u8>
    recommends
        nonce.len() >= 16,
{
    Seq::new(16, |i| primary_key()[(nonce[i] % 16) as int]) + secondary_key()
}

/// The signature ciphertext: the padded nonce, CBC-encrypted under the
/// derived key with the derived key's first half as IV.
pub open spec fn signature_ciphertext(nonce: Seq<u8>) -> Seq<u8>
    recommends
        nonce.len() >= 16,
{
    cbc256_encrypt(derived_key(nonce), derived_key(nonce).take(16), pkcs7_pad(nonce))
}

/// What signing a plaintext nonce yields: nonces shorter than 16 bytes
/// cannot feed the key derivation, and nonces longer than 31 bytes do not
/// fit the fixed encryption buffer once padded.
pub open spec fn sign_nonce_spec(nonce: Seq<u8>) -> Result<Seq<char>, AuthError> {
    if nonce.len() < 16 {
        Result::Err(AuthError::InvalidKeyLength)
    } else if nonce.len() > 31 {
        Result::Err(AuthError::EncryptionFailed)
    } else {
        Result::Ok(base64_encoded(signature_ciphertext(nonce)))
    }
}

/// Sign a plaintext nonce: derive the signing key from the nonce itself,
/// CBC-encrypt the padded nonce under it, and Base64-encode the result.
///
/// On success the token is well-formed Base64 that decodes back to the
/// signature ciphertext.
pub fn sign_nonce(nonce: &[u8]) -> (r: Result<String, AuthError>)
    ensures
        match r {
            Ok(s) => sign_nonce_spec(nonce@) == Result::<Seq<char>, AuthError>::Ok(s@)
                && base64_decoded(s@) == Some(signature_ciphertext(nonce@)),
            Err(e) => sign_nonce_spec(nonce@) == Result::<Seq<char>, AuthError>::Err(e),
        },
{
    if nonce.len() < 16 {
        return Err(AuthError::InvalidKeyLength);
    }
    if nonce.len() > 31 {
        return Err(AuthError::EncryptionFailed);
    }
    let key1 = primary_key_bytes();
    let key2 = secondary_key_bytes();
    let mut dk: Vec<u8> = Vec::new();
    let mut i: usize = 0;
    while i < 16
        invariant
            i <= 16,
            nonce@.len() >= 16,
            key1@ == primary_key(),
            key1@.len() == 32,
            dk@ == Seq::new(i as nat, |j| primary_key()[(nonce@[j] % 16) as int]),
        decreases 16 - i,
    {
        dk.push(key1[(nonce[i] % 16) as usize]);
        proof {
            assert(dk@ =~= Seq::new((i + 1) as nat, |j| primary_key()[(nonce@[j] % 16) as int]));
        }
        i = i + 1;
    }
    dk.extend_from_slice(key2);
    proof {
        assert(dk@ =~= derived_key(nonce@));
    }
    let padded = pad(nonce);
    let iv = slice_subrange(dk.as_slice(), 0, 16);
    proof {
        assert(iv@ =~= derived_key(nonce@).take(16));
    }
    let ct = cbc256_encrypt_vec(dk.as_slice(), iv, padded.as_slice());
    Ok(base64_encode(ct.as_slice()))
}

/// Reference encoder for nonce tokens: the exact inverse of
/// [`decode_nonce`], encrypting a plaintext nonce under the primary key
/// into a token the decoder accepts.
///
/// Decoding the returned token is guaranteed to give back `plaintext`:
/// together with the contract of [`decode_nonce`] this is the codec's
/// round trip.
pub fn encode_nonce(plaintext: &str) -> (r: Result<String, AuthError>)
    ensures
        match r {
            Ok(t) => 16 <= encode_utf8(plaintext@).len() <= 31
                && decode_nonce_spec(t@) == Result::<Seq<char>, AuthError>::Ok(plaintext@),
            Err(e) => e == AuthError::EncryptionFailed
                && !(16 <= encode_utf8(plaintext@).len() <= 31),
        },
{
    let bytes = plaintext.as_bytes();
    if bytes.len() < 16 || bytes.len() > 31 {
        return Err(AuthError::EncryptionFailed);
    }
    let padded = pad(bytes);
    let key = primary_key_bytes();
    let iv = slice_subrange(key, 0, 16);
    proof {
        assert(iv@ =~= primary_key().take(16));
    }
    let ct = cbc256_encrypt_vec(key, iv, padded.as_slice());
    let token = base64_encode(ct.as_slice());
    proof {
        assert(ct@ + Seq::new(0, |i| 0u8) =~= ct@);
        lemma_pad_unpad(bytes@);
        encode_utf8_valid_utf8(plaintext@);
        encode_utf8_decode_utf8(plaintext@);
    }
    Ok(token)
}


/// What observing a fresh server token yields: the decoded plaintext nonce
/// and the signature computed over it.
pub open spec fn nonce_from_token_spec(token: Seq<char>) -> Result<(Seq<char>, Seq<char>), AuthError> {
    match decode_nonce_spec(token) {
        Result::Err(e) => Result::Err(e),
        Result::Ok(v) => match sign_nonce_spec(encode_utf8(v)) {
            Result::Err(e) => Result::Err(e),
            Result::Ok(sig) => Result::Ok((v, sig)),
        },
    }
}

/// One server-issued nonce: the token exactly as received, its decrypted
/// plaintext, and the signature derived from that plaintext.
#[derive(Debug)]
pub struct Nonce {
    /// The opaque token as the server sent it, echoed back verbatim.
    pub encoded: String,
    /// The decrypted plaintext, the key material for integrity tokens.
    pub value: String,
    /// The re-encrypted proof token sent back on every request.
    pub signature: String,
}

impl Nonce {
    /// The three fields belong together: value and signature are exactly
    /// what decoding and signing the stored token yields.
    pub open spec fn wf(&self) -> bool {
        nonce_from_token_spec(self.encoded@)
            == Result::<(Seq<char>, Seq<char>), AuthError>::Ok((self.value@, self.signature@))
    }

    /// Build a nonce from a raw server token: decode, sign, store all
    /// three parts. The single entry point whenever a nonce header is
    /// observed.
    pub fn from_encoded(encoded: &str) -> (r: Result<Nonce, AuthError>)
        ensures
            match r {
                Ok(n) => n.encoded@ == encoded@ && n.wf(),
                Err(e) => nonce_from_token_spec(encoded@)
                    == Result::<(Seq<char>, Seq<char>), AuthError>::Err(e),
            },
    {
        let value = match decode_nonce(encoded) {
            Ok(v) => v,
            Err(e) => {
                return Err(e);
            },
        };
        let signature = match sign_nonce(value.as_str().as_bytes()) {
            Ok(s) => s,
            Err(e) => {
                return Err(e);
            },
        };
        Ok(Nonce { encoded: encoded.to_owned(), value, signature })
    }
}

/// The authorization header carried on protocol requests; the nonce token
/// itself is included only where the exchange calls for it.
pub open spec fn auth_header_spec(nonce_token: Seq<char>, signature: Seq<char>) -> Seq<char> {
    "FUS nonce=\""@ + nonce_token + "\", signature=\""@ + signature
        + "\", type=\"\", nc=\"\", realm=\"\", newauth=\"1\""@
}

/// One sequential stream of authenticated requests: the live nonce and the
/// transport-level session identifier captured when the session began.
#[derive(Debug)]
pub struct Session {
    /// The current nonce; replaced wholesale on every response that
    /// carries a fresh token.
    pub nonce: Nonce,
    /// The session identifier replayed on every subsequent request.
    pub id: String,
}

impl Session {
    pub open spec fn wf(&self) -> bool {
        self.nonce.wf()
    }

    /// Open a session from the challenge response: the response must carry
    /// a nonce header and a session identifier, and the token must decode
    /// and sign cleanly.
    pub fn begin(nonce_header: Option<&str>, session_id: Option<&str>) -> (r: Result<Session, AuthError>)
        ensures
            match r {
                Ok(s) => (nonce_header matches Some(h) && s.nonce.encoded@ == h@)
                    && (session_id matches Some(sid) && s.id@ == sid@)
                    && s.wf(),
                Err(e) => match (nonce_header, session_id) {
                    (Option::None, _) => e == AuthError::MissingNonce,
                    (Option::Some(_), Option::None) => e == AuthError::MissingSessionId,
                    (Option::Some(h), Option::Some(_)) => nonce_from_token_spec(h@)
                        == Result::<(Seq<char>, Seq<char>), AuthError>::Err(e),
                },
            },
    {
        let header = match nonce_header {
            Some(h) => h,
            None => {
                return Err(AuthError::MissingNonce);
            },
        };
        let sid = match session_id {
            Some(sid) => sid,
            None => {
                return Err(AuthError::MissingSessionId);
            },
        };
        let nonce = match Nonce::from_encoded(header) {
            Ok(n) => n,
            Err(e) => {
                return Err(e);
            },
        };
        Ok(Session { nonce, id: sid.to_owned() })
    }

    /// Take note of a finished exchange: a response carrying a nonce
    /// header replaces the session's nonce wholesale before the next
    /// request is signed; a response without one leaves it untouched.
    pub fn update(&mut self, nonce_header: Option<&str>) -> (r: Result<(), AuthError>)
        ensures
            final(self).id == old(self).id,
            match nonce_header {
                Option::None => r is Ok && *final(self) == *old(self),
                Option::Some(h) => match r {
                    Ok(_) => final(self).nonce.encoded@ == h@ && final(self).nonce.wf(),
                    Err(e) => *final(self) == *old(self)
                        && nonce_from_token_spec(h@)
                            == Result::<(Seq<char>, Seq<char>), AuthError>::Err(e),
                },
            },
    {
        let header = match nonce_header {
            Some(h) => h,
            None => {
                return Ok(());
            },
        };
        match Nonce::from_encoded(header) {
            Ok(n) => {
                self.nonce = n;
                Ok(())
            },
            Err(e) => Err(e),
        }
    }

    /// The authorization header for the next request, built from the
    /// current signature; `with_nonce` includes the stored token itself.
    pub fn auth_header(&self, with_nonce: bool) -> (r: String)
        ensures
            r@ == auth_header_spec(
                if with_nonce { self.nonce.encoded@ } else { Seq::<char>::empty() },
                self.nonce.signature@,
            ),
    {
        let mut out = String::new();
        out.append("FUS nonce=\"");
        if with_nonce {
            out.append(self.nonce.encoded.as_str());
        }
        out.append("\", signature=\"");
        out.append(self.nonce.signature.as_str());
        out.append("\", type=\"\", nc=\"\", realm=\"\", newauth=\"1\"");
        proof {
            if with_nonce {
                assert(out@ =~= auth_header_spec(self.nonce.encoded@, self.nonce.signature@));
            } else {
                assert(out@ =~= auth_header_spec(Seq::<char>::empty(), self.nonce.signature@));
            }
        }
        out
    }
}

} // verus!
