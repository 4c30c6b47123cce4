//! The streaming firmware decryption engine: consumes ciphertext in
//! network-sized chunks of arbitrary length, emits plaintext one
//! block-aligned flush unit at a time, and strips PKCS#7 padding only at
//! the true end of the stream.

use vstd::prelude::*;

verus! {

use vstd::slice::slice_subrange;
use crate::modes::{
    ecb128_decrypt, ecb128_decrypt_vec, ecb128_encrypt, ecb128_encrypt_vec,
    lemma_ecb128_decrypt_append,
};
use crate::padding::{lemma_pad_unpad, lemma_unpad_append, pad, pkcs7_pad, pkcs7_unpad, unpad};

/// Bytes decrypted and emitted in one interior flush: a whole number of
/// cipher blocks.
pub const FLUSH_UNIT: usize = 4096;

/// Failures of the streaming decryptor.
#[derive(Clone, Copy, Debug, PartialEq, Eq, Structural)]
pub enum Error {
    /// The decryption key does not have the cipher's key length.
    InvalidKey,
    /// The stream ended on a length that is not a whole number of cipher
    /// blocks.
    BlockLen,
    /// The final block does not carry well-formed PKCS#7 padding.
    Unpad,
}

/// What decrypting a complete ciphertext stream yields: per-block
/// decryption of the whole stream, then PKCS#7 unpadding of the tail.
/// `None` on a stream that is empty, not block-aligned, or ends in
/// malformed padding.
pub open spec fn stream_decrypt(key: Seq<u8>, ct: Seq<u8>) -> Option<Seq<u8>> {
    if ct.len() % 16 != 0 {
        Option::None
    } else {
        pkcs7_unpad(ecb128_decrypt(key, ct))
    }
}

/// Streaming decryptor state: a fixed key, the ciphertext bytes read ahead
/// but not yet decrypted, and (as ghost history) the ciphertext already
/// flushed and the plaintext already emitted.
pub struct StreamDecryptor {
    key: Vec<u8>,
    buf: Vec<u8>,
    flushed: Ghost<Seq<u8>>,
    emitted: Ghost<Seq<u8>>,
}

impl StreamDecryptor {
    /// All ciphertext accepted so far, in arrival order.
    pub closed spec fn consumed(&self) -> Seq<u8> {
        self.flushed@ + self.buf@
    }

    /// All plaintext handed out so far, in emission order.
    pub closed spec fn emitted(&self) -> Seq<u8> {
        self.emitted@
    }

    /// The decryption key.
    pub closed spec fn key_view(&self) -> Seq<u8> {
        self.key@
    }

    /// Ciphertext read ahead but not yet decrypted.
    pub closed spec fn buffered(&self) -> nat {
        self.buf@.len()
    }

    /// The decryptor's invariant: only whole blocks have been flushed, the
    /// emitted plaintext is exactly their decryption, and flushing never
    /// runs ahead of the read buffer (so the stream's final block is still
    /// buffered when the stream ends).
    pub closed spec fn wf(&self) -> bool {
        &&& self.key@.len() == 16
        &&& self.flushed@.len() % 16 == 0
        &&& self.emitted@ == ecb128_decrypt(self.key@, self.flushed@)
        &&& self.emitted@.len() == self.flushed@.len()
        &&& (self.flushed@.len() > 0 ==> self.buf@.len() > 0)
        &&& self.buf@.len() <= FLUSH_UNIT
    }

    /// Start a stream under the given key; rejects keys of the wrong
    /// length.
    pub fn new(key: &[u8]) -> (r: Result<StreamDecryptor, Error>)
        ensures
            match r {
                Ok(d) => key@.len() == 16 && d.wf() && d.key_view() == key@
                    && d.consumed() == Seq::<u8>::empty()
                    && d.emitted() == Seq::<u8>::empty()
                    && d.buffered() == 0,
                Err(e) => e == Error::InvalidKey && key@.len() != 16,
            },
    {
        if key.len() != 16 {
            return Err(Error::InvalidKey);
        }
        let mut key_copy: Vec<u8> = Vec::new();
        key_copy.extend_from_slice(key);
        let d = StreamDecryptor {
            key: key_copy,
            buf: Vec::new(),
            flushed: Ghost(Seq::empty()),
            emitted: Ghost(Seq::empty()),
        };
        proof {
            assert(d.consumed() =~= Seq::<u8>::empty());
        }
        Ok(d)
    }

    /// Accept one chunk of ciphertext, of any size the network happened to
    /// deliver, and return the plaintext that became safe to emit: whole
    /// flush units are decrypted as long as more data is known to follow.
    pub fn push(&mut self, chunk: &[u8]) -> (out: Vec<u8>)
        requires
            old(self).wf(),
        ensures
            final(self).wf(),
            final(self).key_view() == old(self).key_view(),
            final(self).consumed() == old(self).consumed() + chunk@,
            final(self).emitted() == old(self).emitted() + out@,
            final(self).buffered() <= FLUSH_UNIT,
            final(self).consumed().len() == final(self).emitted().len() + final(self).buffered(),
    {
        self.buf.extend_from_slice(chunk);
        let mut out: Vec<u8> = Vec::new();
        while self.buf.len() > FLUSH_UNIT
            invariant
                self.key@.len() == 16,
                self.flushed@.len() % 16 == 0,
                self.emitted@ == ecb128_decrypt(self.key@, self.flushed@),
                self.emitted@.len() == self.flushed@.len(),
                self.flushed@.len() > 0 ==> self.buf@.len() > 0,
                self.flushed@ + self.buf@ == old(self).consumed() + chunk@,
                self.key@ == old(self).key_view(),
                self.emitted@ == old(self).emitted() + out@,
            decreases self.buf@.len(),
        {
            let ghost pre_buf = self.buf@;
            let ghost pre_flushed = self.flushed@;
            let unit = slice_subrange(self.buf.as_slice(), 0, FLUSH_UNIT);
            let plain = ecb128_decrypt_vec(self.key.as_slice(), unit);
            proof {
                assert(unit@.len() % 16 == 0);
                lemma_ecb128_decrypt_append(self.key@, pre_flushed, unit@);
            }
            let rest = self.buf.split_off(FLUSH_UNIT);
            self.buf = rest;
            proof {
                self.flushed@ = pre_flushed + pre_buf.take(FLUSH_UNIT as int);
                self.emitted@ = self.emitted@ + plain@;
                assert(self.flushed@ + self.buf@ =~= pre_flushed + pre_buf);
                assert(self.flushed@.len() % 16 == 0) by {
                    let a = pre_flushed.len() as int;
                    assert(a % 16 == 0 ==> (a + 4096) % 16 == 0) by (nonlinear_arith);
                };
                assert(self.emitted@ == ecb128_decrypt(self.key@, self.flushed@));
            }
            let mut new_out = out;
            new_out.extend_from_slice(plain.as_slice());
            proof {
                assert(new_out@ =~= out@ + plain@);
            }
            out = new_out;
            proof {
                assert(self.emitted@ =~= old(self).emitted() + out@);
            }
        }
        out
    }

    /// The stream has ended: decrypt what remains in the buffer and strip
    /// the padding from the final block. Together with the plaintext
    /// already emitted, the result is exactly the decryption of the whole
    /// consumed stream; a stream that is not block-aligned, or whose final
    /// block carries malformed padding, is rejected.
    pub fn finish(self) -> (r: Result<Vec<u8>, Error>)
        requires
            self.wf(),
        ensures
            match r {
                Ok(v) => stream_decrypt(self.key_view(), self.consumed())
                    == Some(self.emitted() + v@),
                Err(e) => stream_decrypt(self.key_view(), self.consumed()) is None
                    && (e == Error::BlockLen <==> self.consumed().len() % 16 != 0)
                    && (e == Error::BlockLen || e == Error::Unpad),
            },
    {
        if self.buf.len() % 16 != 0 {
            proof {
                let a = self.flushed@.len() as int;
                let b = self.buf@.len() as int;
                assert(a % 16 == 0 && b % 16 != 0 ==> (a + b) % 16 != 0) by (nonlinear_arith);
            }
            return Err(Error::BlockLen);
        }
        proof {
            let a = self.flushed@.len() as int;
            let b = self.buf@.len() as int;
            assert(a % 16 == 0 && b % 16 == 0 ==> (a + b) % 16 == 0) by (nonlinear_arith);
        }
        let tail = ecb128_decrypt_vec(self.key.as_slice(), self.buf.as_slice());
        proof {
            lemma_ecb128_decrypt_append(self.key@, self.flushed@, self.buf@);
            if self.buf@.len() > 0 {
                lemma_unpad_append(self.emitted@, tail@);
            } else {
                assert(self.flushed@.len() == 0);
                assert(self.consumed() =~= self.buf@);
                assert(ecb128_decrypt(self.key@, self.consumed()).len() == 0);
            }
            assert(ecb128_decrypt(self.key@, self.consumed())
                == self.emitted@ + tail@);
        }
        match unpad(tail) {
            Some(v) => Ok(v),
            None => Err(Error::Unpad),
        }
    }
}

/// Encrypt a whole plaintext the way the protocol's download server does:
/// PKCS#7-pad it and encrypt per block. Feeding the result back through
/// the streaming decryptor — however it is chunked — reproduces the
/// plaintext exactly: the round trip is part of this contract together
/// with [`StreamDecryptor::finish`].
pub fn encrypt_stream(key: &[u8], plaintext: &[u8]) -> (r: Result<Vec<u8>, Error>)
    requires
        plaintext@.len() + 16 <= usize::MAX,
    ensures
        match r {
            Ok(ct) => key@.len() == 16
                && ct@ == ecb128_encrypt(key@, pkcs7_pad(plaintext@))
                && ct@.len() % 16 == 0
                && ct@.len() > 0
                && stream_decrypt(key@, ct@) == Some(plaintext@),
            Err(e) => e == Error::InvalidKey && key@.len() != 16,
        },
{
    if key.len() != 16 {
        return Err(Error::InvalidKey);
    }
    let padded = pad(plaintext);
    let ct = ecb128_encrypt_vec(key, padded.as_slice());
    proof {
        lemma_pad_unpad(plaintext@);
    }
    Ok(ct)
}

/// Decrypt a complete in-memory ciphertext: a one-shot run of the
/// streaming engine.
pub fn decrypt(key: &[u8], data: &[u8]) -> (r: Result<Vec<u8>, Error>)
    ensures
        match r {
            Ok(v) => key@.len() == 16 && stream_decrypt(key@, data@) == Some(v@),
            Err(e) => match e {
                Error::InvalidKey => key@.len() != 16,
                Error::BlockLen => key@.len() == 16 && data@.len() % 16 != 0,
                Error::Unpad => key@.len() == 16 && data@.len() % 16 == 0
                    && stream_decrypt(key@, data@) is None,
            },
        },
{
    let mut dec = match StreamDecryptor::new(key) {
        Ok(d) => d,
        Err(e) => {
            return Err(e);
        },
    };
    let head = dec.push(data);
    match dec.finish() {
        Ok(tail) => {
            let mut result = head;
            let mut tail_vec = tail;
            result.append(&mut tail_vec);
            Ok(result)
        },
        Err(e) => Err(e),
    }
}

} // verus!
