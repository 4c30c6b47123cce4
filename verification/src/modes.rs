//! Verified block-mode chaining over the trusted single-block AES
//! primitives: plain per-block (ECB-style) decryption for the firmware
//! stream, and CBC for the nonce tokens.
//!
//! Each mode is specified by recursion on the final block, so a forward
//! loop unfolds it directly.

use vstd::prelude::*;

verus! {

use crate::crypto::{
    aes128_dec_block, aes128_decrypt_block, aes128_enc_block, aes128_encrypt_block,
    aes256_dec_block, aes256_decrypt_block, aes256_enc_block, aes256_encrypt_block,
};
use vstd::slice::slice_subrange;

/// Bytewise XOR of two equal-length sequences.
pub open spec fn xor_seq(a: Seq<u8>, b: Seq<u8>) -> Seq<u8> {
    Seq::new(a.len(), |i| a[i] ^ b[i])
}

/// XOR is its own inverse, bytewise.
pub proof fn lemma_xor_seq_inverse(a: Seq<u8>, b: Seq<u8>)
    requires
        a.len() == b.len(),
    ensures
        xor_seq(xor_seq(a, b), b) =~= a,
{
    assert forall|i: int| 0 <= i < a.len() implies xor_seq(xor_seq(a, b), b)[i] == a[i] by {
        let x = a[i];
        let y = b[i];
        assert((x ^ y) ^ y == x) by (bit_vector);
    }
}

/// Per-block AES-128 decryption of a whole ciphertext; a trailing fragment
/// shorter than one block contributes nothing.
pub open spec fn ecb128_decrypt(key: Seq<u8>, ct: Seq<u8>) -> Seq<u8>
    decreases ct.len(),
{
    if ct.len() < 16 {
        Seq::empty()
    } else {
        ecb128_decrypt(key, ct.take(ct.len() - 16))
            + aes128_dec_block(key, ct.skip(ct.len() - 16))
    }
}

/// Per-block AES-128 encryption of a block-aligned plaintext.
pub open spec fn ecb128_encrypt(key: Seq<u8>, pt: Seq<u8>) -> Seq<u8>
    decreases pt.len(),
{
    if pt.len() < 16 {
        Seq::empty()
    } else {
        ecb128_encrypt(key, pt.take(pt.len() - 16))
            + aes128_enc_block(key, pt.skip(pt.len() - 16))
    }
}


/// Per-block decryption distributes over a block-aligned split.
pub proof fn lemma_ecb128_decrypt_append(key: Seq<u8>, a: Seq<u8>, b: Seq<u8>)
    requires
        a.len() % 16 == 0,
        b.len() % 16 == 0,
    ensures
        ecb128_decrypt(key, a + b) == ecb128_decrypt(key, a) + ecb128_decrypt(key, b),
    decreases b.len(),
{
    let whole = a + b;
    if b.len() == 0 {
        assert(whole =~= a);
        assert(ecb128_decrypt(key, b) =~= Seq::<u8>::empty());
        assert(ecb128_decrypt(key, a) + ecb128_decrypt(key, b) =~= ecb128_decrypt(key, a));
    } else {
        assert(b.len() >= 16) by {
            let n = b.len() as int;
            assert(n % 16 == 0 && n > 0 ==> n >= 16) by (nonlinear_arith);
        };
        assert(b.take(b.len() - 16).len() % 16 == 0) by {
            let n = b.len() as int;
            assert(n % 16 == 0 ==> (n - 16) % 16 == 0) by (nonlinear_arith);
        };
        lemma_ecb128_decrypt_append(key, a, b.take(b.len() - 16));
        assert(whole.take(whole.len() - 16) =~= a + b.take(b.len() - 16));
        assert(whole.skip(whole.len() - 16) =~= b.skip(b.len() - 16));
    }
}

/// CBC encryption under AES-256: each ciphertext block is the encryption of
/// the plaintext block XORed with the previous ciphertext block (the IV for
/// the first).
pub open spec fn cbc256_encrypt(key: Seq<u8>, iv: Seq<u8>, pt: Seq<u8>) -> Seq<u8>
    decreases pt.len(),
{
    if pt.len() < 16 {
        Seq::empty()
    } else {
        let prefix = cbc256_encrypt(key, iv, pt.take(pt.len() - 16));
        let prev = if pt.len() == 16 { iv } else { prefix.skip(prefix.len() - 16) };
        prefix + aes256_enc_block(key, xor_seq(pt.skip(pt.len() - 16), prev))
    }
}

/// CBC decryption under AES-256: each plaintext block is the decryption of
/// the ciphertext block, XORed with the previous ciphertext block (the IV
/// for the first).
pub open spec fn cbc256_decrypt(key: Seq<u8>, iv: Seq<u8>, ct: Seq<u8>) -> Seq<u8>
    decreases ct.len(),
{
    if ct.len() < 16 {
        Seq::empty()
    } else {
        let prev = if ct.len() == 16 { iv } else { ct.subrange(ct.len() - 32, ct.len() - 16) };
        cbc256_decrypt(key, iv, ct.take(ct.len() - 16))
            + xor_seq(aes256_dec_block(key, ct.skip(ct.len() - 16)), prev)
    }
}



/// Bytewise XOR of two 16-byte slices.
fn xor16(a: &[u8], b: &[u8]) -> (r: Vec<u8>)
    requires
        a@.len() == 16,
        b@.len() == 16,
    ensures
        r@ == xor_seq(a@, b@),
        r@.len() == 16,
{
    let mut out: Vec<u8> = Vec::new();
    let mut i: usize = 0;
    while i < 16
        invariant
            i <= 16,
            a@.len() == 16,
            b@.len() == 16,
            out@ == xor_seq(a@, b@).take(i as int),
        decreases 16 - i,
    {
        out.push(a[i] ^ b[i]);
        proof {
            assert(xor_seq(a@, b@).take(i + 1)
                =~= xor_seq(a@, b@).take(i as int).push(a@[i as int] ^ b@[i as int]));
        }
        i = i + 1;
    }
    proof {
        assert(xor_seq(a@, b@).take(16) =~= xor_seq(a@, b@));
    }
    out
}

/// CBC-encrypt a block-aligned plaintext under AES-256; the result is
/// pinned to the CBC specification, and decrypting it is known to restore
/// the plaintext.
pub(crate) fn cbc256_encrypt_vec(key: &[u8], iv: &[u8], pt: &[u8]) -> (r: Vec<u8>)
    requires
        key@.len() == 32,
        iv@.len() == 16,
        pt@.len() % 16 == 0,
    ensures
        r@ == cbc256_encrypt(key@, iv@, pt@),
        r@.len() == pt@.len(),
        cbc256_decrypt(key@, iv@, r@) == pt@,
{
    let mut out: Vec<u8> = Vec::new();
    let mut prev: Vec<u8> = slice_to_vec_u8(iv);
    let mut i: usize = 0;
    while pt.len() - i >= 16
        invariant
            i % 16 == 0,
            i <= pt@.len(),
            pt@.len() % 16 == 0,
            key@.len() == 32,
            iv@.len() == 16,
            out@.len() == i,
            out@ == cbc256_encrypt(key@, iv@, pt@.take(i as int)),
            prev@ == if i == 0 { iv@ } else { out@.skip(i - 16) },
            prev@.len() == 16,
            cbc256_decrypt(key@, iv@, out@) == pt@.take(i as int),
        decreases pt@.len() - i,
    {
        let block = slice_subrange(pt, i, i + 16);
        let xored = xor16(block, prev.as_slice());
        let cipher_block = aes256_encrypt_block(key, xored.as_slice());
        proof {
            let pt_next = pt@.take(i + 16);
            assert(pt_next.take(pt_next.len() - 16) =~= pt@.take(i as int));
            assert(pt_next.skip(pt_next.len() - 16) =~= block@);
            let out_next = out@ + cipher_block@;
            assert(out_next.take(out_next.len() - 16) =~= out@);
            assert(out_next.skip(out_next.len() - 16) =~= cipher_block@);
            if i > 0 {
                assert(out_next.subrange(out_next.len() - 32, out_next.len() - 16)
                    =~= out@.skip(i - 16));
            }
            // decrypting the new block: dec(enc(x)) == x, then XOR cancels
            lemma_xor_seq_inverse(block@, prev@);
            assert(cbc256_decrypt(key@, iv@, out_next)
                == cbc256_decrypt(key@, iv@, out@) + xor_seq(xor_seq(block@, prev@), prev@));
            assert(pt@.take(i + 16) =~= pt@.take(i as int) + block@);
        }
        let mut next_out = out;
        next_out.extend_from_slice(cipher_block.as_slice());
        proof {
            assert(next_out@ =~= out@ + cipher_block@);
        }
        out = next_out;
        prev = cipher_block;
        proof {
            assert(prev@ =~= out@.skip(i + 16 - 16));
        }
        i = i + 16;
    }
    proof {
        assert(i == pt@.len()) by {
            let n = pt@.len() as int;
            let k = i as int;
            assert(k % 16 == 0 && n % 16 == 0 && k <= n && k + 16 > n ==> k == n)
                by (nonlinear_arith);
        };
        assert(pt@.take(i as int) =~= pt@);
    }
    out
}

/// CBC-decrypt a block-aligned ciphertext under AES-256.
pub(crate) fn cbc256_decrypt_vec(key: &[u8], iv: &[u8], ct: &[u8]) -> (r: Vec<u8>)
    requires
        key@.len() == 32,
        iv@.len() == 16,
        ct@.len() % 16 == 0,
    ensures
        r@ == cbc256_decrypt(key@, iv@, ct@),
        r@.len() == ct@.len(),
{
    let mut out: Vec<u8> = Vec::new();
    let mut i: usize = 0;
    while ct.len() - i >= 16
        invariant
            i % 16 == 0,
            i <= ct@.len(),
            ct@.len() % 16 == 0,
            key@.len() == 32,
            iv@.len() == 16,
            out@.len() == i,
            out@ == cbc256_decrypt(key@, iv@, ct@.take(i as int)),
        decreases ct@.len() - i,
    {
        let block = slice_subrange(ct, i, i + 16);
        let prev = if i == 0 {
            slice_subrange(iv, 0, 16)
        } else {
            slice_subrange(ct, i - 16, i)
        };
        let decrypted = aes256_decrypt_block(key, block);
        let plain = xor16(decrypted.as_slice(), prev);
        proof {
            let ct_next = ct@.take(i + 16);
            assert(ct_next.take(ct_next.len() - 16) =~= ct@.take(i as int));
            assert(ct_next.skip(ct_next.len() - 16) =~= block@);
            if i == 0 {
                assert(prev@ =~= iv@);
            } else {
                assert(ct_next.subrange(ct_next.len() - 32, ct_next.len() - 16) =~= prev@);
            }
        }
        let mut next_out = out;
        next_out.extend_from_slice(plain.as_slice());
        proof {
            assert(next_out@ =~= out@ + plain@);
        }
        out = next_out;
        i = i + 16;
    }
    proof {
        assert(i == ct@.len()) by {
            let n = ct@.len() as int;
            let k = i as int;
            assert(k % 16 == 0 && n % 16 == 0 && k <= n && k + 16 > n ==> k == n)
                by (nonlinear_arith);
        };
        assert(ct@.take(i as int) =~= ct@);
    }
    out
}

/// Decrypt a block-aligned ciphertext per block under AES-128.
pub(crate) fn ecb128_decrypt_vec(key: &[u8], ct: &[u8]) -> (r: Vec<u8>)
    requires
        key@.len() == 16,
        ct@.len() % 16 == 0,
    ensures
        r@ == ecb128_decrypt(key@, ct@),
        r@.len() == ct@.len(),
{
    let mut out: Vec<u8> = Vec::new();
    let mut i: usize = 0;
    while ct.len() - i >= 16
        invariant
            i % 16 == 0,
            i <= ct@.len(),
            ct@.len() % 16 == 0,
            key@.len() == 16,
            out@.len() == i,
            out@ == ecb128_decrypt(key@, ct@.take(i as int)),
        decreases ct@.len() - i,
    {
        let block = slice_subrange(ct, i, i + 16);
        let plain = aes128_decrypt_block(key, block);
        proof {
            let ct_next = ct@.take(i + 16);
            assert(ct_next.take(ct_next.len() - 16) =~= ct@.take(i as int));
            assert(ct_next.skip(ct_next.len() - 16) =~= block@);
        }
        let mut next_out = out;
        next_out.extend_from_slice(plain.as_slice());
        proof {
            assert(next_out@ =~= out@ + plain@);
        }
        out = next_out;
        i = i + 16;
    }
    proof {
        assert(i == ct@.len()) by {
            let n = ct@.len() as int;
            let k = i as int;
            assert(k % 16 == 0 && n % 16 == 0 && k <= n && k + 16 > n ==> k == n)
                by (nonlinear_arith);
        };
        assert(ct@.take(i as int) =~= ct@);
    }
    out
}

/// Encrypt a block-aligned plaintext per block under AES-128; decrypting
/// the result is known to restore the plaintext.
pub(crate) fn ecb128_encrypt_vec(key: &[u8], pt: &[u8]) -> (r: Vec<u8>)
    requires
        key@.len() == 16,
        pt@.len() % 16 == 0,
    ensures
        r@ == ecb128_encrypt(key@, pt@),
        r@.len() == pt@.len(),
        ecb128_decrypt(key@, r@) == pt@,
{
    let mut out: Vec<u8> = Vec::new();
    let mut i: usize = 0;
    while pt.len() - i >= 16
        invariant
            i % 16 == 0,
            i <= pt@.len(),
            pt@.len() % 16 == 0,
            key@.len() == 16,
            out@.len() == i,
            out@ == ecb128_encrypt(key@, pt@.take(i as int)),
            ecb128_decrypt(key@, out@) == pt@.take(i as int),
        decreases pt@.len() - i,
    {
        let block = slice_subrange(pt, i, i + 16);
        let cipher_block = aes128_encrypt_block(key, block);
        proof {
            let pt_next = pt@.take(i + 16);
            assert(pt_next.take(pt_next.len() - 16) =~= pt@.take(i as int));
            assert(pt_next.skip(pt_next.len() - 16) =~= block@);
            let out_next = out@ + cipher_block@;
            assert(out_next.take(out_next.len() - 16) =~= out@);
            assert(out_next.skip(out_next.len() - 16) =~= cipher_block@);
            assert(pt@.take(i + 16) =~= pt@.take(i as int) + block@);
        }
        let mut next_out = out;
        next_out.extend_from_slice(cipher_block.as_slice());
        proof {
            assert(next_out@ =~= out@ + cipher_block@);
        }
        out = next_out;
        i = i + 16;
    }
    proof {
        assert(i == pt@.len()) by {
            let n = pt@.len() as int;
            let k = i as int;
            assert(k % 16 == 0 && n % 16 == 0 && k <= n && k + 16 > n ==> k == n)
                by (nonlinear_arith);
        };
        assert(pt@.take(i as int) =~= pt@);
    }
    out
}

/// Copy a byte slice into a vector.
fn slice_to_vec_u8(data: &[u8]) -> (r: Vec<u8>)
    ensures
        r@ == data@,
{
    let mut out: Vec<u8> = Vec::new();
    out.extend_from_slice(data);
    out
}

} // verus!
