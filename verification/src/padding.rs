//! PKCS#7 padding for the protocol's 16-byte cipher blocks, with the
//! round-trip and last-block facts the callers build on.

use vstd::prelude::*;

verus! {

/// Number of padding bytes appended to a message of length `n`: always
/// between 1 and 16.
pub open spec fn pad_amount(n: int) -> int {
    16 - n % 16
}

/// PKCS#7 padding: append `p` copies of the byte `p`.
pub open spec fn pkcs7_pad(data: Seq<u8>) -> Seq<u8> {
    let p = pad_amount(data.len() as int);
    data + Seq::new(p as nat, |i| p as u8)
}

/// PKCS#7 unpadding: defined only on non-empty block-aligned input whose
/// last byte `p` lies in 1..=16 and whose last `p` bytes all equal `p`.
pub open spec fn pkcs7_unpad(data: Seq<u8>) -> Option<Seq<u8>> {
    if data.len() == 0 || data.len() % 16 != 0 {
        None
    } else {
        let p = data.last() as int;
        if 1 <= p <= 16 && (forall|i: int|
            data.len() - p <= i < data.len() ==> data[i] == data.last()) {
            Some(data.take(data.len() - p))
        } else {
            None
        }
    }
}

/// Unpadding inverts padding.
pub proof fn lemma_pad_unpad(data: Seq<u8>)
    ensures
        pkcs7_unpad(pkcs7_pad(data)) == Some(data),
{
    let p = pad_amount(data.len() as int);
    let padded = pkcs7_pad(data);
    assert(1 <= p <= 16);
    assert(padded.len() == data.len() + p);
    assert(padded.len() % 16 == 0) by {
        let n = data.len() as int;
        assert((n + (16 - n % 16)) % 16 == 0) by (nonlinear_arith);
    };
    assert(padded.last() == p as u8);
    assert(forall|i: int| padded.len() - p <= i < padded.len() ==> padded[i] == p as u8);
    assert(pkcs7_unpad(padded) == Some(padded.take(padded.len() - p)));
    assert(padded.take(padded.len() - p) =~= data);
}

/// Unpadding looks only at the final blocks: a block-aligned prefix passes
/// through unchanged.
pub proof fn lemma_unpad_append(prefix: Seq<u8>, tail: Seq<u8>)
    requires
        prefix.len() % 16 == 0,
        tail.len() % 16 == 0,
        tail.len() > 0,
    ensures
        pkcs7_unpad(prefix + tail) == match pkcs7_unpad(tail) {
            Some(m) => Some(prefix + m),
            None => None::<Seq<u8>>,
        },
{
    let whole = prefix + tail;
    assert(whole.len() % 16 == 0) by {
        let a = prefix.len() as int;
        let b = tail.len() as int;
        assert(a % 16 == 0 && b % 16 == 0 ==> (a + b) % 16 == 0) by (nonlinear_arith);
    };
    assert(whole.last() == tail.last());
    let p = whole.last() as int;
    if 1 <= p <= 16 {
        assert(forall|i: int| whole.len() - p <= i < whole.len() ==> whole[i] == tail[i - prefix.len()]);
        if forall|i: int| tail.len() - p <= i < tail.len() ==> tail[i] == tail.last() {
            assert(forall|i: int| whole.len() - p <= i < whole.len() ==> whole[i] == whole.last());
            assert(whole.take(whole.len() - p) =~= prefix + tail.take(tail.len() - p));
        } else {
            let j = choose|i: int| tail.len() - p <= i < tail.len() && tail[i] != tail.last();
            assert(whole[j + prefix.len()] == tail[j]);
            assert(!(forall|i: int| whole.len() - p <= i < whole.len() ==> whole[i] == whole.last()));
        }
    }
}

/// Append PKCS#7 padding to a message.
pub(crate) fn pad(data: &[u8]) -> (r: Vec<u8>)
    requires
        data@.len() + 16 <= usize::MAX,
    ensures
        r@ == pkcs7_pad(data@),
        r@.len() == data@.len() + pad_amount(data@.len() as int),
        r@.len() % 16 == 0,
{
    let p: usize = 16 - data.len() % 16;
    let mut out: Vec<u8> = Vec::new();
    out.extend_from_slice(data);
    let mut i: usize = 0;
    while i < p
        invariant
            i <= p,
            p == pad_amount(data@.len() as int),
            out@ == data@ + Seq::new(i as nat, |j| p as u8),
        decreases p - i,
    {
        out.push(p as u8);
        proof {
            assert(data@ + Seq::new((i + 1) as nat, |j| p as u8)
                =~= (data@ + Seq::new(i as nat, |j| p as u8)).push(p as u8));
        }
        i = i + 1;
    }
    proof {
        assert(out@ =~= pkcs7_pad(data@));
        let n = data@.len() as int;
        assert((n + (16 - n % 16)) % 16 == 0) by (nonlinear_arith);
    }
    out
}

/// Strip PKCS#7 padding; `None` exactly where the padding is malformed.
pub(crate) fn unpad(data: Vec<u8>) -> (r: Option<Vec<u8>>)
    ensures
        match r {
            Some(v) => pkcs7_unpad(data@) == Some(v@),
            None => pkcs7_unpad(data@) is None,
        },
{
    if data.len() == 0 || data.len() % 16 != 0 {
        return None;
    }
    let p = data[data.len() - 1];
    if p == 0 || p > 16 {
        return None;
    }
    let start = data.len() - p as usize;
    let mut i: usize = start;
    while i < data.len()
        invariant
            start <= i <= data@.len(),
            data@.len() > 0,
            start == data@.len() - p,
            p == data@.last(),
            1 <= p <= 16,
            forall|j: int| start <= j < i ==> data@[j] == data@.last(),
        decreases data@.len() - i,
    {
        if data[i] != p {
            return None;
        }
        i = i + 1;
    }
    let mut out = data;
    out.truncate(start);
    Some(out)
}

} // verus!
