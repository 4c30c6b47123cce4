use fus_client::decrypt::{decrypt, encrypt_stream, Error, StreamDecryptor};

const KEY: &[u8] = b"0123456789abcdef";

/// Feed a ciphertext to the streaming decryptor in chunks of the given
/// size and collect everything it emits.
fn decrypt_chunked(key: &[u8], ct: &[u8], chunk: usize) -> Result<Vec<u8>, Error> {
    let mut dec = StreamDecryptor::new(key)?;
    let mut out = Vec::new();
    for piece in ct.chunks(chunk) {
        out.extend_from_slice(&dec.push(piece));
    }
    out.extend_from_slice(&dec.finish()?);
    Ok(out)
}

fn round_trip(plaintext: &[u8]) {
    let ct = encrypt_stream(KEY, plaintext).unwrap();
    assert_eq!(ct.len() % 16, 0);
    // one-shot
    assert_eq!(decrypt(KEY, &ct).unwrap(), plaintext);
    // chunked, independent of how the network happens to slice the bytes
    for chunk in [1, 17, 4096, 4097, ct.len().max(1)] {
        assert_eq!(decrypt_chunked(KEY, &ct, chunk).unwrap(), plaintext, "chunk size {chunk}");
    }
}

#[test]
fn round_trip_empty() {
    round_trip(b"");
}

#[test]
fn round_trip_one_block() {
    round_trip(&[0x42u8; 16]);
}

#[test]
fn round_trip_many_blocks() {
    let pt: Vec<u8> = (0..8192u32).map(|i| (i % 251) as u8).collect();
    round_trip(&pt);
}

#[test]
fn round_trip_many_blocks_plus_one() {
    let pt: Vec<u8> = (0..8193u32).map(|i| (i % 239) as u8).collect();
    round_trip(&pt);
}

#[test]
fn round_trip_across_flush_boundary() {
    // lengths chosen so the ciphertext straddles one flush unit
    for len in [4080usize, 4096, 4112, 5000] {
        let pt: Vec<u8> = (0..len as u32).map(|i| (i % 13) as u8).collect();
        round_trip(&pt);
    }
}

#[test]
fn rejects_unaligned_stream() {
    let ct = encrypt_stream(KEY, b"some plaintext data here").unwrap();
    let mut broken = ct.clone();
    broken.pop();
    assert_eq!(decrypt(KEY, &broken).unwrap_err(), Error::BlockLen);

    let mut dec = StreamDecryptor::new(KEY).unwrap();
    dec.push(&ct[..15]);
    assert_eq!(dec.finish().unwrap_err(), Error::BlockLen);
}

#[test]
fn rejects_bad_padding() {
    // an interior block alone: its plaintext is sixteen 'A's, whose final
    // byte is no valid padding length
    let ct = encrypt_stream(KEY, &[b'A'; 16]).unwrap();
    assert_eq!(ct.len(), 32);
    assert_eq!(decrypt(KEY, &ct[..16]).unwrap_err(), Error::Unpad);
}

#[test]
fn rejects_empty_stream() {
    let dec = StreamDecryptor::new(KEY).unwrap();
    assert_eq!(dec.finish().unwrap_err(), Error::Unpad);
}

#[test]
fn rejects_bad_key_length() {
    assert!(matches!(StreamDecryptor::new(b"short"), Err(Error::InvalidKey)));
    assert_eq!(decrypt(b"0123456789abcdef0", b"").unwrap_err(), Error::InvalidKey);
    assert_eq!(encrypt_stream(b"", b"data").unwrap_err(), Error::InvalidKey);
}

#[test]
fn interior_flushes_are_prefixes() {
    // what push emits early must be a prefix of the final plaintext
    let pt: Vec<u8> = (0..10000u32).map(|i| (i % 97) as u8).collect();
    let ct = encrypt_stream(KEY, &pt).unwrap();
    let mut dec = StreamDecryptor::new(KEY).unwrap();
    let mut emitted = Vec::new();
    for piece in ct.chunks(1000) {
        emitted.extend_from_slice(&dec.push(piece));
        assert!(pt.starts_with(&emitted));
    }
    emitted.extend_from_slice(&dec.finish().unwrap());
    assert_eq!(emitted, pt);
}

#[test]
fn known_ciphertext_vector() {
    // pins the cipher itself: this is the AES-128 encryption of the
    // padded plaintext under KEY, computed with an independent tool
    let pt = b"The quick brown fox jumps over!";
    let expected: [u8; 32] = [
        0x08, 0xea, 0xec, 0x72, 0xa2, 0x77, 0x5e, 0x8a, 0x41, 0x2e, 0x92, 0x73, 0x1f, 0x4a,
        0x4a, 0x2e, 0x91, 0xc8, 0x91, 0xcd, 0xe5, 0xf5, 0xe4, 0x82, 0x57, 0x78, 0x85, 0x10,
        0x99, 0xd1, 0x9c, 0xd2,
    ];
    let ct = encrypt_stream(KEY, pt).unwrap();
    assert_eq!(ct, expected);
    assert_eq!(decrypt(KEY, &expected).unwrap(), pt);
}
