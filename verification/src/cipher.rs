//! XOR autokey cipher of the legacy Kasa protocol (port 9999).
//!
//! The key starts at 171 and chains: every ciphertext byte is the key for the
//! next byte. TCP frames carry a 4-byte big-endian length prefix; UDP
//! datagrams do not.

use vstd::prelude::*;

verus! {

/// The fixed first key of the autokey chain.
pub const INITIAL_KEY: u8 = 171;

/// The key used for byte `i` of a ciphertext `c`: the initial key for the
/// first byte, the previous ciphertext byte afterwards.
pub open spec fn key_at(c: Seq<u8>, i: int) -> u8 {
    if i == 0 { INITIAL_KEY } else { c[i - 1] }
}

/// `c` is the autokey encryption of `p`: same length, and each ciphertext
/// byte is the plaintext byte XOR the key in force at that position.
pub open spec fn is_autokey_cipher_of(p: Seq<u8>, c: Seq<u8>) -> bool {
    &&& c.len() == p.len()
    &&& forall|i: int| 0 <= i < p.len() ==> #[trigger] c[i] == p[i] ^ key_at(c, i)
}

/// The decryption of `c`: each plaintext byte is the ciphertext byte XOR
/// the key in force at that position.
pub open spec fn autokey_decrypt(c: Seq<u8>) -> Seq<u8> {
    Seq::new(c.len(), |i: int| c[i] ^ key_at(c, i))
}

/// The big-endian bytes of `n`.
pub open spec fn be_bytes_u32(n: u32) -> Seq<u8> {
    seq![
        (n / 0x100_0000) as u8,
        ((n / 0x1_0000) % 0x100) as u8,
        ((n / 0x100) % 0x100) as u8,
        (n % 0x100) as u8,
    ]
}

/// The length prefix of a TCP frame for a plaintext of `len` bytes: the
/// length reduced to 32 bits.
pub open spec fn frame_length(len: nat) -> u32 {
    (len % 0x1_0000_0000) as u32
}

proof fn lemma_xor_cancel(a: u8, b: u8)
    ensures
        (a ^ b) ^ b == a,
{
    assert((a ^ b) ^ b == a) by (bit_vector);
}

/// Encode without a length prefix (UDP discovery).
pub fn encode_raw(plaintext: &[u8]) -> (out: Vec<u8>)
    ensures
        is_autokey_cipher_of(plaintext@, out@),
{
    let mut key: u8 = INITIAL_KEY;
    let mut out: Vec<u8> = Vec::with_capacity(plaintext.len());
    let mut i: usize = 0;
    while i < plaintext.len()
        invariant
            i <= plaintext@.len(),
            out@.len() == i,
            key == key_at(out@, i as int),
            forall|j: int| 0 <= j < i ==> #[trigger] out@[j] == plaintext@[j] ^ key_at(out@, j),
        decreases plaintext@.len() - i,
    {
        let c = plaintext[i] ^ key;
        out.push(c);
        key = c;
        i = i + 1;
    }
    out
}

/// Decode cipher bytes that carry no length prefix.
pub fn decode(ciphertext: &[u8]) -> (out: Vec<u8>)
    ensures
        out@ == autokey_decrypt(ciphertext@),
{
    let mut key: u8 = INITIAL_KEY;
    let mut out: Vec<u8> = Vec::with_capacity(ciphertext.len());
    let mut i: usize = 0;
    while i < ciphertext.len()
        invariant
            i <= ciphertext@.len(),
            out@.len() == i,
            key == key_at(ciphertext@, i as int),
            forall|j: int| 0 <= j < i ==> #[trigger] out@[j] == ciphertext@[j] ^ key_at(ciphertext@, j),
        decreases ciphertext@.len() - i,
    {
        out.push(ciphertext[i] ^ key);
        key = ciphertext[i];
        i = i + 1;
    }
    assert(out@ =~= autokey_decrypt(ciphertext@));
    out
}

/// Encode with a 4-byte big-endian length prefix (TCP).
pub fn encode(plaintext: &[u8]) -> (out: Vec<u8>)
    ensures
        out@.len() == plaintext@.len() + 4,
        out@.subrange(0, 4) == be_bytes_u32(frame_length(plaintext@.len())),
        is_autokey_cipher_of(plaintext@, out@.subrange(4, out@.len() as int)),
{
    let n: u64 = plaintext.len() as u64;
    let len: u32 = (n % 0x1_0000_0000) as u32;
    let mut out: Vec<u8> = Vec::with_capacity(4);
    out.push((len / 0x100_0000) as u8);
    out.push(((len / 0x1_0000) % 0x100) as u8);
    out.push(((len / 0x100) % 0x100) as u8);
    out.push((len % 0x100) as u8);
    let body = encode_raw(plaintext);
    let mut i: usize = 0;
    while i < body.len()
        invariant
            i <= body@.len(),
            out@.len() == 4 + i,
            out@.subrange(0, 4) == be_bytes_u32(len),
            forall|j: int| 0 <= j < i ==> #[trigger] out@[4 + j] == body@[j],
        decreases body@.len() - i,
    {
        out.push(body[i]);
        i = i + 1;
    }
    assert forall|j: int| 0 <= j < body@.len() implies #[trigger] out@.subrange(4, out@.len() as int)[j] == body@[j] by {
        assert(out@[4 + j] == body@[j]);
    }
    assert(out@.subrange(4, out@.len() as int) =~= body@);
    out
}

/// Decoding an encoding gives the plaintext back.
pub proof fn law_decode_undoes_encode(p: Seq<u8>, c: Seq<u8>)
    requires
        is_autokey_cipher_of(p, c),
    ensures
        autokey_decrypt(c) == p,
{
    assert forall|i: int| 0 <= i < p.len() implies #[trigger] autokey_decrypt(c)[i] == p[i] by {
        lemma_xor_cancel(p[i], key_at(c, i));
    }
    assert(autokey_decrypt(c) =~= p);
}

/// Encoding a decoding gives the ciphertext back: every byte string is the
/// encryption of its decryption.
pub proof fn law_encode_undoes_decode(c: Seq<u8>)
    ensures
        is_autokey_cipher_of(autokey_decrypt(c), c),
{
    assert forall|i: int| 0 <= i < c.len() implies #[trigger] c[i] == autokey_decrypt(c)[i] ^ key_at(c, i) by {
        lemma_xor_cancel(c[i], key_at(c, i));
    }
}

/// The autokey encryption of a plaintext is unique.
pub proof fn law_encoding_unique(p: Seq<u8>, c1: Seq<u8>, c2: Seq<u8>)
    requires
        is_autokey_cipher_of(p, c1),
        is_autokey_cipher_of(p, c2),
    ensures
        c1 == c2,
    decreases p.len(),
{
    assert forall|i: int| 0 <= i < p.len() implies c1[i] == c2[i] by {
        lemma_cipher_prefix_equal(p, c1, c2, i);
    }
    assert(c1 =~= c2);
}

proof fn lemma_cipher_prefix_equal(p: Seq<u8>, c1: Seq<u8>, c2: Seq<u8>, i: int)
    requires
        is_autokey_cipher_of(p, c1),
        is_autokey_cipher_of(p, c2),
        0 <= i < p.len(),
    ensures
        c1[i] == c2[i],
    decreases i,
{
    if i > 0 {
        lemma_cipher_prefix_equal(p, c1, c2, i - 1);
    }
    assert(c1[i] == p[i] ^ key_at(c1, i));
    assert(c2[i] == p[i] ^ key_at(c2, i));
}

} // verus!
