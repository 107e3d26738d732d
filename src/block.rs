//! The block transform: r rounds of data-dependent rotations over a two-word block,
//! and the little-endian layout of a block as 2u bytes.
use vstd::prelude::*;

use crate::word::Word;

verus! {

/// The block (A, B) after rounds 1..=n of encryption, started on the whitened (a, b):
/// A ← ROL(A ⊕ B, B) + S[2i];  B ← ROL(B ⊕ A, A) + S[2i+1].
pub open spec fn encrypt_rounds<W: Word>(s: Seq<W>, a: W, b: W, n: nat) -> (W, W)
    decreases n,
{
    if n == 0 {
        (a, b)
    } else {
        let (a1, b1) = encrypt_rounds(s, a, b, (n - 1) as nat);
        let a2 = W::spec_add(W::spec_rotl(W::spec_xor(a1, b1), b1), s[(2 * n) as int]);
        let b2 = W::spec_add(W::spec_rotl(W::spec_xor(b1, a2), a2), s[(2 * n + 1) as int]);
        (a2, b2)
    }
}

/// The block (A, B) after undoing rounds n, n−1, ..., 1 of encryption, in that order:
/// B ← ROR(B − S[2i+1], A) ⊕ A;  A ← ROR(A − S[2i], B) ⊕ B.
pub open spec fn decrypt_rounds<W: Word>(s: Seq<W>, a: W, b: W, n: nat) -> (W, W)
    decreases n,
{
    if n == 0 {
        (a, b)
    } else {
        let b1 = W::spec_xor(W::spec_rotr(W::spec_sub(b, s[(2 * n + 1) as int]), a), a);
        let a1 = W::spec_xor(W::spec_rotr(W::spec_sub(a, s[(2 * n) as int]), b1), b1);
        decrypt_rounds(s, a1, b1, (n - 1) as nat)
    }
}

/// RC5 encryption of the words (a, b) with table `s` and `rounds` rounds.
pub open spec fn encrypt_words<W: Word>(s: Seq<W>, rounds: nat, a: W, b: W) -> (W, W) {
    encrypt_rounds(s, W::spec_add(a, s[0]), W::spec_add(b, s[1]), rounds)
}

/// RC5 decryption of the words (a, b) with table `s` and `rounds` rounds.
pub open spec fn decrypt_words<W: Word>(s: Seq<W>, rounds: nat, a: W, b: W) -> (W, W) {
    let (a1, b1) = decrypt_rounds(s, a, b, rounds);
    (W::spec_sub(a1, s[0]), W::spec_sub(b1, s[1]))
}

/// The words (A, B) of a block of 2u bytes: A from the first u bytes, B from the
/// next u, each little-endian.
pub open spec fn decode_block<W: Word>(block: Seq<u8>) -> (W, W) {
    let u = W::spec_bytes() as int;
    (W::spec_from_le(block.subrange(0, u)), W::spec_from_le(block.subrange(u, 2 * u)))
}

/// The 2u bytes of the block (a, b): the little-endian bytes of a, then those of b.
pub open spec fn encode_block<W: Word>(a: W, b: W) -> Seq<u8> {
    W::spec_to_le(a) + W::spec_to_le(b)
}

/// The ciphertext bytes of the plaintext block `block`.
pub open spec fn encrypt_block<W: Word>(s: Seq<W>, rounds: nat, block: Seq<u8>) -> Seq<u8> {
    let (a, b) = decode_block::<W>(block);
    let (c, d) = encrypt_words(s, rounds, a, b);
    encode_block(c, d)
}

/// The plaintext bytes of the ciphertext block `block`.
pub open spec fn decrypt_block<W: Word>(s: Seq<W>, rounds: nat, block: Seq<u8>) -> Seq<u8> {
    let (a, b) = decode_block::<W>(block);
    let (c, d) = decrypt_words(s, rounds, a, b);
    encode_block(c, d)
}

/// Undoing rounds n..1 after doing rounds 1..n gives back the block.
pub proof fn lemma_rounds_inverse<W: Word>(s: Seq<W>, a: W, b: W, n: nat)
    ensures
        decrypt_rounds(s, encrypt_rounds(s, a, b, n).0, encrypt_rounds(s, a, b, n).1, n) == (a,
        b),
    decreases n,
{
    if n > 0 {
        let (a1, b1) = encrypt_rounds(s, a, b, (n - 1) as nat);
        let a2 = W::spec_add(W::spec_rotl(W::spec_xor(a1, b1), b1), s[(2 * n) as int]);
        let b2 = W::spec_add(W::spec_rotl(W::spec_xor(b1, a2), a2), s[(2 * n + 1) as int]);
        W::lemma_sub_add(W::spec_rotl(W::spec_xor(b1, a2), a2), s[(2 * n + 1) as int]);
        W::lemma_rotr_rotl(W::spec_xor(b1, a2), a2);
        W::lemma_xor_xor(b1, a2);
        W::lemma_sub_add(W::spec_rotl(W::spec_xor(a1, b1), b1), s[(2 * n) as int]);
        W::lemma_rotr_rotl(W::spec_xor(a1, b1), b1);
        W::lemma_xor_xor(a1, b1);
        lemma_rounds_inverse(s, a, b, (n - 1) as nat);
    }
}

/// Word-level round trip: decryption undoes encryption under the same table.
pub proof fn lemma_words_round_trip<W: Word>(s: Seq<W>, rounds: nat, a: W, b: W)
    ensures
        decrypt_words(s, rounds, encrypt_words(s, rounds, a, b).0, encrypt_words(s, rounds, a, b).1)
            == (a, b),
{
    lemma_rounds_inverse(s, W::spec_add(a, s[0]), W::spec_add(b, s[1]), rounds);
    W::lemma_sub_add(a, s[0]);
    W::lemma_sub_add(b, s[1]);
}

/// Encoding two words and decoding the bytes gives the words back.
pub proof fn lemma_decode_encode<W: Word>(a: W, b: W)
    ensures
        encode_block(a, b).len() == 2 * W::spec_bytes(),
        decode_block::<W>(encode_block(a, b)) == (a, b),
{
    W::lemma_from_to_le(a);
    W::lemma_from_to_le(b);
    let u = W::spec_bytes() as int;
    assert(encode_block(a, b).subrange(0, u) =~= W::spec_to_le(a));
    assert(encode_block(a, b).subrange(u, 2 * u) =~= W::spec_to_le(b));
}

/// Decoding a block of 2u bytes and encoding the words gives the bytes back.
pub proof fn lemma_encode_decode<W: Word>(block: Seq<u8>)
    requires
        block.len() == 2 * W::spec_bytes(),
    ensures
        encode_block(decode_block::<W>(block).0, decode_block::<W>(block).1) == block,
{
    let u = W::spec_bytes() as int;
    W::lemma_to_from_le(block.subrange(0, u));
    W::lemma_to_from_le(block.subrange(u, 2 * u));
    assert(block.subrange(0, u) + block.subrange(u, 2 * u) =~= block);
}

/// Both transforms map a block of 2u bytes to a block of 2u bytes.
pub proof fn lemma_block_len<W: Word>(s: Seq<W>, rounds: nat, block: Seq<u8>)
    ensures
        encrypt_block(s, rounds, block).len() == 2 * W::spec_bytes(),
        decrypt_block(s, rounds, block).len() == 2 * W::spec_bytes(),
{
    let (a, b) = decode_block::<W>(block);
    let (c, d) = encrypt_words(s, rounds, a, b);
    let (e, f) = decrypt_words(s, rounds, a, b);
    lemma_decode_encode(c, d);
    lemma_decode_encode(e, f);
}

/// Byte-level round trip: for any table and any block of 2u bytes, decrypting the
/// ciphertext gives back the plaintext.
pub proof fn lemma_block_round_trip<W: Word>(s: Seq<W>, rounds: nat, block: Seq<u8>)
    requires
        block.len() == 2 * W::spec_bytes(),
    ensures
        decrypt_block(s, rounds, encrypt_block(s, rounds, block)) == block,
{
    let (a, b) = decode_block::<W>(block);
    let (c, d) = encrypt_words(s, rounds, a, b);
    lemma_decode_encode(c, d);
    lemma_words_round_trip(s, rounds, a, b);
    lemma_encode_decode::<W>(block);
}

/// Encrypts the block of 2u bytes `block` with table `s`.
pub fn encrypt_bytes<W: Word>(s: &Vec<W>, rounds: usize, block: &[u8]) -> (out: Vec<u8>)
    requires
        rounds <= 255,
        s@.len() == 2 * (rounds + 1),
        block@.len() == 2 * W::spec_bytes(),
    ensures
        out@ == encrypt_block(s@, rounds as nat, block@),
{
    let u = W::byte_len();
    let a0 = W::read_le(block, 0);
    let b0 = W::read_le(block, u);
    let ghost aw = W::spec_add(a0, s@[0]);
    let ghost bw = W::spec_add(b0, s@[1]);
    let mut a = a0.wrapping_add(s[0]);
    let mut b = b0.wrapping_add(s[1]);
    let mut i: usize = 1;
    while i <= rounds
        invariant
            rounds <= 255,
            s@.len() == 2 * (rounds + 1),
            1 <= i <= rounds + 1,
            (a, b) == encrypt_rounds(s@, aw, bw, (i - 1) as nat),
        decreases rounds + 1 - i,
    {
        a = a.xor(b).rotl(b).wrapping_add(s[2 * i]);
        b = b.xor(a).rotl(a).wrapping_add(s[2 * i + 1]);
        i = i + 1;
    }
    let mut out: Vec<u8> = Vec::new();
    a.push_le(&mut out);
    b.push_le(&mut out);
    assert(out@ =~= encode_block(a, b));
    out
}

/// Decrypts the block of 2u bytes `block` with table `s`.
pub fn decrypt_bytes<W: Word>(s: &Vec<W>, rounds: usize, block: &[u8]) -> (out: Vec<u8>)
    requires
        rounds <= 255,
        s@.len() == 2 * (rounds + 1),
        block@.len() == 2 * W::spec_bytes(),
    ensures
        out@ == decrypt_block(s@, rounds as nat, block@),
{
    let u = W::byte_len();
    let a0 = W::read_le(block, 0);
    let b0 = W::read_le(block, u);
    let mut a = a0;
    let mut b = b0;
    let mut i: usize = rounds;
    while i > 0
        invariant
            rounds <= 255,
            s@.len() == 2 * (rounds + 1),
            i <= rounds,
            decrypt_rounds(s@, a, b, i as nat) == decrypt_rounds(s@, a0, b0, rounds as nat),
        decreases i,
    {
        b = b.wrapping_sub(s[2 * i + 1]).rotr(a).xor(a);
        a = a.wrapping_sub(s[2 * i]).rotr(b).xor(b);
        i = i - 1;
    }
    let a = a.wrapping_sub(s[0]);
    let b = b.wrapping_sub(s[1]);
    let mut out: Vec<u8> = Vec::new();
    a.push_le(&mut out);
    b.push_le(&mut out);
    assert(out@ =~= encode_block(a, b));
    out
}

} // verus!
