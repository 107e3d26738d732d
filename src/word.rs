//! The unsigned word types that RC5 runs on, and the word arithmetic it needs.
//!
//! Every operation is stated once at the spec level (`spec_*`) and once as an
//! executable method that is proved to compute it. Addition and subtraction wrap
//! modulo 2^w; rotations reduce their amount modulo w before any shift, so no
//! shift by w bits or more is ever performed.
use vstd::prelude::*;

verus! {

/// An unsigned integer word of `8 * spec_bytes()` bits.
pub trait Word: Sized + Copy {
    /// The number of bytes in a word (u = w / 8).
    spec fn spec_bytes() -> nat;

    /// The word that holds the small number `b`.
    spec fn spec_from_byte(b: u8) -> Self;

    /// The magic constant P_w.
    spec fn spec_magic_p() -> Self;

    /// The magic constant Q_w.
    spec fn spec_magic_q() -> Self;

    /// Addition modulo 2^w.
    spec fn spec_add(a: Self, b: Self) -> Self;

    /// Subtraction modulo 2^w.
    spec fn spec_sub(a: Self, b: Self) -> Self;

    /// Bitwise exclusive or.
    spec fn spec_xor(a: Self, b: Self) -> Self;

    /// ROL_w(x, y): rotation to the left by `y mod w` bits.
    spec fn spec_rotl(x: Self, y: Self) -> Self;

    /// ROR_w(x, y): rotation to the right by `y mod w` bits.
    spec fn spec_rotr(x: Self, y: Self) -> Self;

    /// The little-endian bytes of a word, least significant first.
    spec fn spec_to_le(x: Self) -> Seq<u8>;

    /// The word whose little-endian bytes are `s` (of length `spec_bytes()`).
    spec fn spec_from_le(s: Seq<u8>) -> Self;

    proof fn lemma_bytes()
        ensures
            1 <= Self::spec_bytes() <= 8,
    ;

    proof fn lemma_sub_add(a: Self, b: Self)
        ensures
            Self::spec_sub(Self::spec_add(a, b), b) == a,
    ;

    proof fn lemma_xor_xor(a: Self, b: Self)
        ensures
            Self::spec_xor(Self::spec_xor(a, b), b) == a,
    ;

    proof fn lemma_rotr_rotl(x: Self, y: Self)
        ensures
            Self::spec_rotr(Self::spec_rotl(x, y), y) == x,
    ;

    proof fn lemma_from_to_le(x: Self)
        ensures
            Self::spec_to_le(x).len() == Self::spec_bytes(),
            Self::spec_from_le(Self::spec_to_le(x)) == x,
    ;

    proof fn lemma_to_from_le(s: Seq<u8>)
        requires
            s.len() == Self::spec_bytes(),
        ensures
            Self::spec_to_le(Self::spec_from_le(s)) == s,
    ;

    fn byte_len() -> (r: usize)
        ensures
            r == Self::spec_bytes(),
            1 <= r <= 8,
    ;

    fn from_byte(b: u8) -> (r: Self)
        ensures
            r == Self::spec_from_byte(b),
    ;

    fn magic_p() -> (r: Self)
        ensures
            r == Self::spec_magic_p(),
    ;

    fn magic_q() -> (r: Self)
        ensures
            r == Self::spec_magic_q(),
    ;

    fn wrapping_add(self, b: Self) -> (r: Self)
        ensures
            r == Self::spec_add(self, b),
    ;

    fn wrapping_sub(self, b: Self) -> (r: Self)
        ensures
            r == Self::spec_sub(self, b),
    ;

    fn xor(self, b: Self) -> (r: Self)
        ensures
            r == Self::spec_xor(self, b),
    ;

    fn rotl(self, y: Self) -> (r: Self)
        ensures
            r == Self::spec_rotl(self, y),
    ;

    fn rotr(self, y: Self) -> (r: Self)
        ensures
            r == Self::spec_rotr(self, y),
    ;

    /// Appends the little-endian bytes of `self` to `out`.
    fn push_le(self, out: &mut Vec<u8>)
        ensures
            final(out)@ == old(out)@ + Self::spec_to_le(self),
    ;

    /// Reads a word from the little-endian bytes `s[start .. start + u]`.
    fn read_le(s: &[u8], start: usize) -> (r: Self)
        requires
            start + Self::spec_bytes() <= s@.len(),
        ensures
            r == Self::spec_from_le(s@.subrange(start as int, start + Self::spec_bytes())),
    ;
}

impl Word for u32 {
    open spec fn spec_bytes() -> nat {
        4
    }

    open spec fn spec_from_byte(b: u8) -> u32 {
        b as u32
    }

    open spec fn spec_magic_p() -> u32 {
        0xB7E15163
    }

    open spec fn spec_magic_q() -> u32 {
        0x9E3779B9
    }

    open spec fn spec_add(a: u32, b: u32) -> u32 {
        a.wrapping_add(b)
    }

    open spec fn spec_sub(a: u32, b: u32) -> u32 {
        a.wrapping_sub(b)
    }

    open spec fn spec_xor(a: u32, b: u32) -> u32 {
        a ^ b
    }

    open spec fn spec_rotl(x: u32, y: u32) -> u32 {
        let s = (y % 32) as u32;
        if s == 0 {
            x
        } else {
            (x << s) | (x >> ((32 - s) as u32))
        }
    }

    open spec fn spec_rotr(x: u32, y: u32) -> u32 {
        let s = (y % 32) as u32;
        if s == 0 {
            x
        } else {
            (x >> s) | (x << ((32 - s) as u32))
        }
    }

    open spec fn spec_to_le(x: u32) -> Seq<u8> {
        seq![x as u8, (x >> 8) as u8, (x >> 16) as u8, (x >> 24) as u8]
    }

    open spec fn spec_from_le(s: Seq<u8>) -> u32 {
        (s[0] as u32) | ((s[1] as u32) << 8) | ((s[2] as u32) << 16) | ((s[3] as u32) << 24)
    }

    proof fn lemma_bytes() {
    }

    proof fn lemma_sub_add(a: u32, b: u32) {
    }

    proof fn lemma_xor_xor(a: u32, b: u32) {
        assert((a ^ b) ^ b == a) by (bit_vector);
    }

    proof fn lemma_rotr_rotl(x: u32, y: u32) {
        let s = (y % 32) as u32;
        let l = (x << s) | (x >> ((32 - s) as u32));
        assert(s != 0 ==> (l >> s) | (l << ((32 - s) as u32)) == x) by (bit_vector)
            requires
                s < 32,
                l == (x << s) | (x >> ((32 - s) as u32)),
        ;
    }

    proof fn lemma_from_to_le(x: u32) {
        assert(((x as u8) as u32) | ((((x >> 8) as u8) as u32) << 8) | ((((x >> 16) as u8) as u32)
            << 16) | ((((x >> 24) as u8) as u32) << 24) == x) by (bit_vector);
    }

    proof fn lemma_to_from_le(s: Seq<u8>) {
        let (b0, b1, b2, b3) = (s[0], s[1], s[2], s[3]);
        let v = Self::spec_from_le(s);
        assert(v as u8 == b0 && (v >> 8) as u8 == b1 && (v >> 16) as u8 == b2 && (v >> 24) as u8
            == b3) by (bit_vector)
            requires
                v == (b0 as u32) | ((b1 as u32) << 8) | ((b2 as u32) << 16) | ((b3 as u32) << 24),
        ;
        assert(Self::spec_to_le(v) =~= s);
    }

    fn byte_len() -> (r: usize) {
        4
    }

    fn from_byte(b: u8) -> (r: u32) {
        b as u32
    }

    fn magic_p() -> (r: u32) {
        0xB7E15163
    }

    fn magic_q() -> (r: u32) {
        0x9E3779B9
    }

    fn wrapping_add(self, b: u32) -> (r: u32) {
        u32::wrapping_add(self, b)
    }

    fn wrapping_sub(self, b: u32) -> (r: u32) {
        u32::wrapping_sub(self, b)
    }

    fn xor(self, b: u32) -> (r: u32) {
        self ^ b
    }

    fn rotl(self, y: u32) -> (r: u32) {
        let s: u32 = y % 32;
        if s == 0 {
            self
        } else {
            (self << s) | (self >> (32 - s))
        }
    }

    fn rotr(self, y: u32) -> (r: u32) {
        let s: u32 = y % 32;
        if s == 0 {
            self
        } else {
            (self >> s) | (self << (32 - s))
        }
    }

    fn push_le(self, out: &mut Vec<u8>) {
        out.push(self as u8);
        out.push((self >> 8) as u8);
        out.push((self >> 16) as u8);
        out.push((self >> 24) as u8);
        assert(out@ =~= old(out)@ + Self::spec_to_le(self));
    }

    fn read_le(s: &[u8], start: usize) -> (r: u32) {
        let r = (s[start] as u32) | ((s[start + 1] as u32) << 8) | ((s[start + 2] as u32) << 16)
            | ((s[start + 3] as u32) << 24);
        assert(s@.subrange(start as int, start + 4)[3] == s@[start + 3]);
        r
    }
}

impl Word for u8 {
    open spec fn spec_bytes() -> nat {
        1
    }

    open spec fn spec_from_byte(b: u8) -> u8 {
        b as u8
    }

    open spec fn spec_magic_p() -> u8 {
        0xB7
    }

    open spec fn spec_magic_q() -> u8 {
        0x9F
    }

    open spec fn spec_add(a: u8, b: u8) -> u8 {
        a.wrapping_add(b)
    }

    open spec fn spec_sub(a: u8, b: u8) -> u8 {
        a.wrapping_sub(b)
    }

    open spec fn spec_xor(a: u8, b: u8) -> u8 {
        a ^ b
    }

    open spec fn spec_rotl(x: u8, y: u8) -> u8 {
        let s = (y % 8) as u8;
        if s == 0 {
            x
        } else {
            (x << s) | (x >> ((8 - s) as u8))
        }
    }

    open spec fn spec_rotr(x: u8, y: u8) -> u8 {
        let s = (y % 8) as u8;
        if s == 0 {
            x
        } else {
            (x >> s) | (x << ((8 - s) as u8))
        }
    }

    open spec fn spec_to_le(x: u8) -> Seq<u8> {
        seq![x]
    }

    open spec fn spec_from_le(s: Seq<u8>) -> u8 {
        s[0]
    }

    proof fn lemma_bytes() {
    }

    proof fn lemma_sub_add(a: u8, b: u8) {
    }

    proof fn lemma_xor_xor(a: u8, b: u8) {
        assert((a ^ b) ^ b == a) by (bit_vector);
    }

    proof fn lemma_rotr_rotl(x: u8, y: u8) {
        let s = (y % 8) as u8;
        let l = (x << s) | (x >> ((8 - s) as u8));
        assert(s != 0 ==> (l >> s) | (l << ((8 - s) as u8)) == x) by (bit_vector)
            requires
                s < 8,
                l == (x << s) | (x >> ((8 - s) as u8)),
        ;
    }

    proof fn lemma_from_to_le(x: u8) {
    }

    proof fn lemma_to_from_le(s: Seq<u8>) {
        let v = Self::spec_from_le(s);
        assert(Self::spec_to_le(v) =~= s);
    }

    fn byte_len() -> (r: usize) {
        1
    }

    fn from_byte(b: u8) -> (r: u8) {
        b as u8
    }

    fn magic_p() -> (r: u8) {
        0xB7
    }

    fn magic_q() -> (r: u8) {
        0x9F
    }

    fn wrapping_add(self, b: u8) -> (r: u8) {
        u8::wrapping_add(self, b)
    }

    fn wrapping_sub(self, b: u8) -> (r: u8) {
        u8::wrapping_sub(self, b)
    }

    fn xor(self, b: u8) -> (r: u8) {
        self ^ b
    }

    fn rotl(self, y: u8) -> (r: u8) {
        let s: u8 = y % 8;
        if s == 0 {
            self
        } else {
            (self << s) | (self >> (8 - s))
        }
    }

    fn rotr(self, y: u8) -> (r: u8) {
        let s: u8 = y % 8;
        if s == 0 {
            self
        } else {
            (self >> s) | (self << (8 - s))
        }
    }

    fn push_le(self, out: &mut Vec<u8>) {
        out.push(self);
        assert(out@ =~= old(out)@ + Self::spec_to_le(self));
    }

    fn read_le(s: &[u8], start: usize) -> (r: u8) {
        let r = s[start];
        assert(s@.subrange(start as int, start + 1)[0] == s@[start as int]);
        r
    }
}

impl Word for u16 {
    open spec fn spec_bytes() -> nat {
        2
    }

    open spec fn spec_from_byte(b: u8) -> u16 {
        b as u16
    }

    open spec fn spec_magic_p() -> u16 {
        0xB7E1
    }

    open spec fn spec_magic_q() -> u16 {
        0x9E37
    }

    open spec fn spec_add(a: u16, b: u16) -> u16 {
        a.wrapping_add(b)
    }

    open spec fn spec_sub(a: u16, b: u16) -> u16 {
        a.wrapping_sub(b)
    }

    open spec fn spec_xor(a: u16, b: u16) -> u16 {
        a ^ b
    }

    open spec fn spec_rotl(x: u16, y: u16) -> u16 {
        let s = (y % 16) as u16;
        if s == 0 {
            x
        } else {
            (x << s) | (x >> ((16 - s) as u16))
        }
    }

    open spec fn spec_rotr(x: u16, y: u16) -> u16 {
        let s = (y % 16) as u16;
        if s == 0 {
            x
        } else {
            (x >> s) | (x << ((16 - s) as u16))
        }
    }

    open spec fn spec_to_le(x: u16) -> Seq<u8> {
        seq![x as u8, (x >> 8) as u8]
    }

    open spec fn spec_from_le(s: Seq<u8>) -> u16 {
        (s[0] as u16) | ((s[1] as u16) << 8)
    }

    proof fn lemma_bytes() {
    }

    proof fn lemma_sub_add(a: u16, b: u16) {
    }

    proof fn lemma_xor_xor(a: u16, b: u16) {
        assert((a ^ b) ^ b == a) by (bit_vector);
    }

    proof fn lemma_rotr_rotl(x: u16, y: u16) {
        let s = (y % 16) as u16;
        let l = (x << s) | (x >> ((16 - s) as u16));
        assert(s != 0 ==> (l >> s) | (l << ((16 - s) as u16)) == x) by (bit_vector)
            requires
                s < 16,
                l == (x << s) | (x >> ((16 - s) as u16)),
        ;
    }

    proof fn lemma_from_to_le(x: u16) {
        assert(((x as u8) as u16) | ((((x >> 8) as u8) as u16) << 8) == x) by (bit_vector);
    }

    proof fn lemma_to_from_le(s: Seq<u8>) {
        let (b0, b1) = (s[0], s[1]);
        let v = Self::spec_from_le(s);
        assert(v as u8 == b0 && (v >> 8) as u8 == b1) by (bit_vector)
            requires
                v == (b0 as u16) | ((b1 as u16) << 8),
        ;
        assert(Self::spec_to_le(v) =~= s);
    }

    fn byte_len() -> (r: usize) {
        2
    }

    fn from_byte(b: u8) -> (r: u16) {
        b as u16
    }

    fn magic_p() -> (r: u16) {
        0xB7E1
    }

    fn magic_q() -> (r: u16) {
        0x9E37
    }

    fn wrapping_add(self, b: u16) -> (r: u16) {
        u16::wrapping_add(self, b)
    }

    fn wrapping_sub(self, b: u16) -> (r: u16) {
        u16::wrapping_sub(self, b)
    }

    fn xor(self, b: u16) -> (r: u16) {
        self ^ b
    }

    fn rotl(self, y: u16) -> (r: u16) {
        let s: u16 = y % 16;
        if s == 0 {
            self
        } else {
            (self << s) | (self >> (16 - s))
        }
    }

    fn rotr(self, y: u16) -> (r: u16) {
        let s: u16 = y % 16;
        if s == 0 {
            self
        } else {
            (self >> s) | (self << (16 - s))
        }
    }

    fn push_le(self, out: &mut Vec<u8>) {
        out.push(self as u8);
        out.push((self >> 8) as u8);
        assert(out@ =~= old(out)@ + Self::spec_to_le(self));
    }

    fn read_le(s: &[u8], start: usize) -> (r: u16) {
        let r = (s[start] as u16) | ((s[start + 1] as u16) << 8);
        assert(s@.subrange(start as int, start + 2)[1] == s@[start + 1]);
        r
    }
}

impl Word for u64 {
    open spec fn spec_bytes() -> nat {
        8
    }

    open spec fn spec_from_byte(b: u8) -> u64 {
        b as u64
    }

    open spec fn spec_magic_p() -> u64 {
        0xB7E151628AED2A6B
    }

    open spec fn spec_magic_q() -> u64 {
        0x9E3779B97F4A7C15
    }

    open spec fn spec_add(a: u64, b: u64) -> u64 {
        a.wrapping_add(b)
    }

    open spec fn spec_sub(a: u64, b: u64) -> u64 {
        a.wrapping_sub(b)
    }

    open spec fn spec_xor(a: u64, b: u64) -> u64 {
        a ^ b
    }

    open spec fn spec_rotl(x: u64, y: u64) -> u64 {
        let s = (y % 64) as u64;
        if s == 0 {
            x
        } else {
            (x << s) | (x >> ((64 - s) as u64))
        }
    }

    open spec fn spec_rotr(x: u64, y: u64) -> u64 {
        let s = (y % 64) as u64;
        if s == 0 {
            x
        } else {
            (x >> s) | (x << ((64 - s) as u64))
        }
    }

    open spec fn spec_to_le(x: u64) -> Seq<u8> {
        seq![x as u8, (x >> 8) as u8, (x >> 16) as u8, (x >> 24) as u8, (x >> 32) as u8, (x >> 40) as u8, (x >> 48) as u8, (x >> 56) as u8]
    }

    open spec fn spec_from_le(s: Seq<u8>) -> u64 {
        (s[0] as u64) | ((s[1] as u64) << 8) | ((s[2] as u64) << 16) | ((s[3] as u64) << 24) | ((s[4] as u64) << 32) | ((s[5] as u64) << 40) | ((s[6] as u64) << 48) | ((s[7] as u64) << 56)
    }

    proof fn lemma_bytes() {
    }

    proof fn lemma_sub_add(a: u64, b: u64) {
    }

    proof fn lemma_xor_xor(a: u64, b: u64) {
        assert((a ^ b) ^ b == a) by (bit_vector);
    }

    proof fn lemma_rotr_rotl(x: u64, y: u64) {
        let s = (y % 64) as u64;
        let l = (x << s) | (x >> ((64 - s) as u64));
        assert(s != 0 ==> (l >> s) | (l << ((64 - s) as u64)) == x) by (bit_vector)
            requires
                s < 64,
                l == (x << s) | (x >> ((64 - s) as u64)),
        ;
    }

    proof fn lemma_from_to_le(x: u64) {
        assert(((x as u8) as u64) | ((((x >> 8) as u8) as u64) << 8) | ((((x >> 16) as u8) as u64) << 16) | ((((x >> 24) as u8) as u64) << 24) | ((((x >> 32) as u8) as u64) << 32) | ((((x >> 40) as u8) as u64) << 40) | ((((x >> 48) as u8) as u64) << 48) | ((((x >> 56) as u8) as u64) << 56) == x) by (bit_vector);
    }

    proof fn lemma_to_from_le(s: Seq<u8>) {
        let (b0, b1, b2, b3, b4, b5, b6, b7) = (s[0], s[1], s[2], s[3], s[4], s[5], s[6], s[7]);
        let v = Self::spec_from_le(s);
        assert(v as u8 == b0 && (v >> 8) as u8 == b1 && (v >> 16) as u8 == b2 && (v >> 24) as u8 == b3 && (v >> 32) as u8 == b4 && (v >> 40) as u8 == b5 && (v >> 48) as u8 == b6 && (v >> 56) as u8 == b7) by (bit_vector)
            requires
                v == (b0 as u64) | ((b1 as u64) << 8) | ((b2 as u64) << 16) | ((b3 as u64) << 24) | ((b4 as u64) << 32) | ((b5 as u64) << 40) | ((b6 as u64) << 48) | ((b7 as u64) << 56),
        ;
        assert(Self::spec_to_le(v) =~= s);
    }

    fn byte_len() -> (r: usize) {
        8
    }

    fn from_byte(b: u8) -> (r: u64) {
        b as u64
    }

    fn magic_p() -> (r: u64) {
        0xB7E151628AED2A6B
    }

    fn magic_q() -> (r: u64) {
        0x9E3779B97F4A7C15
    }

    fn wrapping_add(self, b: u64) -> (r: u64) {
        u64::wrapping_add(self, b)
    }

    fn wrapping_sub(self, b: u64) -> (r: u64) {
        u64::wrapping_sub(self, b)
    }

    fn xor(self, b: u64) -> (r: u64) {
        self ^ b
    }

    fn rotl(self, y: u64) -> (r: u64) {
        let s: u64 = y % 64;
        if s == 0 {
            self
        } else {
            (self << s) | (self >> (64 - s))
        }
    }

    fn rotr(self, y: u64) -> (r: u64) {
        let s: u64 = y % 64;
        if s == 0 {
            self
        } else {
            (self >> s) | (self << (64 - s))
        }
    }

    fn push_le(self, out: &mut Vec<u8>) {
        out.push(self as u8);
        out.push((self >> 8) as u8);
        out.push((self >> 16) as u8);
        out.push((self >> 24) as u8);
        out.push((self >> 32) as u8);
        out.push((self >> 40) as u8);
        out.push((self >> 48) as u8);
        out.push((self >> 56) as u8);
        assert(out@ =~= old(out)@ + Self::spec_to_le(self));
    }

    fn read_le(s: &[u8], start: usize) -> (r: u64) {
        let r = (s[start] as u64) | ((s[start + 1] as u64) << 8) | ((s[start + 2] as u64) << 16) | ((s[start + 3] as u64) << 24) | ((s[start + 4] as u64) << 32) | ((s[start + 5] as u64) << 40) | ((s[start + 6] as u64) << 48) | ((s[start + 7] as u64) << 56);
        assert(s@.subrange(start as int, start + 8)[7] == s@[start + 7]);
        r
    }
}

} // verus!
