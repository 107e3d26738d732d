//! Key expansion: from a secret key of b bytes to the table S of 2·(r+1) words.
use vstd::prelude::*;

use vstd::arithmetic::div_mod::{lemma_add_mod_noop, lemma_small_mod};

use crate::word::Word;

verus! {

/// t = 2·(r+1): the number of words in the expanded table S.
pub open spec fn table_len(rounds: nat) -> nat {
    2 * (rounds + 1)
}

/// c = ceil(max(b, 1) / u): the number of words that hold the packed key L.
pub open spec fn key_words(key_len: nat, u: nat) -> nat {
    if key_len == 0 {
        1
    } else {
        ((key_len + u - 1) as nat) / u
    }
}

/// The `u` key bytes that make up word `j` of L, padded with zero bytes past the key's end.
pub open spec fn key_chunk(key: Seq<u8>, j: int, u: nat) -> Seq<u8> {
    Seq::new(u, |k: int| if j * u + k < key.len() { key[j * u + k] } else { 0u8 })
}

/// L: the key packed little-endian into `c` words.
pub open spec fn packed_key<W: Word>(key: Seq<u8>) -> Seq<W> {
    Seq::new(
        key_words(key.len(), W::spec_bytes()),
        |j: int| W::spec_from_le(key_chunk(key, j, W::spec_bytes())),
    )
}

/// The first `t` words of the arithmetic progression S[0] = P_w, S[i] = S[i−1] + Q_w.
pub open spec fn initial_table<W: Word>(t: nat) -> Seq<W>
    decreases t,
{
    if t == 0 {
        Seq::empty()
    } else if t == 1 {
        seq![W::spec_magic_p()]
    } else {
        let s = initial_table::<W>((t - 1) as nat);
        s.push(W::spec_add(s[t - 2], W::spec_magic_q()))
    }
}

/// The state (S, L, A, B) after `k` steps of the mixing loop started on S = `s0`,
/// L = `l0`, A = B = 0. Step `k` updates S[k mod t] and then L[k mod c].
pub open spec fn mix<W: Word>(s0: Seq<W>, l0: Seq<W>, k: nat) -> (Seq<W>, Seq<W>, W, W)
    decreases k,
{
    if k == 0 {
        (s0, l0, W::spec_from_byte(0), W::spec_from_byte(0))
    } else {
        let (s, l, a, b) = mix(s0, l0, (k - 1) as nat);
        let i = (k - 1) % (s0.len() as int);
        let j = (k - 1) % (l0.len() as int);
        let a2 = W::spec_rotl(W::spec_add(s[i], W::spec_add(a, b)), W::spec_from_byte(3));
        let b2 = W::spec_rotl(W::spec_add(l[j], W::spec_add(a2, b)), W::spec_add(a2, b));
        (s.update(i, a2), l.update(j, b2), a2, b2)
    }
}

/// The number of mixing steps: 3·max(t, c).
pub open spec fn mix_steps(t: nat, c: nat) -> nat {
    if t >= c {
        3 * t
    } else {
        3 * c
    }
}

/// The expanded key table S of an RC5 cipher with `rounds` rounds and secret key `key`.
pub open spec fn key_schedule<W: Word>(key: Seq<u8>, rounds: nat) -> Seq<W> {
    let t = table_len(rounds);
    let c = key_words(key.len(), W::spec_bytes());
    mix(initial_table::<W>(t), packed_key::<W>(key), mix_steps(t, c)).0
}

pub proof fn lemma_initial_table_len<W: Word>(t: nat)
    ensures
        initial_table::<W>(t).len() == t,
    decreases t,
{
    if t > 1 {
        lemma_initial_table_len::<W>((t - 1) as nat);
    }
}

pub proof fn lemma_mix_len<W: Word>(s0: Seq<W>, l0: Seq<W>, k: nat)
    requires
        s0.len() > 0,
        l0.len() > 0,
    ensures
        mix(s0, l0, k).0.len() == s0.len(),
        mix(s0, l0, k).1.len() == l0.len(),
    decreases k,
{
    if k > 0 {
        lemma_mix_len(s0, l0, (k - 1) as nat);
    }
}

pub proof fn lemma_key_words_bounds(key_len: nat, u: nat)
    requires
        u >= 1,
    ensures
        1 <= key_words(key_len, u) <= if key_len == 0 { 1 } else { key_len },
{
    if key_len > 0 {
        assert(1 <= ((key_len + u - 1) as nat) / u <= key_len) by (nonlinear_arith)
            requires
                u >= 1,
                key_len >= 1,
        ;
    }
}

/// The expanded table always holds t = 2·(r+1) words.
pub proof fn lemma_schedule_len<W: Word>(key: Seq<u8>, rounds: nat)
    ensures
        key_schedule::<W>(key, rounds).len() == table_len(rounds),
{
    let t = table_len(rounds);
    let c = key_words(key.len(), W::spec_bytes());
    lemma_initial_table_len::<W>(t);
    W::lemma_bytes();
    lemma_key_words_bounds(key.len(), W::spec_bytes());
    lemma_mix_len(initial_table::<W>(t), packed_key::<W>(key), mix_steps(t, c));
}

/// Packs the key little-endian into exactly c = ceil(max(b, 1) / u) words; when b is
/// not a multiple of u the top bytes of the last word stay zero, and an empty key
/// gives the single word 0.
fn pack_key<W: Word>(key: &[u8]) -> (l: Vec<W>)
    requires
        key@.len() <= 255,
    ensures
        l@ == packed_key::<W>(key@),
        1 <= l@.len() <= 255,
{
    let u = W::byte_len();
    let c: usize = if key.len() == 0 {
        1
    } else {
        (key.len() + u - 1) / u
    };
    proof {
        W::lemma_bytes();
        lemma_key_words_bounds(key@.len(), u as nat);
    }
    let mut l: Vec<W> = Vec::new();
    let mut j: usize = 0;
    while j < c
        invariant
            u == W::spec_bytes(),
            1 <= u <= 8,
            c == key_words(key@.len(), u as nat),
            c <= 255,
            j <= c,
            l@.len() == j,
            forall|m: int| 0 <= m < j ==> l@[m] == packed_key::<W>(key@)[m],
        decreases c - j,
    {
        let mut chunk: Vec<u8> = Vec::new();
        let mut k: usize = 0;
        while k < u
            invariant
                u == W::spec_bytes(),
                1 <= u <= 8,
                j < c <= 255,
                k <= u,
                chunk@ == key_chunk(key@, j as int, u as nat).take(k as int),
            decreases u - k,
        {
            proof {
                assert(j * u + k < 255 * 8 + 8) by (nonlinear_arith)
                    requires
                        j < 255,
                        u <= 8,
                        k < 8,
                ;
            }
            let idx: usize = j * u + k;
            if idx < key.len() {
                chunk.push(key[idx]);
            } else {
                chunk.push(0);
            }
            assert(chunk@ =~= key_chunk(key@, j as int, u as nat).take(k + 1));
            k = k + 1;
        }
        assert(chunk@.subrange(0, u as int) =~= key_chunk(key@, j as int, u as nat));
        let word = W::read_le(chunk.as_slice(), 0);
        l.push(word);
        j = j + 1;
    }
    assert(l@ =~= packed_key::<W>(key@));
    l
}

/// Fills the table with the progression P_w, P_w + Q_w, P_w + 2·Q_w, ... (wrapping).
fn init_table<W: Word>(t: usize) -> (s: Vec<W>)
    requires
        t >= 1,
    ensures
        s@ == initial_table::<W>(t as nat),
{
    let mut s: Vec<W> = Vec::new();
    s.push(W::magic_p());
    let mut i: usize = 1;
    assert(s@ =~= initial_table::<W>(1));
    while i < t
        invariant
            1 <= i <= t,
            s@ == initial_table::<W>(i as nat),
        decreases t - i,
    {
        proof {
            lemma_initial_table_len::<W>(i as nat);
        }
        let last = s[i - 1];
        s.push(last.wrapping_add(W::magic_q()));
        i = i + 1;
    }
    s
}

/// Expands a secret key into the table S of 2·(rounds+1) words.
pub fn expand_key<W: Word>(key: &[u8], rounds: usize) -> (s: Vec<W>)
    requires
        rounds <= 255,
        key@.len() <= 255,
    ensures
        s@ == key_schedule::<W>(key@, rounds as nat),
        s@.len() == table_len(rounds as nat),
{
    let mut l = pack_key::<W>(key);
    let c = l.len();
    let t = 2 * (rounds + 1);
    let mut s = init_table::<W>(t);
    let ghost s0 = s@;
    let ghost l0 = l@;
    proof {
        lemma_initial_table_len::<W>(t as nat);
        lemma_schedule_len::<W>(key@, rounds as nat);
        W::lemma_bytes();
        lemma_key_words_bounds(key@.len(), W::spec_bytes());
    }
    let n: usize = if t >= c {
        3 * t
    } else {
        3 * c
    };
    let mut a = W::from_byte(0);
    let mut b = W::from_byte(0);
    let mut i: usize = 0;
    let mut j: usize = 0;
    let mut k: usize = 0;
    while k < n
        invariant
            s0.len() == t,
            l0.len() == c,
            t >= 2,
            c >= 1,
            n == mix_steps(t as nat, c as nat),
            k <= n,
            i == k % t,
            j == k % c,
            s@.len() == t,
            l@.len() == c,
            mix(s0, l0, k as nat) == (s@, l@, a, b),
        decreases n - k,
    {
        let a2 = s[i].wrapping_add(a.wrapping_add(b)).rotl(W::from_byte(3));
        s.set(i, a2);
        a = a2;
        let ab = a.wrapping_add(b);
        let b2 = l[j].wrapping_add(ab).rotl(ab);
        l.set(j, b2);
        b = b2;
        proof {
            lemma_add_mod_noop(k as int, 1, t as int);
            lemma_add_mod_noop(k as int, 1, c as int);
            lemma_small_mod(1, t as nat);
            if c > 1 {
                lemma_small_mod(1, c as nat);
            } else {
                assert(forall|x: int| #[trigger] (x % 1) == 0) by (nonlinear_arith);
            }
        }
        i = (i + 1) % t;
        j = (j + 1) % c;
        k = k + 1;
    }
    s
}

} // verus!
