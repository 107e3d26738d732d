//! What holds of every cipher, stated over the spec functions that the executable
//! operations are proved to compute.
use vstd::prelude::*;

use crate::block::{decrypt_block, encrypt_block, lemma_block_round_trip};
use crate::cipher::Rc5;
use crate::schedule::key_schedule;
use crate::word::Word;

verus! {

/// For every word type, round count, key and block of 2u bytes: decrypting with the
/// table expanded from the key undoes encrypting with it.
pub proof fn lemma_round_trip<W: Word>(key: Seq<u8>, rounds: nat, block: Seq<u8>)
    requires
        block.len() == 2 * W::spec_bytes(),
    ensures
        decrypt_block(
            key_schedule::<W>(key, rounds),
            rounds,
            encrypt_block(key_schedule::<W>(key, rounds), rounds, block),
        ) == block,
{
    lemma_block_round_trip(key_schedule::<W>(key, rounds), rounds, block);
}

/// Two ciphers built from the same key with the same round count encrypt and decrypt
/// every block to the same bytes: the output depends on nothing but the key, the
/// parameters and the input.
pub proof fn lemma_deterministic<W: Word>(c1: Rc5<W>, c2: Rc5<W>, key: Seq<u8>, block: Seq<u8>)
    requires
        c1.rounds() == c2.rounds(),
        c1.table() == key_schedule::<W>(key, c1.rounds()),
        c2.table() == key_schedule::<W>(key, c2.rounds()),
    ensures
        encrypt_block(c1.table(), c1.rounds(), block) == encrypt_block(
            c2.table(),
            c2.rounds(),
            block,
        ),
        decrypt_block(c1.table(), c1.rounds(), block) == decrypt_block(
            c2.table(),
            c2.rounds(),
            block,
        ),
{
}

} // verus!
