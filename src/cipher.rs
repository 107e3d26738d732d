//! An RC5 cipher over any word type, with its round count and key length chosen at
//! construction.
use vstd::prelude::*;

use crate::block::{decrypt_block, decrypt_bytes, encrypt_block, encrypt_bytes, lemma_block_len};
use crate::error::Error;
use crate::schedule::{expand_key, key_schedule, table_len};
use crate::word::Word;

verus! {

/// An RC5 cipher with word type `W`: the expanded key table and the parameters it
/// was built with. The table is written once, by `new`, and only read afterwards.
pub struct Rc5<W: Word> {
    table: Vec<W>,
    rounds: usize,
    key_len: usize,
}

impl<W: Word> Rc5<W> {
    /// The expanded key table S.
    pub closed spec fn table(&self) -> Seq<W> {
        self.table@
    }

    /// The round count r.
    pub closed spec fn rounds(&self) -> nat {
        self.rounds as nat
    }

    /// The key length b, in bytes.
    pub closed spec fn key_len(&self) -> nat {
        self.key_len as nat
    }

    /// The table holds 2·(r+1) words, and r and b are at most 255.
    pub open spec fn wf(&self) -> bool {
        &&& self.rounds() <= 255
        &&& self.key_len() <= 255
        &&& self.table().len() == table_len(self.rounds())
    }

    /// Expands `key` into a cipher with `rounds` rounds that takes keys of `key_len`
    /// bytes; fails exactly when `key` does not hold `key_len` bytes.
    pub fn new(key: &[u8], rounds: usize, key_len: usize) -> (r: Result<Self, Error>)
        requires
            rounds <= 255,
            key_len <= 255,
        ensures
            match r {
                Ok(c) => {
                    &&& key@.len() == key_len
                    &&& c.wf()
                    &&& c.rounds() == rounds
                    &&& c.key_len() == key_len
                    &&& c.table() == key_schedule::<W>(key@, rounds as nat)
                },
                Err(e) => key@.len() != key_len && e == Error::InvalidKeyLength,
            },
    {
        if key.len() != key_len {
            return Err(Error::InvalidKeyLength);
        }
        let table = expand_key::<W>(key, rounds);
        Ok(Rc5 { table, rounds, key_len })
    }

    /// Encrypts one block of 2u bytes; fails exactly when `plaintext` has another length.
    pub fn encrypt(&self, plaintext: &[u8]) -> (r: Result<Vec<u8>, Error>)
        requires
            self.wf(),
        ensures
            match r {
                Ok(c) => {
                    &&& plaintext@.len() == 2 * W::spec_bytes()
                    &&& c@ == encrypt_block(self.table(), self.rounds(), plaintext@)
                    &&& c@.len() == 2 * W::spec_bytes()
                },
                Err(e) => plaintext@.len() != 2 * W::spec_bytes() && e == Error::InvalidBlockLength,
            },
    {
        let u = W::byte_len();
        if plaintext.len() != 2 * u {
            return Err(Error::InvalidBlockLength);
        }
        proof {
            lemma_block_len(self.table@, self.rounds as nat, plaintext@);
        }
        Ok(encrypt_bytes(&self.table, self.rounds, plaintext))
    }

    /// Decrypts one block of 2u bytes; fails exactly when `ciphertext` has another length.
    pub fn decrypt(&self, ciphertext: &[u8]) -> (r: Result<Vec<u8>, Error>)
        requires
            self.wf(),
        ensures
            match r {
                Ok(p) => {
                    &&& ciphertext@.len() == 2 * W::spec_bytes()
                    &&& p@ == decrypt_block(self.table(), self.rounds(), ciphertext@)
                    &&& p@.len() == 2 * W::spec_bytes()
                },
                Err(e) => ciphertext@.len() != 2 * W::spec_bytes() && e
                    == Error::InvalidBlockLength,
            },
    {
        let u = W::byte_len();
        if ciphertext.len() != 2 * u {
            return Err(Error::InvalidBlockLength);
        }
        proof {
            lemma_block_len(self.table@, self.rounds as nat, ciphertext@);
        }
        Ok(decrypt_bytes(&self.table, self.rounds, ciphertext))
    }
}

} // verus!
