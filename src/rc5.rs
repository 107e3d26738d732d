//! The four standard RC5 variants. Each is the generic cipher at a fixed word type,
//! round count and key length.
use vstd::prelude::*;

use crate::block::{decrypt_block, encrypt_block};
use crate::cipher::Rc5;
use crate::error::Error;
use crate::schedule::key_schedule;

verus! {

/// RC5-8/12/4: 8-bit words, 12 rounds, 4-byte keys, 2-byte blocks.
#[allow(non_camel_case_types)]
pub struct Rc5_8_12_4 {
    cipher: Rc5<u8>,
}

impl Rc5_8_12_4 {
    /// The expanded key table S.
    pub closed spec fn table(&self) -> Seq<u8> {
        self.cipher.table()
    }

    /// The cipher was built by `new`: its table holds 26 words.
    pub closed spec fn wf(&self) -> bool {
        &&& self.cipher.wf()
        &&& self.cipher.rounds() == 12
        &&& self.cipher.key_len() == 4
    }

    /// Constructs a cipher from a secret key of 4 bytes.
    pub fn new(key: &[u8]) -> (r: Result<Self, Error>)
        ensures
            match r {
                Ok(c) => {
                    &&& key@.len() == 4
                    &&& c.wf()
                    &&& c.table() == key_schedule::<u8>(key@, 12)
                    &&& c.table().len() == 26
                },
                Err(e) => key@.len() != 4 && e == Error::InvalidKeyLength,
            },
    {
        match Rc5::<u8>::new(key, 12, 4) {
            Ok(cipher) => Ok(Rc5_8_12_4 { cipher }),
            Err(e) => Err(e),
        }
    }

    /// Encrypts a plaintext block of 2 bytes into ciphertext.
    pub fn encrypt(&self, plaintext: Vec<u8>) -> (r: Result<Vec<u8>, Error>)
        requires
            self.wf(),
        ensures
            match r {
                Ok(c) => {
                    &&& plaintext@.len() == 2
                    &&& c@ == encrypt_block(self.table(), 12, plaintext@)
                    &&& c@.len() == 2
                },
                Err(e) => plaintext@.len() != 2 && e == Error::InvalidBlockLength,
            },
    {
        self.cipher.encrypt(plaintext.as_slice())
    }

    /// Decrypts a ciphertext block of 2 bytes into plaintext.
    pub fn decrypt(&self, ciphertext: &[u8]) -> (r: Result<Vec<u8>, Error>)
        requires
            self.wf(),
        ensures
            match r {
                Ok(p) => {
                    &&& ciphertext@.len() == 2
                    &&& p@ == decrypt_block(self.table(), 12, ciphertext@)
                    &&& p@.len() == 2
                },
                Err(e) => ciphertext@.len() != 2 && e == Error::InvalidBlockLength,
            },
    {
        self.cipher.decrypt(ciphertext)
    }
}

/// RC5-16/16/8: 16-bit words, 16 rounds, 8-byte keys, 4-byte blocks.
#[allow(non_camel_case_types)]
pub struct Rc5_16_16_8 {
    cipher: Rc5<u16>,
}

impl Rc5_16_16_8 {
    /// The expanded key table S.
    pub closed spec fn table(&self) -> Seq<u16> {
        self.cipher.table()
    }

    /// The cipher was built by `new`: its table holds 34 words.
    pub closed spec fn wf(&self) -> bool {
        &&& self.cipher.wf()
        &&& self.cipher.rounds() == 16
        &&& self.cipher.key_len() == 8
    }

    /// Constructs a cipher from a secret key of 8 bytes.
    pub fn new(key: &[u8]) -> (r: Result<Self, Error>)
        ensures
            match r {
                Ok(c) => {
                    &&& key@.len() == 8
                    &&& c.wf()
                    &&& c.table() == key_schedule::<u16>(key@, 16)
                    &&& c.table().len() == 34
                },
                Err(e) => key@.len() != 8 && e == Error::InvalidKeyLength,
            },
    {
        match Rc5::<u16>::new(key, 16, 8) {
            Ok(cipher) => Ok(Rc5_16_16_8 { cipher }),
            Err(e) => Err(e),
        }
    }

    /// Encrypts a plaintext block of 4 bytes into ciphertext.
    pub fn encrypt(&self, plaintext: Vec<u8>) -> (r: Result<Vec<u8>, Error>)
        requires
            self.wf(),
        ensures
            match r {
                Ok(c) => {
                    &&& plaintext@.len() == 4
                    &&& c@ == encrypt_block(self.table(), 16, plaintext@)
                    &&& c@.len() == 4
                },
                Err(e) => plaintext@.len() != 4 && e == Error::InvalidBlockLength,
            },
    {
        self.cipher.encrypt(plaintext.as_slice())
    }

    /// Decrypts a ciphertext block of 4 bytes into plaintext.
    pub fn decrypt(&self, ciphertext: &[u8]) -> (r: Result<Vec<u8>, Error>)
        requires
            self.wf(),
        ensures
            match r {
                Ok(p) => {
                    &&& ciphertext@.len() == 4
                    &&& p@ == decrypt_block(self.table(), 16, ciphertext@)
                    &&& p@.len() == 4
                },
                Err(e) => ciphertext@.len() != 4 && e == Error::InvalidBlockLength,
            },
    {
        self.cipher.decrypt(ciphertext)
    }
}

/// RC5-32/12/16: 32-bit words, 12 rounds, 16-byte keys, 8-byte blocks.
#[allow(non_camel_case_types)]
pub struct Rc5_32_12_16 {
    cipher: Rc5<u32>,
}

impl Rc5_32_12_16 {
    /// The expanded key table S.
    pub closed spec fn table(&self) -> Seq<u32> {
        self.cipher.table()
    }

    /// The cipher was built by `new`: its table holds 26 words.
    pub closed spec fn wf(&self) -> bool {
        &&& self.cipher.wf()
        &&& self.cipher.rounds() == 12
        &&& self.cipher.key_len() == 16
    }

    /// Constructs a cipher from a secret key of 16 bytes.
    pub fn new(key: &[u8]) -> (r: Result<Self, Error>)
        ensures
            match r {
                Ok(c) => {
                    &&& key@.len() == 16
                    &&& c.wf()
                    &&& c.table() == key_schedule::<u32>(key@, 12)
                    &&& c.table().len() == 26
                },
                Err(e) => key@.len() != 16 && e == Error::InvalidKeyLength,
            },
    {
        match Rc5::<u32>::new(key, 12, 16) {
            Ok(cipher) => Ok(Rc5_32_12_16 { cipher }),
            Err(e) => Err(e),
        }
    }

    /// Encrypts a plaintext block of 8 bytes into ciphertext.
    pub fn encrypt(&self, plaintext: Vec<u8>) -> (r: Result<Vec<u8>, Error>)
        requires
            self.wf(),
        ensures
            match r {
                Ok(c) => {
                    &&& plaintext@.len() == 8
                    &&& c@ == encrypt_block(self.table(), 12, plaintext@)
                    &&& c@.len() == 8
                },
                Err(e) => plaintext@.len() != 8 && e == Error::InvalidBlockLength,
            },
    {
        self.cipher.encrypt(plaintext.as_slice())
    }

    /// Decrypts a ciphertext block of 8 bytes into plaintext.
    pub fn decrypt(&self, ciphertext: &[u8]) -> (r: Result<Vec<u8>, Error>)
        requires
            self.wf(),
        ensures
            match r {
                Ok(p) => {
                    &&& ciphertext@.len() == 8
                    &&& p@ == decrypt_block(self.table(), 12, ciphertext@)
                    &&& p@.len() == 8
                },
                Err(e) => ciphertext@.len() != 8 && e == Error::InvalidBlockLength,
            },
    {
        self.cipher.decrypt(ciphertext)
    }
}

/// RC5-32/20/16: 32-bit words, 20 rounds, 16-byte keys, 8-byte blocks.
#[allow(non_camel_case_types)]
pub struct Rc5_32_20_16 {
    cipher: Rc5<u32>,
}

impl Rc5_32_20_16 {
    /// The expanded key table S.
    pub closed spec fn table(&self) -> Seq<u32> {
        self.cipher.table()
    }

    /// The cipher was built by `new`: its table holds 42 words.
    pub closed spec fn wf(&self) -> bool {
        &&& self.cipher.wf()
        &&& self.cipher.rounds() == 20
        &&& self.cipher.key_len() == 16
    }

    /// Constructs a cipher from a secret key of 16 bytes.
    pub fn new(key: &[u8]) -> (r: Result<Self, Error>)
        ensures
            match r {
                Ok(c) => {
                    &&& key@.len() == 16
                    &&& c.wf()
                    &&& c.table() == key_schedule::<u32>(key@, 20)
                    &&& c.table().len() == 42
                },
                Err(e) => key@.len() != 16 && e == Error::InvalidKeyLength,
            },
    {
        match Rc5::<u32>::new(key, 20, 16) {
            Ok(cipher) => Ok(Rc5_32_20_16 { cipher }),
            Err(e) => Err(e),
        }
    }

    /// Encrypts a plaintext block of 8 bytes into ciphertext.
    pub fn encrypt(&self, plaintext: Vec<u8>) -> (r: Result<Vec<u8>, Error>)
        requires
            self.wf(),
        ensures
            match r {
                Ok(c) => {
                    &&& plaintext@.len() == 8
                    &&& c@ == encrypt_block(self.table(), 20, plaintext@)
                    &&& c@.len() == 8
                },
                Err(e) => plaintext@.len() != 8 && e == Error::InvalidBlockLength,
            },
    {
        self.cipher.encrypt(plaintext.as_slice())
    }

    /// Decrypts a ciphertext block of 8 bytes into plaintext.
    pub fn decrypt(&self, ciphertext: &[u8]) -> (r: Result<Vec<u8>, Error>)
        requires
            self.wf(),
        ensures
            match r {
                Ok(p) => {
                    &&& ciphertext@.len() == 8
                    &&& p@ == decrypt_block(self.table(), 20, ciphertext@)
                    &&& p@.len() == 8
                },
                Err(e) => ciphertext@.len() != 8 && e == Error::InvalidBlockLength,
            },
    {
        self.cipher.decrypt(ciphertext)
    }
}

} // verus!
