//! The errors that a caller can cause.
use vstd::prelude::*;

verus! {

/// What went wrong in a call of the cipher.
#[derive(Debug, Clone, Copy, PartialEq, Eq, Structural)]
pub enum Error {
    /// The secret key does not hold exactly b bytes.
    InvalidKeyLength,
    /// The block to encrypt or decrypt does not hold exactly 2u bytes.
    InvalidBlockLength,
}

impl Error {
    /// A human-readable description of the error.
    pub fn message(&self) -> (r: &'static str)
        ensures
            *self == Error::InvalidKeyLength ==> r@ == "Received key is an invalid length"@,
            *self == Error::InvalidBlockLength ==> r@ == "Received block is an invalid length"@,
    {
        match self {
            Error::InvalidKeyLength => "Received key is an invalid length",
            Error::InvalidBlockLength => "Received block is an invalid length",
        }
    }
}

} // verus!
