//! RC5 block cipher, parameterised over word size, round count and key length.
//!
//! - `word`: the unsigned word types and their wrapping arithmetic and rotations;
//! - `schedule`: key expansion into the table S;
//! - `block`: encryption and decryption of one block, and why they are inverse;
//! - `cipher`: a cipher over any word type;
//! - `laws`: round trip and determinism, proved for every word type and key;
//! - `rc5`: the four standard variants RC5-8/12/4, RC5-16/16/8, RC5-32/12/16 and
//!   RC5-32/20/16.
pub mod block;
pub mod cipher;
pub mod error;
pub mod laws;
pub mod rc5;
pub mod schedule;
pub mod word;
