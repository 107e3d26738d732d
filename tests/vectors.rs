use rc5::error::Error;
use rc5::rc5::{Rc5_16_16_8, Rc5_32_12_16, Rc5_32_20_16, Rc5_8_12_4};

fn check_32_12_16(key: [u8; 16], plaintext: [u8; 8], ciphertext: [u8; 8]) {
    let cipher = Rc5_32_12_16::new(&key).unwrap();
    let c = cipher.encrypt(plaintext.to_vec()).unwrap();
    assert_eq!(c, ciphertext.to_vec());
    let p = cipher.decrypt(&c).unwrap();
    assert_eq!(p, plaintext.to_vec());
}

#[test]
fn rivest_vector_zero_key() {
    check_32_12_16(
        [0u8; 16],
        [0u8; 8],
        [0x21, 0xA5, 0xDB, 0xEE, 0x15, 0x4B, 0x8F, 0x6D],
    );
}

#[test]
fn rivest_vector_second() {
    check_32_12_16(
        [
            0x91, 0x5F, 0x46, 0x19, 0xBE, 0x41, 0xB2, 0x51, 0x63, 0x55, 0xA5, 0x01, 0x10, 0xA9,
            0xCE, 0x91,
        ],
        [0x21, 0xA5, 0xDB, 0xEE, 0x15, 0x4B, 0x8F, 0x6D],
        [0xF7, 0xC0, 0x13, 0xAC, 0x5B, 0x2B, 0x89, 0x52],
    );
}

#[test]
fn rivest_vector_third() {
    check_32_12_16(
        [
            0x78, 0x33, 0x48, 0xE7, 0x5A, 0xEB, 0x0F, 0x2F, 0xD7, 0xB1, 0x69, 0xBB, 0x8D, 0xC1,
            0x67, 0x87,
        ],
        [0xF7, 0xC0, 0x13, 0xAC, 0x5B, 0x2B, 0x89, 0x52],
        [0x2F, 0x42, 0xB3, 0xB7, 0x03, 0x69, 0xFC, 0x92],
    );
}

#[test]
fn rivest_vector_fourth() {
    check_32_12_16(
        [
            0xDC, 0x49, 0xDB, 0x13, 0x75, 0xA5, 0x58, 0x4F, 0x64, 0x85, 0xB4, 0x13, 0xB5, 0xF1,
            0x2B, 0xAF,
        ],
        [0x2F, 0x42, 0xB3, 0xB7, 0x03, 0x69, 0xFC, 0x92],
        [0x65, 0xC1, 0x78, 0xB2, 0x84, 0xD1, 0x97, 0xCC],
    );
}

#[test]
fn rivest_vector_fifth() {
    check_32_12_16(
        [
            0x52, 0x69, 0xF1, 0x49, 0xD4, 0x1B, 0xA0, 0x15, 0x24, 0x97, 0x57, 0x4D, 0x7F, 0x15,
            0x31, 0x25,
        ],
        [0x65, 0xC1, 0x78, 0xB2, 0x84, 0xD1, 0x97, 0xCC],
        [0xEB, 0x44, 0xE4, 0x15, 0xDA, 0x31, 0x98, 0x24],
    );
}

#[test]
fn rc5_8_12_4_vector() {
    let cipher = Rc5_8_12_4::new(&[0x00, 0x01, 0x02, 0x03]).unwrap();
    let c = cipher.encrypt(vec![0x00, 0x01]).unwrap();
    assert_eq!(c, vec![0x21, 0x2A]);
    assert_eq!(cipher.decrypt(&c).unwrap(), vec![0x00, 0x01]);
}

#[test]
fn rc5_16_16_8_vector() {
    let key: Vec<u8> = (0u8..8).collect();
    let cipher = Rc5_16_16_8::new(&key).unwrap();
    let c = cipher.encrypt(vec![0x00, 0x01, 0x02, 0x03]).unwrap();
    assert_eq!(c, vec![0x23, 0xA8, 0xD7, 0x2E]);
    assert_eq!(cipher.decrypt(&c).unwrap(), vec![0x00, 0x01, 0x02, 0x03]);
}

#[test]
fn rc5_32_20_16_vector() {
    let key: Vec<u8> = (0u8..16).collect();
    let cipher = Rc5_32_20_16::new(&key).unwrap();
    let plaintext: Vec<u8> = (0u8..8).collect();
    let c = cipher.encrypt(plaintext.clone()).unwrap();
    assert_eq!(c, vec![0x2A, 0x0E, 0xDC, 0x0E, 0x94, 0x31, 0xFF, 0x73]);
    assert_eq!(cipher.decrypt(&c).unwrap(), plaintext);
}

#[test]
fn new_rejects_keys_one_byte_off() {
    assert_eq!(Rc5_32_12_16::new(&[0u8; 15]).err(), Some(Error::InvalidKeyLength));
    assert_eq!(Rc5_32_12_16::new(&[0u8; 17]).err(), Some(Error::InvalidKeyLength));
    assert_eq!(Rc5_32_20_16::new(&[0u8; 15]).err(), Some(Error::InvalidKeyLength));
    assert_eq!(Rc5_32_20_16::new(&[0u8; 17]).err(), Some(Error::InvalidKeyLength));
    assert_eq!(Rc5_16_16_8::new(&[0u8; 7]).err(), Some(Error::InvalidKeyLength));
    assert_eq!(Rc5_16_16_8::new(&[0u8; 9]).err(), Some(Error::InvalidKeyLength));
    assert_eq!(Rc5_8_12_4::new(&[0u8; 3]).err(), Some(Error::InvalidKeyLength));
    assert_eq!(Rc5_8_12_4::new(&[0u8; 5]).err(), Some(Error::InvalidKeyLength));
}

#[test]
fn new_rejects_empty_key() {
    assert_eq!(Rc5_32_12_16::new(&[]).err(), Some(Error::InvalidKeyLength));
    assert_eq!(Rc5_8_12_4::new(&[]).err(), Some(Error::InvalidKeyLength));
}

#[test]
fn encrypt_and_decrypt_reject_blocks_one_byte_off() {
    let cipher = Rc5_32_12_16::new(&[0u8; 16]).unwrap();
    assert_eq!(cipher.encrypt(vec![0u8; 7]), Err(Error::InvalidBlockLength));
    assert_eq!(cipher.encrypt(vec![0u8; 9]), Err(Error::InvalidBlockLength));
    assert_eq!(cipher.decrypt(&[0u8; 7]), Err(Error::InvalidBlockLength));
    assert_eq!(cipher.decrypt(&[0u8; 9]), Err(Error::InvalidBlockLength));

    let small = Rc5_8_12_4::new(&[0u8; 4]).unwrap();
    assert_eq!(small.encrypt(vec![0u8; 1]), Err(Error::InvalidBlockLength));
    assert_eq!(small.encrypt(vec![0u8; 3]), Err(Error::InvalidBlockLength));
    assert_eq!(small.decrypt(&[0u8; 1]), Err(Error::InvalidBlockLength));
    assert_eq!(small.decrypt(&[0u8; 3]), Err(Error::InvalidBlockLength));

    let mid = Rc5_16_16_8::new(&[0u8; 8]).unwrap();
    assert_eq!(mid.encrypt(vec![0u8; 3]), Err(Error::InvalidBlockLength));
    assert_eq!(mid.decrypt(&[0u8; 5]), Err(Error::InvalidBlockLength));

    let long = Rc5_32_20_16::new(&[0u8; 16]).unwrap();
    assert_eq!(long.encrypt(vec![0u8; 9]), Err(Error::InvalidBlockLength));
    assert_eq!(long.decrypt(&[0u8; 7]), Err(Error::InvalidBlockLength));
}

#[test]
fn encrypt_rejects_empty_block() {
    let cipher = Rc5_32_12_16::new(&[0u8; 16]).unwrap();
    assert_eq!(cipher.encrypt(Vec::new()), Err(Error::InvalidBlockLength));
    assert_eq!(cipher.decrypt(&[]), Err(Error::InvalidBlockLength));
}

#[test]
fn error_messages() {
    assert_eq!(Error::InvalidKeyLength.message(), "Received key is an invalid length");
    assert_eq!(Error::InvalidBlockLength.message(), "Received block is an invalid length");
}
