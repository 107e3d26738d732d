use rc5::rc5::{Rc5_16_16_8, Rc5_32_12_16, Rc5_32_20_16, Rc5_8_12_4};

/// A small xorshift generator, so that the runs are repeatable.
struct XorShift(u64);

impl XorShift {
    fn next_byte(&mut self) -> u8 {
        let mut x = self.0;
        x ^= x << 13;
        x ^= x >> 7;
        x ^= x << 17;
        self.0 = x;
        (x >> 24) as u8
    }

    fn bytes(&mut self, n: usize) -> Vec<u8> {
        (0..n).map(|_| self.next_byte()).collect()
    }
}

#[test]
fn round_trip_fuzz_32_12_16() {
    let mut rng = XorShift(0x9E37_79B9_7F4A_7C15);
    for _ in 0..10_000 {
        let key = rng.bytes(16);
        let plaintext = rng.bytes(8);
        let cipher = Rc5_32_12_16::new(&key).unwrap();
        let c = cipher.encrypt(plaintext.clone()).unwrap();
        assert_eq!(c.len(), 8);
        assert_eq!(cipher.decrypt(&c).unwrap(), plaintext);
    }
}

#[test]
fn round_trip_every_variant() {
    let mut rng = XorShift(0x0123_4567_89AB_CDEF);
    for _ in 0..500 {
        let key = rng.bytes(4);
        let p = rng.bytes(2);
        let cipher = Rc5_8_12_4::new(&key).unwrap();
        let c = cipher.encrypt(p.clone()).unwrap();
        assert_eq!(c.len(), 2);
        assert_eq!(cipher.decrypt(&c).unwrap(), p);

        let key = rng.bytes(8);
        let p = rng.bytes(4);
        let cipher = Rc5_16_16_8::new(&key).unwrap();
        let c = cipher.encrypt(p.clone()).unwrap();
        assert_eq!(c.len(), 4);
        assert_eq!(cipher.decrypt(&c).unwrap(), p);

        let key = rng.bytes(16);
        let p = rng.bytes(8);
        let cipher = Rc5_32_20_16::new(&key).unwrap();
        let c = cipher.encrypt(p.clone()).unwrap();
        assert_eq!(c.len(), 8);
        assert_eq!(cipher.decrypt(&c).unwrap(), p);
    }
}

#[test]
fn decrypt_then_encrypt_gives_back_ciphertext() {
    let cipher = Rc5_32_12_16::new(&[7u8; 16]).unwrap();
    let c = vec![0xAB, 0xCD, 0xEF, 0x01, 0x23, 0x45, 0x67, 0x89];
    let p = cipher.decrypt(&c).unwrap();
    assert_eq!(p.len(), 8);
    assert_eq!(cipher.encrypt(p).unwrap(), c);
}

#[test]
fn same_key_same_output() {
    let key: Vec<u8> = (100u8..116).collect();
    let block = vec![1u8, 2, 3, 4, 5, 6, 7, 8];
    let first = Rc5_32_12_16::new(&key).unwrap();
    let second = Rc5_32_12_16::new(&key).unwrap();
    let c1 = first.encrypt(block.clone()).unwrap();
    let c2 = second.encrypt(block.clone()).unwrap();
    let c3 = first.encrypt(block.clone()).unwrap();
    assert_eq!(c1, c2);
    assert_eq!(c1, c3);
    assert_eq!(first.decrypt(&block).unwrap(), second.decrypt(&block).unwrap());
}

#[test]
fn round_count_changes_output() {
    let key = [0u8; 16];
    let block = vec![0u8; 8];
    let twelve = Rc5_32_12_16::new(&key).unwrap().encrypt(block.clone()).unwrap();
    let twenty = Rc5_32_20_16::new(&key).unwrap().encrypt(block).unwrap();
    assert_eq!(twelve, vec![0x21, 0xA5, 0xDB, 0xEE, 0x15, 0x4B, 0x8F, 0x6D]);
    assert_ne!(twelve, twenty);
}

#[test]
fn key_change_changes_output() {
    let block = vec![0u8; 8];
    let mut key = [0u8; 16];
    let c0 = Rc5_32_12_16::new(&key).unwrap().encrypt(block.clone()).unwrap();
    key[15] = 1;
    let c1 = Rc5_32_12_16::new(&key).unwrap().encrypt(block).unwrap();
    assert_ne!(c0, c1);
}
