use adobededrmtools::aes::{aes_round_trip, decrypt_aes, encrypt_aes, AesError};
use adobededrmtools::b64::{b64, unb64, Base64Error};
use adobededrmtools::rand::{init_rand, rand_bytes};

fn key() -> [u8; 16] {
    let mut k = [0u8; 16];
    for (i, b) in k.iter_mut().enumerate() {
        *b = i as u8;
    }
    k
}

#[test]
fn base64_encodes_standard_padded() {
    assert_eq!(b64(b""), "");
    assert_eq!(b64(b"f"), "Zg==");
    assert_eq!(b64(b"fo"), "Zm8=");
    assert_eq!(b64(b"foo"), "Zm9v");
    assert_eq!(b64(b"hello"), "aGVsbG8=");
    assert_eq!(b64(&[0xfb, 0xff]), "+/8=");
}

#[test]
fn base64_decodes_and_rejects() {
    assert_eq!(unb64("aGVsbG8=").unwrap(), b"hello".to_vec());
    assert_eq!(unb64("").unwrap(), Vec::<u8>::new());
    assert_eq!(unb64("aGVsbG8"), Err(Base64Error::NotBase64));
    assert_eq!(unb64("a GVsbG8="), Err(Base64Error::NotBase64));
    assert_eq!(unb64("Zh=="), Err(Base64Error::NotBase64));
}

#[test]
fn base64_round_trip_on_all_byte_values() {
    let all: Vec<u8> = (0..=255u8).collect();
    for n in [0usize, 1, 2, 3, 4, 100, 256] {
        let x = &all[..n];
        assert_eq!(unb64(&b64(x)).unwrap(), x.to_vec());
    }
}

#[test]
fn aes_round_trip_hello() {
    let mut rng = init_rand([7u8; 32]);
    let ct = encrypt_aes(&mut rng, &key(), b"hello");
    assert_eq!(ct.len(), 32);
    assert_eq!(decrypt_aes(&key(), &ct).unwrap(), b"hello".to_vec());
}

#[test]
fn aes_length_formula() {
    let mut rng = init_rand([1u8; 32]);
    for n in [0usize, 1, 15, 16, 17, 31, 32, 100] {
        let p = vec![0xabu8; n];
        let ct = encrypt_aes(&mut rng, &key(), &p);
        assert_eq!(ct.len(), n + (16 - n % 16) + 16);
        assert_eq!(aes_round_trip(&mut rng, &key(), &p).unwrap(), p);
    }
}

#[test]
fn aes_errors() {
    assert_eq!(decrypt_aes(&key(), &[0u8; 15]), Err(AesError::TooShort));
    assert_eq!(decrypt_aes(&key(), &[0u8; 16]), Err(AesError::BadCiphertext));
    let mut rng = init_rand([2u8; 32]);
    let ct = encrypt_aes(&mut rng, &key(), b"some secret text");
    let mut other = key();
    other[0] ^= 1;
    assert!(decrypt_aes(&other, &ct).is_err());
}

#[test]
fn rand_is_deterministic_for_a_seed() {
    let mut a = init_rand([3u8; 32]);
    let mut b = init_rand([3u8; 32]);
    let x = rand_bytes(&mut a, 24);
    assert_eq!(x.len(), 24);
    assert_eq!(x, rand_bytes(&mut b, 24));
    assert_ne!(rand_bytes(&mut a, 24), x);
}
