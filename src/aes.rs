use vstd::prelude::*;
use aes::cipher::{block_padding::Pkcs7, BlockDecryptMut, BlockEncryptMut, KeyIvInit};
use crate::rand::{chacha20_bytes_of, rand_bytes, Rng};

verus! {

pub const IV_LEN: usize = 16;

/// What AES-128-CBC with PKCS#7 padding makes of a plaintext under a key and an IV.
pub uninterp spec fn aes128_cbc_encrypt_of(key: Seq<u8>, iv: Seq<u8>, plaintext: Seq<u8>) -> Seq<u8>;

/// What AES-128-CBC decryption with PKCS#7 unpadding makes of a ciphertext; `None` where
/// the length or the padding is wrong.
pub uninterp spec fn aes128_cbc_decrypt_of(key: Seq<u8>, iv: Seq<u8>, ciphertext: Seq<u8>) -> Option<Seq<u8>>;

/// PKCS#7 always adds between one and sixteen bytes, up to the next multiple of sixteen.
pub open spec fn padded_len(n: nat) -> nat {
    (n + (16 - n % 16)) as nat
}

/// Relies on cbc's `Encryptor<Aes128>::encrypt_padded_vec_mut::<Pkcs7>`: the padded
/// ciphertext, which decryption under the same key and IV turns back into the plaintext.
#[verifier::external_body]
fn aes128_cbc_encrypt(key: &[u8; 16], iv: &[u8], plaintext: &[u8]) -> (r: Vec<u8>)
    requires
        iv@.len() == 16,
    ensures
        r@ == aes128_cbc_encrypt_of(key@, iv@, plaintext@),
        r@.len() == padded_len(plaintext@.len()),
        aes128_cbc_decrypt_of(key@, iv@, r@) == Some(plaintext@),
{
    cbc::Encryptor::<aes::Aes128>::new(key.into(), iv.into()).encrypt_padded_vec_mut::<Pkcs7>(plaintext)
}

/// Relies on cbc's `Decryptor<Aes128>::decrypt_padded_vec_mut::<Pkcs7>`.
#[verifier::external_body]
fn aes128_cbc_decrypt(key: &[u8; 16], iv: &[u8], ciphertext: &[u8]) -> (r: Option<Vec<u8>>)
    requires
        iv@.len() == 16,
    ensures
        r matches Some(p) ==> aes128_cbc_decrypt_of(key@, iv@, ciphertext@) == Some(p@),
        r is None ==> aes128_cbc_decrypt_of(key@, iv@, ciphertext@) is None,
{
    cbc::Decryptor::<aes::Aes128>::new(key.into(), iv.into())
        .decrypt_padded_vec_mut::<Pkcs7>(ciphertext)
        .ok()
}

/// Why an IV-prefixed AES ciphertext could not be decrypted.
#[derive(Debug, Clone, Copy, PartialEq, Eq)]
pub enum AesError {
    /// Shorter than the sixteen-byte IV.
    TooShort,
    /// Wrong block length or wrong padding: a wrong key, or damaged data.
    BadCiphertext,
}

/// The IV that prefixes an encrypted message.
pub open spec fn iv_of(data: Seq<u8>) -> Seq<u8> {
    data.subrange(0, IV_LEN as int)
}

/// The ciphertext that follows the IV.
pub open spec fn body_of(data: Seq<u8>) -> Seq<u8> {
    data.subrange(IV_LEN as int, data.len() as int)
}

/// Encrypts under a fresh IV drawn from the stream: the IV, then the padded ciphertext.
pub fn encrypt_aes(rng: &mut Rng, key: &[u8; 16], data: &[u8]) -> (r: Vec<u8>)
    ensures
        r@.len() == data@.len() + (16 - data@.len() % 16) + 16,
        body_of(r@) == aes128_cbc_encrypt_of(key@, iv_of(r@), data@),
        aes128_cbc_decrypt_of(key@, iv_of(r@), body_of(r@)) == Some(data@),
        iv_of(r@) == chacha20_bytes_of(old(rng).seed(), old(rng).position(), 16),
        final(rng).seed() == old(rng).seed(),
        final(rng).position() == old(rng).position() + 4,
{
    let iv = rand_bytes(rng, IV_LEN);
    let encrypted = aes128_cbc_encrypt(key, iv.as_slice(), data);
    let mut output: Vec<u8> = Vec::new();
    output.extend_from_slice(iv.as_slice());
    output.extend_from_slice(encrypted.as_slice());
    proof {
        assert(iv_of(output@) =~= iv@);
        assert(body_of(output@) =~= encrypted@);
    }
    output
}

/// Decrypts an IV-prefixed ciphertext.
pub fn decrypt_aes(key: &[u8; 16], data: &[u8]) -> (r: Result<Vec<u8>, AesError>)
    ensures
        r == Err::<Vec<u8>, AesError>(AesError::TooShort) <==> data@.len() < IV_LEN,
        data@.len() >= IV_LEN ==> match r {
            Ok(p) => aes128_cbc_decrypt_of(key@, iv_of(data@), body_of(data@)) == Some(p@),
            Err(e) => e == AesError::BadCiphertext && aes128_cbc_decrypt_of(
                key@,
                iv_of(data@),
                body_of(data@),
            ) is None,
        },
{
    if data.len() < IV_LEN {
        return Err(AesError::TooShort);
    }
    let iv = vstd::slice::slice_subrange(data, 0, IV_LEN);
    let ciphertext = vstd::slice::slice_subrange(data, IV_LEN, data.len());
    match aes128_cbc_decrypt(key, iv, ciphertext) {
        Some(p) => Ok(p),
        None => Err(AesError::BadCiphertext),
    }
}


/// Encrypts under a fresh IV and decrypts again: the plaintext comes back unchanged.
pub fn aes_round_trip(rng: &mut Rng, key: &[u8; 16], data: &[u8]) -> (r: Result<Vec<u8>, AesError>)
    ensures
        r matches Ok(p) && p@ == data@,
{
    let encrypted = encrypt_aes(rng, key, data);
    decrypt_aes(key, encrypted.as_slice())
}

} // verus!
