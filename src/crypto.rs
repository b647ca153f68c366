use vstd::prelude::*;
use rsa::pkcs1::DecodeRsaPublicKey;
use rsa::pkcs8::{DecodePrivateKey, EncodePrivateKey, EncodePublicKey};
use sha1::Digest;
use x509_cert::der::Decode;
use crate::b64::{b64, base64_encode};
use crate::rand::Rng;

verus! {

#[verifier::external_type_specification]
#[verifier::external_body]
pub struct ExRsaPrivateKey(rsa::RsaPrivateKey);

#[verifier::external_type_specification]
#[verifier::external_body]
pub struct ExRsaPublicKey(rsa::RsaPublicKey);

/// Why a cryptographic step failed.
#[derive(Debug, Clone, Copy, PartialEq, Eq)]
pub enum CryptoError {
    /// A private key that is not PKCS#8 DER of an RSA key.
    BadPrivateKey,
    /// An X.509 certificate that does not parse, or holds no RSA public key.
    BadCertificate,
    /// RSA key generation failed.
    KeyGeneration,
    /// RSA encryption failed (the message is too long for the key).
    Encrypt,
    /// RSA decryption failed (wrong key or damaged ciphertext).
    Decrypt,
    /// RSA signing failed (the data is too long for the key).
    Sign,
    /// The PKCS#12 bundle does not open with the password, or holds no private key.
    BadPkcs12,
    /// The PKCS#12 key chain does not hold exactly one certificate.
    UnexpectedChainLength,
}

/// A copy of some bytes.
pub fn copy_bytes(s: &[u8]) -> (r: Vec<u8>)
    ensures
        r@ == s@,
{
    let mut v: Vec<u8> = Vec::new();
    v.extend_from_slice(s);
    v
}

/// The SHA-1 digest of some bytes.
pub uninterp spec fn sha1_of(data: Seq<u8>) -> Seq<u8>;

/// Relies on sha1's `Sha1::digest`: the twenty-byte SHA-1 digest of the data.
#[verifier::external_body]
fn sha1_digest(data: &[u8]) -> (r: [u8; 20])
    ensures
        r@ == sha1_of(data@),
{
    sha1::Sha1::digest(data).into()
}

/// A SHA-1 computation over data that arrives in pieces.
pub struct Sha1 {
    data: Vec<u8>,
}

impl Sha1 {
    /// The bytes fed so far.
    pub closed spec fn fed(&self) -> Seq<u8> {
        self.data@
    }

    pub fn new() -> (r: Self)
        ensures
            r.fed() == Seq::<u8>::empty(),
    {
        Sha1 { data: Vec::new() }
    }

    pub fn update(&mut self, data: &[u8])
        ensures
            final(self).fed() == old(self).fed() + data@,
    {
        self.data.extend_from_slice(data);
    }

    pub fn finalize(self) -> (r: [u8; 20])
        ensures
            r@ == sha1_of(self.fed()),
    {
        sha1_digest(self.data.as_slice())
    }
}

/// The PKCS#1 v1.5 signature of already-hashed data (no DigestInfo prefix) under the
/// private key given as PKCS#8 DER; `None` where the data is too long for the key.
pub uninterp spec fn rsa_sign_of(private_key_der: Seq<u8>, data: Seq<u8>) -> Option<Seq<u8>>;

/// The PKCS#1 v1.5 decryption of a ciphertext under the private key given as PKCS#8 DER.
pub uninterp spec fn rsa_decrypt_of(private_key_der: Seq<u8>, ciphertext: Seq<u8>) -> Option<Seq<u8>>;

/// The bytes are PKCS#8 DER of an RSA private key that rsa accepts.
pub uninterp spec fn is_rsa_pkcs8_key(der: Seq<u8>) -> bool;

/// The SubjectPublicKeyInfo DER of the public half of the RSA private key given as PKCS#8 DER.
pub uninterp spec fn rsa_public_der_of(private_key_der: Seq<u8>) -> Seq<u8>;

/// Relies on rsa's `DecodePrivateKey::from_pkcs8_der` for `RsaPrivateKey`.
#[verifier::external_body]
fn rsa_key_from_pkcs8(der: &[u8]) -> (r: Option<rsa::RsaPrivateKey>)
    ensures
        r is Some <==> is_rsa_pkcs8_key(der@),
{
    rsa::RsaPrivateKey::from_pkcs8_der(der).ok()
}

/// An RSA private key, with the PKCS#8 DER it was read from.
pub struct Pkey {
    der: Vec<u8>,
    key: rsa::RsaPrivateKey,
}

/// The modulus size in bytes of the RSA private key given as PKCS#8 DER.
pub uninterp spec fn rsa_private_modulus_bytes_of(private_key_der: Seq<u8>) -> nat;

/// Relies on rsa's `PublicKeyParts::size` of `RsaPrivateKey`: the modulus size in bytes.
#[verifier::external_body]
fn rsa_private_key_size(key: &Pkey) -> (r: usize)
    ensures
        r == rsa_private_modulus_bytes_of(key.der@),
{
    rsa::traits::PublicKeyParts::size(&key.key)
}

/// Relies on rsa's `RsaPrivateKey::sign_with_rng` with `Pkcs1v15Sign::new_unprefixed()`: the
/// stream only blinds the private-key operation, so the signature is deterministic: for a key that rsa validated on reading, it fails only when the data is
/// longer than the modulus size less eleven bytes, and the signature has the modulus size.
#[verifier::external_body]
fn rsa_sign_unprefixed(rng: &mut Rng, key: &Pkey, data: &[u8]) -> (r: Option<Vec<u8>>)
    ensures
        final(rng).seed() == old(rng).seed(),
        r matches Some(s) ==> rsa_sign_of(key.der@, data@) == Some(s@),
        r is None ==> rsa_sign_of(key.der@, data@) is None,
        r is Some <==> data@.len() + 11 <= rsa_private_modulus_bytes_of(key.der@),
        r matches Some(s) ==> s@.len() == rsa_private_modulus_bytes_of(key.der@),
{
    key.key.sign_with_rng(&mut rng.inner, rsa::Pkcs1v15Sign::new_unprefixed(), data).ok()
}

/// Relies on rsa's `RsaPrivateKey::decrypt` with `Pkcs1v15Encrypt`.
#[verifier::external_body]
fn rsa_decrypt(key: &Pkey, data: &[u8]) -> (r: Option<Vec<u8>>)
    ensures
        r matches Some(p) ==> rsa_decrypt_of(key.der@, data@) == Some(p@),
        r is None ==> rsa_decrypt_of(key.der@, data@) is None,
{
    key.key.decrypt(rsa::Pkcs1v15Encrypt, data).ok()
}

impl Pkey {
    /// The PKCS#8 DER of the key.
    pub closed spec fn der(&self) -> Seq<u8> {
        self.der@
    }

    pub fn from_der(pkey_der: &[u8]) -> (r: Result<Self, CryptoError>)
        ensures
            r is Ok <==> is_rsa_pkcs8_key(pkey_der@),
            r matches Ok(k) ==> k.der() == pkey_der@,
            r is Err ==> r == Err::<Pkey, CryptoError>(CryptoError::BadPrivateKey),
    {
        match rsa_key_from_pkcs8(pkey_der) {
            Some(key) => Ok(Pkey { der: copy_bytes(pkey_der), key }),
            None => Err(CryptoError::BadPrivateKey),
        }
    }

    /// The modulus size in bytes.
    pub open spec fn modulus_bytes(&self) -> nat {
        rsa_private_modulus_bytes_of(self.der())
    }

    /// Signs already-hashed data, PKCS#1 v1.5 without a DigestInfo prefix; the data must
    /// leave eleven bytes of the modulus for padding.
    pub fn sign(&self, rng: &mut Rng, data: &[u8]) -> (r: Result<Vec<u8>, CryptoError>)
        ensures
            r is Ok <==> data@.len() + 11 <= self.modulus_bytes(),
            r matches Ok(s) ==> s@.len() == self.modulus_bytes(),
            r matches Ok(s) ==> rsa_sign_of(self.der(), data@) == Some(s@),
            r is Err ==> r == Err::<Vec<u8>, CryptoError>(CryptoError::Sign),
    {
        let size = rsa_private_key_size(self);
        if size < 11 || data.len() > size - 11 {
            return Err(CryptoError::Sign);
        }
        match rsa_sign_unprefixed(rng, self, data) {
            Some(s) => Ok(s),
            None => Err(CryptoError::Sign),
        }
    }

    /// Decrypts PKCS#1 v1.5.
    pub fn decrypt(&self, data: &[u8]) -> (r: Result<Vec<u8>, CryptoError>)
        ensures
            r matches Ok(p) ==> rsa_decrypt_of(self.der(), data@) == Some(p@),
            r is Err ==> r == Err::<Vec<u8>, CryptoError>(CryptoError::Decrypt) && rsa_decrypt_of(
                self.der(),
                data@,
            ) is None,
    {
        match rsa_decrypt(self, data) {
            Some(p) => Ok(p),
            None => Err(CryptoError::Decrypt),
        }
    }
}

/// Signs with a user's private auth key; the signature travels base64-encoded.
pub struct Signer {
    pkey: Pkey,
}

impl Signer {
    pub closed spec fn key_der(&self) -> Seq<u8> {
        self.pkey.der()
    }

    pub fn new(pkey: Pkey) -> (r: Self)
        ensures
            r.key_der() == pkey.der(),
    {
        Signer { pkey }
    }

    /// The base64 text of the raw signature of `data`.
    pub fn sign(&self, rng: &mut Rng, data: &[u8]) -> (r: Result<String, CryptoError>)
        ensures
            r is Ok <==> data@.len() + 11 <= rsa_private_modulus_bytes_of(self.key_der()),
            r matches Ok(s) ==> exists|sig: Seq<u8>|
                s@ == base64_encode(sig) && sig.len() == rsa_private_modulus_bytes_of(self.key_der()),
            r matches Ok(s) ==> exists|sig: Seq<u8>|
                rsa_sign_of(self.key_der(), data@) == Some(sig) && s@ == base64_encode(sig),
    {
        match self.pkey.sign(rng, data) {
            Ok(sig) => Ok(b64(sig.as_slice())),
            Err(e) => Err(e),
        }
    }
}

/// A signer over the private auth key given as PKCS#8 DER.
pub fn make_signer(private_auth_key: &[u8]) -> (r: Result<Signer, CryptoError>)
    ensures
        r is Ok <==> is_rsa_pkcs8_key(private_auth_key@),
        r matches Ok(s) ==> s.key_der() == private_auth_key@,
        r is Err ==> r == Err::<Signer, CryptoError>(CryptoError::BadPrivateKey),
{
    match Pkey::from_der(private_auth_key) {
        Ok(pkey) => Ok(Signer::new(pkey)),
        Err(e) => Err(e),
    }
}

/// Relies on rsa's `RsaPrivateKey::new` at 1024 bits (which only refuses fewer than two
/// primes or fewer than 64 bits, and retries until the modulus has exactly 1024 bits), with `EncodePublicKey::to_public_key_der`
/// and `EncodePrivateKey::to_pkcs8_der` for the two DER forms: the private DER reads back as
/// the key, and the public DER is its public half.
#[verifier::external_body]
fn rsa_generate_1024(rng: &mut Rng) -> (r: Option<(Vec<u8>, Vec<u8>)>)
    ensures
        final(rng).seed() == old(rng).seed(),
        r is Some,
        r matches Some(p) ==> is_rsa_pkcs8_key(p.1@) && p.0@ == rsa_public_der_of(p.1@)
            && rsa_private_modulus_bytes_of(p.1@) == 128,
{
    let key = rsa::RsaPrivateKey::new(&mut rng.inner, 1024).ok()?;
    let public_der = key.to_public_key().to_public_key_der().ok()?.to_vec();
    let private_der = key.to_pkcs8_der().ok()?.as_bytes().to_vec();
    Some((public_der, private_der))
}

/// A fresh 1024-bit RSA key pair: the public key as SPKI DER, the private key as PKCS#8 DER.
pub fn make_keypair(rng: &mut Rng) -> (r: Result<(Vec<u8>, Vec<u8>), CryptoError>)
    ensures
        r is Ok,
        r is Err ==> r == Err::<(Vec<u8>, Vec<u8>), CryptoError>(CryptoError::KeyGeneration),
        r matches Ok(p) ==> is_rsa_pkcs8_key(p.1@) && p.0@ == rsa_public_der_of(p.1@)
            && rsa_private_modulus_bytes_of(p.1@) == 128,
{
    match rsa_generate_1024(rng) {
        Some(pair) => Ok(pair),
        None => Err(CryptoError::KeyGeneration),
    }
}

/// The subject public key bytes (PKCS#1 DER) of an X.509 certificate given as DER.
pub uninterp spec fn subject_public_key_of(cert_der: Seq<u8>) -> Option<Seq<u8>>;

/// Relies on x509-cert's `Certificate::from_der`, reading the raw bytes of the subject
/// public key.
#[verifier::external_body]
fn certificate_subject_public_key(cert_der: &[u8]) -> (r: Option<Vec<u8>>)
    ensures
        r matches Some(k) ==> subject_public_key_of(cert_der@) == Some(k@),
        r is None ==> subject_public_key_of(cert_der@) is None,
{
    let cert = x509_cert::certificate::Certificate::from_der(cert_der).ok()?;
    Some(cert.tbs_certificate.subject_public_key_info.subject_public_key.raw_bytes().to_vec())
}

/// The bytes are PKCS#1 DER of an RSA public key that rsa accepts.
pub uninterp spec fn is_rsa_pkcs1_public_key(der: Seq<u8>) -> bool;

/// The modulus size in bytes of the RSA public key given as PKCS#1 DER.
pub uninterp spec fn rsa_modulus_bytes_of(der: Seq<u8>) -> nat;

/// An RSA public key, with the PKCS#1 DER it was read from.
pub struct PublicKey {
    der: Vec<u8>,
    key: rsa::RsaPublicKey,
}

/// Relies on rsa's `DecodeRsaPublicKey::from_pkcs1_der` for `RsaPublicKey`.
#[verifier::external_body]
fn rsa_public_key_from_pkcs1(der: &[u8]) -> (r: Option<rsa::RsaPublicKey>)
    ensures
        r is Some <==> is_rsa_pkcs1_public_key(der@),
{
    rsa::RsaPublicKey::from_pkcs1_der(der).ok()
}

/// Relies on rsa's `PublicKeyParts::size` of `RsaPublicKey`: the modulus size in bytes.
#[verifier::external_body]
fn rsa_public_key_size(key: &PublicKey) -> (r: usize)
    ensures
        r == rsa_modulus_bytes_of(key.der@),
{
    rsa::traits::PublicKeyParts::size(&key.key)
}

/// Relies on rsa's `RsaPublicKey::encrypt` with `Pkcs1v15Encrypt`, whose padding is random:
/// for a key that rsa accepted on reading, it fails only when the message is longer than
/// the modulus size less eleven bytes, and the ciphertext has the modulus size.
#[verifier::external_body]
fn rsa_encrypt(rng: &mut Rng, key: &PublicKey, data: &[u8]) -> (r: Option<Vec<u8>>)
    ensures
        final(rng).seed() == old(rng).seed(),
        r is Some <==> data@.len() + 11 <= rsa_modulus_bytes_of(key.der@),
        r matches Some(c) ==> c@.len() == rsa_modulus_bytes_of(key.der@),
{
    key.key.encrypt(&mut rng.inner, rsa::Pkcs1v15Encrypt, data).ok()
}

/// Encrypts, PKCS#1 v1.5, under the RSA public key of an X.509 certificate.
pub fn encrypt_with_cert(rng: &mut Rng, cert_der: &[u8], plaintext: &[u8]) -> (r: Result<
    Vec<u8>,
    CryptoError,
>)
    ensures
        subject_public_key_of(cert_der@) is None ==> r == Err::<Vec<u8>, CryptoError>(
            CryptoError::BadCertificate,
        ),
        r is Ok ==> subject_public_key_of(cert_der@) is Some,
        subject_public_key_of(cert_der@) matches Some(k) ==> (!is_rsa_pkcs1_public_key(k) ==> r
            == Err::<Vec<u8>, CryptoError>(CryptoError::BadCertificate)),
        subject_public_key_of(cert_der@) matches Some(k) ==> (is_rsa_pkcs1_public_key(k) ==> if plaintext@.len()
            + 11 <= rsa_modulus_bytes_of(k) {
            r matches Ok(c) && c@.len() == rsa_modulus_bytes_of(k)
        } else {
            r == Err::<Vec<u8>, CryptoError>(CryptoError::Encrypt)
        }),
{
    let spki = match certificate_subject_public_key(cert_der) {
        Some(k) => k,
        None => return Err(CryptoError::BadCertificate),
    };
    let key = match rsa_public_key_from_pkcs1(spki.as_slice()) {
        Some(k) => PublicKey { der: spki, key: k },
        None => return Err(CryptoError::BadCertificate),
    };
    let size = rsa_public_key_size(&key);
    if size < 11 || plaintext.len() > size - 11 {
        return Err(CryptoError::Encrypt);
    }
    match rsa_encrypt(rng, &key, plaintext) {
        Some(c) => Ok(c),
        None => Err(CryptoError::Encrypt),
    }
}

/// The private key and the certificate chain that a PKCS#12 bundle opens to under a
/// password; `None` where it does not open or holds no private key.
pub uninterp spec fn pkcs12_key_chain_of(data: Seq<u8>, password: Seq<char>) -> Option<(Seq<u8>, Seq<Seq<u8>>)>;

pub open spec fn chain_views(c: Seq<Vec<u8>>) -> Seq<Seq<u8>> {
    Seq::new(c.len(), |i: int| c[i]@)
}

/// Relies on p12-keystore's `KeyStore::from_pkcs12` and `private_key_chain`: the DER of
/// the private key and of each certificate of its chain, leaf first.
#[verifier::external_body]
fn pkcs12_key_chain(data: &[u8], password: &str) -> (r: Option<(Vec<u8>, Vec<Vec<u8>>)>)
    ensures
        r matches Some(kc) ==> pkcs12_key_chain_of(data@, password@) == Some((kc.0@, chain_views(kc.1@))),
        r is None ==> pkcs12_key_chain_of(data@, password@) is None,
{
    let ks = p12_keystore::KeyStore::from_pkcs12(data, password, p12_keystore::Pkcs12ImportPolicy::Strict).ok()?;
    let (_, chain) = ks.private_key_chain()?;
    Some((chain.key().as_der().to_vec(), chain.certs().iter().map(|c| c.as_der().to_vec()).collect()))
}

/// The private key and the single certificate of a PKCS#12 bundle.
pub struct ParsedPkcs12 {
    pub pkey: Vec<u8>,
    pub cert: Vec<u8>,
}

/// Opens a PKCS#12 bundle whose key chain holds exactly one certificate.
pub fn parse_pkcs12(pkcs12: &[u8], password: &str) -> (r: Result<ParsedPkcs12, CryptoError>)
    ensures
        match pkcs12_key_chain_of(pkcs12@, password@) {
            None => r == Err::<ParsedPkcs12, CryptoError>(CryptoError::BadPkcs12),
            Some((key, chain)) => if chain.len() == 1 {
                r matches Ok(p) && p.pkey@ == key && p.cert@ == chain[0]
            } else {
                r == Err::<ParsedPkcs12, CryptoError>(CryptoError::UnexpectedChainLength)
            },
        },
{
    match pkcs12_key_chain(pkcs12, password) {
        None => Err(CryptoError::BadPkcs12),
        Some((key, chain)) => {
            if chain.len() != 1 {
                return Err(CryptoError::UnexpectedChainLength);
            }
            let cert = chain[0].clone();
            Ok(ParsedPkcs12 { pkey: key, cert })
        },
    }
}

} // verus!
