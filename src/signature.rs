use vstd::prelude::*;
use crate::b64::base64_encode;
use crate::canonical::{canonical_stream_of, hash_xml};
use crate::rand::Rng;
use crate::crypto::{rsa_private_modulus_bytes_of, rsa_sign_of, sha1_of, Sha1, Signer};

verus! {

/// Why a body could not be signed.
#[derive(Debug, Clone, Copy, PartialEq, Eq)]
pub enum SignatureError {
    /// The body is not a well-formed XML document.
    MalformedXml,
    /// The key refused to sign.
    Sign,
}

/// `sig` is what the key with this DER makes of the document `text`: base64 of the
/// PKCS#1 v1.5 signature of the SHA-1 digest of its canonical stream.
pub open spec fn signs(key_der: Seq<u8>, text: Seq<char>, sig: Seq<char>) -> bool {
    canonical_stream_of(text) matches Some(st) && exists|raw: Seq<u8>|
        rsa_sign_of(key_der, sha1_of(st)) == Some(raw) && sig == base64_encode(raw)
}

/// The document can be signed with the key: it is well-formed and the key's modulus leaves
/// room for the padding of a twenty-byte digest.
pub open spec fn signable(key_der: Seq<u8>, text: Seq<char>) -> bool {
    canonical_stream_of(text) is Some && 31 <= rsa_private_modulus_bytes_of(key_der)
}

/// Signs a serialized body: parse, canonical stream, SHA-1, RSA, base64.
pub fn compute_signature_raw(rng: &mut Rng, signer: &Signer, serialized: &str) -> (r: Result<String, SignatureError>)
    ensures
        canonical_stream_of(serialized@) is None ==> r == Err::<String, SignatureError>(
            SignatureError::MalformedXml,
        ),
        r is Ok <==> signable(signer.key_der(), serialized@),
        canonical_stream_of(serialized@) is Some && 31 <= rsa_private_modulus_bytes_of(signer.key_der()) ==> r is Ok,
        r matches Ok(sig) ==> signs(signer.key_der(), serialized@, sig@),
{
    let stream = match hash_xml(serialized) {
        Ok(s) => s,
        Err(_) => return Err(SignatureError::MalformedXml),
    };
    let mut hasher = Sha1::new();
    hasher.update(stream.as_slice());
    proof {
        assert(hasher.fed() =~= stream@);
    }
    let digest = hasher.finalize();
    match signer.sign(rng, &digest) {
        Ok(sig) => Ok(sig),
        Err(_) => Err(SignatureError::Sign),
    }
}

} // verus!
