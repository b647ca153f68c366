use adobededrmtools::adept::{activate_request, ActivateData};
use adobededrmtools::b64::unb64;
use adobededrmtools::canonical::hash_xml;
use adobededrmtools::crypto::{make_keypair, make_signer, CryptoError, Pkey, Sha1};
use adobededrmtools::rand::init_rand;
use rsa::pkcs8::DecodePublicKey;

fn data() -> ActivateData {
    let s = |v: &str| v.to_string();
    ActivateData {
        software_version: s("10.0.4"),
        client_os: s("Linux"),
        client_locale: s("C"),
        client_version: s("Desktop"),
        device_type: s("standalone"),
        fingerprint: s("xsXngUfahHAHQpv8brLlYMFbpNk="),
        nonce: s("j+ePeCI6AAAAAAAA"),
        expiration: s("2025-07-14T15:36:35Z"),
        user: s("urn:uuid:e9fb5f93-8f17-4b45-b564-c8de69a4051b"),
    }
}

#[test]
fn activation_request_carries_a_valid_signature() {
    let mut rng = init_rand([11u8; 32]);
    let (public_der, private_der) = make_keypair(&mut rng).ok().unwrap();
    let signer = make_signer(&private_der).ok().unwrap();
    let req = activate_request(&mut rng, &signer, "https://act", data()).ok().unwrap();
    assert_eq!(req.url, "https://act/Activate");
    let body = String::from_utf8(req.content.unwrap().content).unwrap();
    assert!(body.starts_with(r#"<adept:activate xmlns:adept="http://ns.adobe.com/adept" requestType="initial"><adept:fingerprint>"#));
    let sig_text = body.split("<adept:signature>").nth(1).unwrap().split("</adept:signature>").next().unwrap();
    let sig = unb64(sig_text).unwrap();
    assert_eq!(sig.len(), 128);
    let stream = hash_xml(&body).unwrap();
    let mut h = Sha1::new();
    h.update(&stream);
    let digest = h.finalize();
    let public = rsa::RsaPublicKey::from_public_key_der(&public_der).unwrap();
    public.verify(rsa::Pkcs1v15Sign::new_unprefixed(), &digest, &sig).unwrap();
}

#[test]
fn rsa_key_errors_and_decrypt() {
    assert!(matches!(make_signer(b"not a key"), Err(CryptoError::BadPrivateKey)));
    let mut rng = init_rand([12u8; 32]);
    let (public_der, private_der) = make_keypair(&mut rng).ok().unwrap();
    let public = rsa::RsaPublicKey::from_public_key_der(&public_der).unwrap();
    let mut os = rand_chacha::rand_core::SeedableRng::from_seed([13u8; 32]);
    let os: &mut rand_chacha::ChaCha20Rng = &mut os;
    let ct = public.encrypt(os, rsa::Pkcs1v15Encrypt, &[7u8; 16]).unwrap();
    let pkey = Pkey::from_der(&private_der).ok().unwrap();
    assert_eq!(pkey.decrypt(&ct).ok().unwrap(), vec![7u8; 16]);
    assert!(matches!(pkey.decrypt(&[0u8; 5]), Err(CryptoError::Decrypt)));
}
