use std::collections::HashMap;
use std::io::{Cursor, Read, Write};

use adobededrmtools::account::{DeviceInfo, UserCredentials};
use adobededrmtools::aes::encrypt_aes;
use adobededrmtools::b64::b64;
use adobededrmtools::crypto::make_keypair;
use adobededrmtools::dedrm::{dedrm_resource, ResourceType};
use adobededrmtools::flow::{AcsmFulfillment, FulfillmentStep};
use adobededrmtools::fulfillment::{Acsm, AdobeAccount, AdobeMinServicesInfo, DownloadInfo};
use adobededrmtools::http::{HttpMethod, HttpResponse};
use adobededrmtools::rand::init_rand;
use rsa::pkcs8::DecodePublicKey;

const ACSM: &str = r#"<fulfillmentToken fulfillmentType="buy" auth="user" xmlns="http://ns.adobe.com/adept">
  <distributor>urn:uuid:a5fac67c-03f8-43af-94d1-fb894365054d</distributor>
  <operatorURL>https://operator.example/fulfillment</operatorURL>
  <transaction>61777-38641</transaction>
  <hmac>iFEK7MgV0vZDHfAq9TbD6db8U8M=</hmac>
</fulfillmentToken>"#;

fn adept(body: &str) -> HttpResponse {
    HttpResponse {
        response_code: 200,
        content_type: "application/vnd.adobe.adept+xml".to_string(),
        body: body.as_bytes().to_vec(),
    }
}

fn envelope(encrypted_key: &str) -> String {
    format!(
        r#"<envelope xmlns="http://ns.adobe.com/adept"><fulfillmentResult><fulfillment>f-1</fulfillment><returnable>false</returnable><initial>true</initial><notify critical="no"><notifyURL>https://operator.example/notify</notifyURL></notify><resourceItemInfo><resource>urn:uuid:r1</resource><resourceItem>1</resourceItem><metadata/><src>https://download.example/book.epub</src><downloadType>simple</downloadType><licenseToken><user>urn:uuid:u</user><resource>urn:uuid:r1</resource><resourceItemType>application/epub+zip</resourceItemType><deviceType>standalone</deviceType><device>urn:uuid:d</device><voucher>v</voucher><licenseURL>https://license.example</licenseURL><operatorURL>https://operator.example/fulfillment</operatorURL><fulfillment>f-1</fulfillment><distributor>urn:uuid:x</distributor><encryptedKey keyInfo="user">{}</encryptedKey><model>m</model><permissions/><signature>s</signature></licenseToken></resourceItemInfo></fulfillmentResult></envelope>"#,
        encrypted_key
    )
}

#[test]
fn replayed_fulfillment_yields_one_decryptable_epub() {
    let mut rng = init_rand([21u8; 32]);
    let (_, private_auth_key) = make_keypair(&mut rng).ok().unwrap();
    let (license_public, private_license_key) = make_keypair(&mut rng).ok().unwrap();
    let account = AdobeAccount {
        services: AdobeMinServicesInfo {
            activation_url: "https://activation.example/adept".to_string(),
            auth_url: "https://auth.example/adept".to_string(),
            auth_certificate: vec![1, 2, 3],
        },
        user_credentials: UserCredentials {
            user: "urn:uuid:u".to_string(),
            private_auth_key,
            user_certificate: vec![4, 5],
            private_license_key: private_license_key.clone(),
            license_certificate: vec![6],
        },
        device_info: DeviceInfo::generate(&mut rng),
        activated_device: "urn:uuid:d".to_string(),
    };
    let acsm = Acsm::from_str(ACSM).ok().unwrap();

    let content_key = [0x42u8; 16];
    let public = rsa::RsaPublicKey::from_public_key_der(&license_public).unwrap();
    let mut os: rand_chacha::ChaCha20Rng = rand_chacha::rand_core::SeedableRng::from_seed([22u8; 32]);
    let wrapped = public.encrypt(&mut os, rsa::Pkcs1v15Encrypt, &content_key).unwrap();

    let mut canned: HashMap<(bool, String), HttpResponse> = HashMap::new();
    canned.insert((true, "https://operator.example/fulfillment/Auth".to_string()), adept("<success/>"));
    canned.insert((true, "https://activation.example/adept/InitLicenseService".to_string()), adept("<success/>"));
    canned.insert((true, "https://operator.example/fulfillment/Fulfill".to_string()), adept(&envelope(&b64(&wrapped))));

    let (mut state, mut request) = AcsmFulfillment::start(&acsm, &account);
    let mut sent = Vec::new();
    let resources = loop {
        let key = (matches!(request.method, HttpMethod::Post), request.url.clone());
        sent.push(key.1.clone());
        if key.1.ends_with("/Fulfill") {
            let body = String::from_utf8(request.content.as_ref().unwrap().content.clone()).unwrap();
            assert!(body.contains(ACSM));
            assert!(body.contains("<adept:signature>"));
        }
        let response = canned.remove(&key).expect("no canned response");
        match state.on_response(&mut rng, &acsm, &account, response, "2025-07-14T15:36:35Z").ok().unwrap() {
            FulfillmentStep::Send(next, next_request) => {
                state = next;
                request = next_request;
            }
            FulfillmentStep::Done(resources) => break resources,
        }
    };
    assert_eq!(sent.len(), 3);
    assert_eq!(resources.len(), 1);
    let resource = &resources[0];
    assert!(matches!(&resource.download, DownloadInfo::Simple(u) if u == "https://download.example/book.epub"));

    let manifest = r#"<encryption xmlns="urn:oasis:names:tc:opendocument:xmlns:container"><EncryptedData xmlns="http://www.w3.org/2001/04/xmlenc#"><EncryptionMethod Algorithm="http://ns.adobe.com/adept/xmlenc#aes128-cbc-uncompressed"/><CipherData><CipherReference URI="OEBPS/ch1.xhtml"/></CipherData></EncryptedData></encryption>"#;
    let chapter = b"<html><body>Chapter one</body></html>".to_vec();
    let enc_chapter = encrypt_aes(&mut rng, &content_key, &chapter);
    let mut w = zip::ZipWriter::new(Cursor::new(Vec::new()));
    let stored = zip::write::SimpleFileOptions::default().compression_method(zip::CompressionMethod::Stored);
    for (name, data) in [
        ("mimetype", b"application/epub+zip".to_vec()),
        ("META-INF/encryption.xml", manifest.as_bytes().to_vec()),
        ("OEBPS/ch1.xhtml", enc_chapter),
    ] {
        w.start_file(name, stored).unwrap();
        w.write_all(&data).unwrap();
    }
    let downloaded = w.finish().unwrap().into_inner();

    let resource_type = ResourceType::from_item_type(&resource.item_type).unwrap();
    let epub = dedrm_resource(
        resource_type,
        &resource.encrypted_key.encrypted_key,
        &account.user_credentials.private_license_key,
        &downloaded,
    )
    .ok()
    .unwrap();
    let mut archive = zip::ZipArchive::new(Cursor::new(epub)).unwrap();
    let names: Vec<String> = (0..archive.len()).map(|i| archive.by_index(i).unwrap().name().unwrap().to_string()).collect();
    assert_eq!(names, vec!["mimetype".to_string(), "OEBPS/ch1.xhtml".to_string()]);
    let mut text = Vec::new();
    archive.by_index(1).unwrap().read_to_end(&mut text).unwrap();
    assert_eq!(text, chapter);
}
