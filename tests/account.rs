use adobededrmtools::account::{
    is_sign_in_method_available, make_expiration_at, random_nonce, serialize_signin_credentials,
    sign_in_method_to_credentials, AccountError, AdobeAuthServiceInfo, DeviceInfo, EphemeralKey, SignInMethod,
};
use adobededrmtools::flow::{AccountCreation, AccountStep, FlowError};
use adobededrmtools::fulfillment::{convert_resource, Acsm, CreateAccountParams, DownloadInfo, FulfillError};
use adobededrmtools::http::{HttpMethod, HttpResponse};
use adobededrmtools::rand::init_rand;
use adobededrmtools::responses::{EncryptedKey, LicenseToken, ResourceItemInfo};

fn service(methods: &[&str]) -> AdobeAuthServiceInfo {
    AdobeAuthServiceInfo {
        auth_url: "https://auth".to_string(),
        auth_certificate: vec![],
        sign_in_methods: methods.iter().map(|m| m.to_string()).collect(),
    }
}

#[test]
fn credentials_blob_layout() {
    let key = EphemeralKey::from_bytes([1u8; 16]);
    let blob = serialize_signin_credentials(&key, "anonymous", "");
    let mut want = vec![1u8; 16];
    want.push(9);
    want.extend_from_slice(b"anonymous");
    want.push(0);
    assert_eq!(blob, want);
}

#[test]
fn anonymous_sign_in_needs_the_method() {
    assert!(is_sign_in_method_available(&service(&["passHash", "anonymous"]), "anonymous"));
    assert!(!is_sign_in_method_available(&service(&["passHash"]), "anonymous"));
    let c = sign_in_method_to_credentials(&service(&["anonymous"]), &SignInMethod::Anonymous).ok().unwrap();
    assert_eq!(c.username, "anonymous");
    assert_eq!(c.password, "");
    assert!(matches!(
        sign_in_method_to_credentials(&service(&["passHash"]), &SignInMethod::Anonymous),
        Err(AccountError::MethodUnavailable(m)) if m == "anonymous"
    ));
    assert!(matches!(
        sign_in_method_to_credentials(&service(&["anonymous"]), &SignInMethod::_Dummy("x".to_string())),
        Err(AccountError::MethodUnsupported)
    ));
}

#[test]
fn device_defaults_and_nonce() {
    let mut rng = init_rand([4u8; 32]);
    let d = DeviceInfo::generate(&mut rng);
    assert_eq!(d.software_version, "10.0.4");
    assert_eq!(d.client_os, "Linux");
    assert_eq!(d.client_locale, "C");
    assert_eq!(d.client_version, "Desktop");
    assert_eq!(d.device_type, "standalone");
    assert_eq!(d.fingerprint.len(), 28);
    assert_eq!(random_nonce(&mut rng).len(), 12);
}

#[test]
fn expiration_is_ten_minutes_later() {
    assert_eq!(make_expiration_at(0).unwrap(), "1970-01-01T00:10:00Z");
    assert_eq!(make_expiration_at(1752507395).unwrap(), "2025-07-14T15:46:35Z");
    assert!(make_expiration_at(i64::MAX).is_none());
}

#[test]
fn acsm_keeps_raw_text() {
    let raw = "<fulfillmentToken xmlns=\"http://ns.adobe.com/adept\">\n  <operatorURL> https://op/fulfill </operatorURL>\n</fulfillmentToken>";
    let a = Acsm::from_str(raw).ok().unwrap();
    assert_eq!(a.fulfillment_token(), raw);
    assert_eq!(a.operator_url(), "https://op/fulfill");
    assert!(Acsm::from_str("<fulfillmentToken/>").is_err());
}

fn item(download_type: &str, key: &str) -> ResourceItemInfo {
    let s = |v: &str| v.to_string();
    ResourceItemInfo {
        resource: s("urn:r"),
        resource_item: 1,
        src: s("https://dl/book"),
        download_type: s(download_type),
        license_token: LicenseToken {
            user: s("u"),
            resource: s("urn:r"),
            resource_item_type: s("application/epub+zip"),
            device_type: s("standalone"),
            device: s("d"),
            voucher: s("v"),
            license_url: s("l"),
            operator_url: s("o"),
            fulfillment: s("f"),
            distributor: s("x"),
            encrypted_key: EncryptedKey { key_info: s("k"), key: s(key) },
            model: s("m"),
            signature: s("sig"),
        },
    }
}

#[test]
fn resources_are_converted() {
    let r = convert_resource(item("simple", "AAEC")).ok().unwrap();
    assert_eq!(r.resource, "urn:r");
    assert_eq!(r.item_type, "application/epub+zip");
    assert_eq!(r.encrypted_key.encrypted_key, vec![0u8, 1, 2]);
    assert!(matches!(r.download, DownloadInfo::Simple(u) if u == "https://dl/book"));
    assert!(matches!(convert_resource(item("stream", "AAEC")), Err(FulfillError::UnsupportedDownloadType(t)) if t == "stream"));
    assert!(matches!(convert_resource(item("simple", "!!")), Err(FulfillError::NotBase64)));
}

#[test]
fn account_creation_discovers_services_then_needs_anonymous() {
    let adept = |body: &str| HttpResponse {
        response_code: 200,
        content_type: "application/vnd.adobe.adept+xml".to_string(),
        body: body.as_bytes().to_vec(),
    };
    let mut rng = init_rand([31u8; 32]);
    let params = CreateAccountParams::with_defaults(&mut rng);
    let (state, request) = AccountCreation::start(params);
    assert!(matches!(request.method, HttpMethod::Get));
    assert_eq!(request.url, "https://adeactivate.adobe.com/adept/ActivationServiceInfo");
    let step = state
        .on_response(
            &mut rng,
            adept("<activationServiceInfo><authURL>https://auth.example/adept</authURL><userInfoURL>u</userInfoURL><certificate>Yw==</certificate></activationServiceInfo>"),
            "2025-07-14T15:36:35Z",
        )
        .ok()
        .unwrap();
    let (state, request) = match step {
        AccountStep::Send(s, r) => (s, r),
        AccountStep::Done(_) => panic!("not done yet"),
    };
    assert_eq!(request.url, "https://auth.example/adept/AuthenticationServiceInfo");
    let r = state.on_response(
        &mut rng,
        adept(r#"<authenticationServiceInfo><authURL>https://auth.example/adept</authURL><certificate>Yw==</certificate><signInMethods><signInMethod method="passHash" type="standard">Adobe ID</signInMethod></signInMethods></authenticationServiceInfo>"#),
        "2025-07-14T15:36:35Z",
    );
    assert!(matches!(r, Err(FlowError::Account(AccountError::MethodUnavailable(m))) if m == "anonymous"));
}
