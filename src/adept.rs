use vstd::prelude::*;
use vstd::string::StringExecFns;
use vstd::utf8::encode_utf8;
use crate::crypto::Signer;
use crate::rand::Rng;
use crate::http::{make_get, make_post_serialized, HttpMethod, HttpRequest, ADEPT_XMLNS, CONTENT_TYPE};
use crate::signature::{compute_signature_raw, signable, signs, SignatureError};
use crate::token::{
    embeds, lemma_token_preserved, occurs_at, replace_first, substitute_fulfillment_token, PLACEHOLDER_ELEMENT,
};
use crate::writer::{
    adept_namespace_attribute, attributes_text, child_count, children_text, end_tag, is_text_child,
    lemma_children_text_split, parent_element, serialize_xml, text_element,
    xml_text, XmlBody, XmlOut,
};

verus! {

pub const DEFAULT_ACTIVATION_URL: &'static str = "https://adeactivate.adobe.com/adept";

/// The device description that travels inside `<adept:targetDevice>`.
pub struct TargetDevice {
    pub software_version: String,
    pub client_os: String,
    pub client_locale: String,
    pub client_version: String,
    pub device_type: String,
    pub fingerprint: String,
}

pub open spec fn target_device_shape(r: XmlOut, d: TargetDevice) -> bool {
    &&& r.name@ == "adept:targetDevice"@
    &&& r.attributes@.len() == 0
    &&& child_count(r) == 6
    &&& is_text_child(r, 0, "adept:softwareVersion"@, d.software_version@)
    &&& is_text_child(r, 1, "adept:clientOS"@, d.client_os@)
    &&& is_text_child(r, 2, "adept:clientLocale"@, d.client_locale@)
    &&& is_text_child(r, 3, "adept:clientVersion"@, d.client_version@)
    &&& is_text_child(r, 4, "adept:deviceType"@, d.device_type@)
    &&& is_text_child(r, 5, "adept:fingerprint"@, d.fingerprint@)
}

impl TargetDevice {
    pub fn to_xml(&self) -> (r: XmlOut)
        ensures
            target_device_shape(r, *self),
    {
        let mut cs: Vec<XmlOut> = Vec::new();
        cs.push(text_element("adept:softwareVersion", self.software_version.as_str()));
        cs.push(text_element("adept:clientOS", self.client_os.as_str()));
        cs.push(text_element("adept:clientLocale", self.client_locale.as_str()));
        cs.push(text_element("adept:clientVersion", self.client_version.as_str()));
        cs.push(text_element("adept:deviceType", self.device_type.as_str()));
        cs.push(text_element("adept:fingerprint", self.fingerprint.as_str()));
        parent_element("adept:targetDevice", Vec::new(), cs)
    }
}

/// The signed device activation request.
pub struct Activate {
    pub request_type: String,
    pub fingerprint: String,
    pub device_type: String,
    pub client_os: String,
    pub client_locale: String,
    pub client_version: String,
    pub target_device: TargetDevice,
    pub nonce: String,
    pub expiration: String,
    pub user: String,
    pub signature: Option<String>,
}

/// The document form of an activation request.
pub open spec fn activate_shape(r: XmlOut, a: Activate) -> bool {
    &&& r.name@ == "adept:activate"@
    &&& r.attributes@.len() == 2
    &&& r.attributes@[0].0@ == "xmlns:adept"@ && r.attributes@[0].1@ == ADEPT_XMLNS@
    &&& r.attributes@[1].0@ == "requestType"@ && r.attributes@[1].1@ == a.request_type@
    &&& child_count(r) == if a.signature is Some { 10int } else { 9int }
    &&& is_text_child(r, 0, "adept:fingerprint"@, a.fingerprint@)
    &&& is_text_child(r, 1, "adept:deviceType"@, a.device_type@)
    &&& is_text_child(r, 2, "adept:clientOS"@, a.client_os@)
    &&& is_text_child(r, 3, "adept:clientLocale"@, a.client_locale@)
    &&& is_text_child(r, 4, "adept:clientVersion"@, a.client_version@)
    &&& target_device_shape(r.body->Children_0@[5], a.target_device)
    &&& is_text_child(r, 6, "adept:nonce"@, a.nonce@)
    &&& is_text_child(r, 7, "adept:expiration"@, a.expiration@)
    &&& is_text_child(r, 8, "adept:user"@, a.user@)
    &&& (a.signature matches Some(sig) ==> is_text_child(r, 9, "adept:signature"@, sig@))
}

impl Activate {
    pub fn to_xml(&self) -> (r: XmlOut)
        ensures
            activate_shape(r, *self),
    {
        let mut cs: Vec<XmlOut> = Vec::new();
        cs.push(text_element("adept:fingerprint", self.fingerprint.as_str()));
        cs.push(text_element("adept:deviceType", self.device_type.as_str()));
        cs.push(text_element("adept:clientOS", self.client_os.as_str()));
        cs.push(text_element("adept:clientLocale", self.client_locale.as_str()));
        cs.push(text_element("adept:clientVersion", self.client_version.as_str()));
        cs.push(self.target_device.to_xml());
        cs.push(text_element("adept:nonce", self.nonce.as_str()));
        cs.push(text_element("adept:expiration", self.expiration.as_str()));
        cs.push(text_element("adept:user", self.user.as_str()));
        match &self.signature {
            Some(s) => cs.push(text_element("adept:signature", s.as_str())),
            None => {},
        }
        let mut attrs: Vec<(String, String)> = Vec::new();
        attrs.push(adept_namespace_attribute());
        attrs.push((String::from_str("requestType"), self.request_type.clone()));
        parent_element("adept:activate", attrs, cs)
    }
}

/// What an activation request carries besides its signature.
pub struct ActivateData {
    pub software_version: String,
    pub client_os: String,
    pub client_locale: String,
    pub client_version: String,
    pub device_type: String,
    pub fingerprint: String,
    pub nonce: String,
    pub expiration: String,
    pub user: String,
}

/// The request carries the data: the device info at the top and again as target device.
pub open spec fn activate_carries(a: Activate, d: ActivateData) -> bool {
    &&& a.request_type@ == "initial"@
    &&& a.fingerprint@ == d.fingerprint@ && a.device_type@ == d.device_type@
    &&& a.client_os@ == d.client_os@ && a.client_locale@ == d.client_locale@
    &&& a.client_version@ == d.client_version@
    &&& a.target_device.software_version@ == d.software_version@
    &&& a.target_device.client_os@ == d.client_os@
    &&& a.target_device.client_locale@ == d.client_locale@
    &&& a.target_device.client_version@ == d.client_version@
    &&& a.target_device.device_type@ == d.device_type@
    &&& a.target_device.fingerprint@ == d.fingerprint@
    &&& a.nonce@ == d.nonce@ && a.expiration@ == d.expiration@ && a.user@ == d.user@
}

/// The signature is present and is the key's signature of the document `text`.
pub open spec fn signed_over(sig: Option<String>, key_der: Seq<u8>, text: Seq<char>) -> bool {
    sig matches Some(s) && signs(key_der, text, s@)
}

/// A POST of an ADEPT document whose text is `text`.
pub open spec fn posts_text(r: HttpRequest, url: Seq<char>, text: Seq<char>) -> bool {
    &&& r.method == HttpMethod::Post
    &&& r.url@ == url
    &&& r.content matches Some(c) && c.content_type@ == CONTENT_TYPE@ && c.content@ == encode_utf8(text)
}

/// A POST whose body is the encoded text of `x`.
pub open spec fn posts(r: HttpRequest, url: Seq<char>, x: XmlOut) -> bool {
    posts_text(r, url, xml_text(x))
}

pub fn copy_string(s: &String) -> (r: String)
    ensures
        r@ == s@,
{
    s.clone()
}

/// The activation request: built without a signature, serialized and signed, then
/// serialized again with the signature in place.
pub fn activate_request(rng: &mut Rng, signer: &Signer, activation_url: &str, data: ActivateData) -> (r: Result<
    HttpRequest,
    SignatureError,
>)
    ensures
        exists|a: Activate, u: XmlOut|
            #![trigger activate_shape(u, a)]
            {
                &&& activate_carries(a, data) && a.signature is None && activate_shape(u, a)
                &&& (r is Ok <==> signable(signer.key_der(), xml_text(u)))
                &&& r matches Ok(req) ==> exists|b: Activate, x: XmlOut|
                    #![trigger activate_shape(x, b)]
                    activate_carries(b, data) && activate_shape(x, b) && posts(
                        req,
                        activation_url@ + "/Activate"@,
                        x,
                    ) && signed_over(b.signature, signer.key_der(), xml_text(u))
            },
{
    let ghost d = data;
    let mut req = Activate {
        request_type: String::from_str("initial"),
        fingerprint: copy_string(&data.fingerprint),
        device_type: copy_string(&data.device_type),
        client_os: copy_string(&data.client_os),
        client_locale: copy_string(&data.client_locale),
        client_version: copy_string(&data.client_version),
        target_device: TargetDevice {
            software_version: data.software_version,
            client_os: data.client_os,
            client_locale: data.client_locale,
            client_version: data.client_version,
            device_type: data.device_type,
            fingerprint: data.fingerprint,
        },
        nonce: data.nonce,
        expiration: data.expiration,
        user: data.user,
        signature: None,
    };
    let u = req.to_xml();
    let ghost a0 = req;
    let unsigned = serialize_xml(&u);
    proof {
        assert(activate_carries(a0, d) && activate_shape(u, a0));
    }
    let signature = match compute_signature_raw(rng, signer, unsigned.as_str()) {
        Ok(s) => s,
        Err(e) => return Err(e),
    };
    req.signature = Some(signature);
    let x = req.to_xml();
    let body = serialize_xml(&x);
    let r = make_post_serialized(activation_url, "/Activate", body.as_str());
    proof {
        assert(activate_carries(req, d));
        assert(activate_shape(x, req));
    }
    Ok(r)
}

/// The request for the activation service's description.
pub fn activation_service_info_request(activation_url: &str) -> (r: HttpRequest)
    ensures
        r.method == HttpMethod::Get,
        r.url@ == activation_url@ + "/ActivationServiceInfo"@,
        r.content is None,
{
    make_get(activation_url, "/ActivationServiceInfo")
}

/// The request for the authentication service's description.
pub fn authentication_service_info_request(authentication_url: &str) -> (r: HttpRequest)
    ensures
        r.method == HttpMethod::Get,
        r.url@ == authentication_url@ + "/AuthenticationServiceInfo"@,
        r.content is None,
{
    make_get(authentication_url, "/AuthenticationServiceInfo")
}

/// The signed request that opens the license service of an operator.
pub struct LicenseServiceRequest {
    pub identity: String,
    pub operator_url: String,
    pub nonce: String,
    pub expiration: String,
    pub user: String,
    pub signature: Option<String>,
}

pub open spec fn license_service_shape(r: XmlOut, a: LicenseServiceRequest) -> bool {
    &&& r.name@ == "adept:licenseServiceRequest"@
    &&& r.attributes@.len() == 2
    &&& r.attributes@[0].0@ == "xmlns:adept"@ && r.attributes@[0].1@ == ADEPT_XMLNS@
    &&& r.attributes@[1].0@ == "identity"@ && r.attributes@[1].1@ == a.identity@
    &&& child_count(r) == if a.signature is Some { 5int } else { 4int }
    &&& is_text_child(r, 0, "adept:operatorURL"@, a.operator_url@)
    &&& is_text_child(r, 1, "adept:nonce"@, a.nonce@)
    &&& is_text_child(r, 2, "adept:expiration"@, a.expiration@)
    &&& is_text_child(r, 3, "adept:user"@, a.user@)
    &&& (a.signature matches Some(sig) ==> is_text_child(r, 4, "adept:signature"@, sig@))
}

impl LicenseServiceRequest {
    pub fn to_xml(&self) -> (r: XmlOut)
        ensures
            license_service_shape(r, *self),
    {
        let mut cs: Vec<XmlOut> = Vec::new();
        cs.push(text_element("adept:operatorURL", self.operator_url.as_str()));
        cs.push(text_element("adept:nonce", self.nonce.as_str()));
        cs.push(text_element("adept:expiration", self.expiration.as_str()));
        cs.push(text_element("adept:user", self.user.as_str()));
        match &self.signature {
            Some(s) => cs.push(text_element("adept:signature", s.as_str())),
            None => {},
        }
        let mut attrs: Vec<(String, String)> = Vec::new();
        attrs.push(adept_namespace_attribute());
        attrs.push((String::from_str("identity"), self.identity.clone()));
        parent_element("adept:licenseServiceRequest", attrs, cs)
    }
}

/// What a license-service request carries besides its signature.
pub struct InitLicenseService {
    pub operator_url: String,
    pub nonce: String,
    pub expiration: String,
    pub user: String,
}

pub open spec fn license_service_carries(a: LicenseServiceRequest, d: InitLicenseService) -> bool {
    &&& a.identity@ == "user"@ && a.operator_url@ == d.operator_url@ && a.nonce@ == d.nonce@
    &&& a.expiration@ == d.expiration@ && a.user@ == d.user@
}

/// The signed license-service request, with `identity="user"`.
pub fn init_license_service_request(
    rng: &mut Rng,
    signer: &Signer,
    activation_url: &str,
    data: InitLicenseService,
) -> (r: Result<HttpRequest, SignatureError>)
    ensures
        exists|a: LicenseServiceRequest, u: XmlOut|
            #![trigger license_service_shape(u, a)]
            {
                &&& license_service_carries(a, data) && a.signature is None && license_service_shape(u, a)
                &&& (r is Ok <==> signable(signer.key_der(), xml_text(u)))
                &&& r matches Ok(req) ==> exists|b: LicenseServiceRequest, x: XmlOut|
                    #![trigger license_service_shape(x, b)]
                    license_service_carries(b, data) && license_service_shape(x, b) && posts(
                        req,
                        activation_url@ + "/InitLicenseService"@,
                        x,
                    ) && signed_over(b.signature, signer.key_der(), xml_text(u))
            },
{
    let ghost d = data;
    let mut req = LicenseServiceRequest {
        identity: String::from_str("user"),
        operator_url: data.operator_url,
        nonce: data.nonce,
        expiration: data.expiration,
        user: data.user,
        signature: None,
    };
    let u = req.to_xml();
    let ghost a0 = req;
    let unsigned = serialize_xml(&u);
    proof {
        assert(license_service_carries(a0, d) && license_service_shape(u, a0));
    }
    let signature = match compute_signature_raw(rng, signer, unsigned.as_str()) {
        Ok(s) => s,
        Err(e) => return Err(e),
    };
    req.signature = Some(signature);
    let x = req.to_xml();
    let body = serialize_xml(&x);
    let r = make_post_serialized(activation_url, "/InitLicenseService", body.as_str());
    proof {
        assert(license_service_carries(req, d));
        assert(license_service_shape(x, req));
    }
    Ok(r)
}

/// The keys and credentials of an anonymous sign-in, base64-encoded.
pub struct SignInData {
    pub sign_in_data: String,
    pub public_auth_key: String,
    pub encrypted_private_auth_key: String,
    pub public_license_key: String,
    pub encrypted_private_license_key: String,
}

/// The unsigned sign-in request.
pub struct AdeptSignIn {
    pub method: String,
    pub sign_in_data: String,
    pub public_auth_key: String,
    pub encrypted_private_auth_key: String,
    pub public_license_key: String,
    pub encrypted_private_license_key: String,
}

pub open spec fn sign_in_shape(r: XmlOut, a: AdeptSignIn) -> bool {
    &&& r.name@ == "adept:signIn"@
    &&& r.attributes@.len() == 2
    &&& r.attributes@[0].0@ == "xmlns:adept"@ && r.attributes@[0].1@ == ADEPT_XMLNS@
    &&& r.attributes@[1].0@ == "method"@ && r.attributes@[1].1@ == a.method@
    &&& child_count(r) == 5
    &&& is_text_child(r, 0, "adept:signInData"@, a.sign_in_data@)
    &&& is_text_child(r, 1, "adept:publicAuthKey"@, a.public_auth_key@)
    &&& is_text_child(r, 2, "adept:encryptedPrivateAuthKey"@, a.encrypted_private_auth_key@)
    &&& is_text_child(r, 3, "adept:publicLicenseKey"@, a.public_license_key@)
    &&& is_text_child(r, 4, "adept:encryptedPrivateLicenseKey"@, a.encrypted_private_license_key@)
}

impl AdeptSignIn {
    pub fn to_xml(&self) -> (r: XmlOut)
        ensures
            sign_in_shape(r, *self),
    {
        let mut cs: Vec<XmlOut> = Vec::new();
        cs.push(text_element("adept:signInData", self.sign_in_data.as_str()));
        cs.push(text_element("adept:publicAuthKey", self.public_auth_key.as_str()));
        cs.push(text_element("adept:encryptedPrivateAuthKey", self.encrypted_private_auth_key.as_str()));
        cs.push(text_element("adept:publicLicenseKey", self.public_license_key.as_str()));
        cs.push(text_element("adept:encryptedPrivateLicenseKey", self.encrypted_private_license_key.as_str()));
        let mut attrs: Vec<(String, String)> = Vec::new();
        attrs.push(adept_namespace_attribute());
        attrs.push((String::from_str("method"), self.method.clone()));
        parent_element("adept:signIn", attrs, cs)
    }
}

/// The sign-in request to `{auth URL}/SignInDirect`.
pub fn sign_in_request(authentication_url: &str, method: &str, data: SignInData) -> (r: HttpRequest)
    ensures
        exists|a: AdeptSignIn, x: XmlOut|
            #![trigger sign_in_shape(x, a)]
            a.method@ == method@ && a.sign_in_data@ == data.sign_in_data@ && a.public_auth_key@
                == data.public_auth_key@ && a.encrypted_private_auth_key@
                == data.encrypted_private_auth_key@ && a.public_license_key@ == data.public_license_key@
                && a.encrypted_private_license_key@ == data.encrypted_private_license_key@
                && sign_in_shape(x, a) && posts(r, authentication_url@ + "/SignInDirect"@, x),
{
    let req = AdeptSignIn {
        method: String::from_str(method),
        sign_in_data: data.sign_in_data,
        public_auth_key: data.public_auth_key,
        encrypted_private_auth_key: data.encrypted_private_auth_key,
        public_license_key: data.public_license_key,
        encrypted_private_license_key: data.encrypted_private_license_key,
    };
    let x = req.to_xml();
    let body = serialize_xml(&x);
    let r = make_post_serialized(authentication_url, "/SignInDirect", body.as_str());
    proof {
        assert(sign_in_shape(x, req));
    }
    r
}

/// The unsigned operator authentication request.
pub struct FulfillmentCredentials {
    pub user: String,
    pub certificate: String,
    pub license_certificate: String,
    pub authentication_certificate: String,
}

pub open spec fn credentials_shape(r: XmlOut, a: FulfillmentCredentials) -> bool {
    &&& r.name@ == "adept:credentials"@
    &&& r.attributes@.len() == 1
    &&& r.attributes@[0].0@ == "xmlns:adept"@ && r.attributes@[0].1@ == ADEPT_XMLNS@
    &&& child_count(r) == 4
    &&& is_text_child(r, 0, "adept:user"@, a.user@)
    &&& is_text_child(r, 1, "adept:certificate"@, a.certificate@)
    &&& is_text_child(r, 2, "adept:licenseCertificate"@, a.license_certificate@)
    &&& is_text_child(r, 3, "adept:authenticationCertificate"@, a.authentication_certificate@)
}

impl FulfillmentCredentials {
    pub fn to_xml(&self) -> (r: XmlOut)
        ensures
            credentials_shape(r, *self),
    {
        let mut cs: Vec<XmlOut> = Vec::new();
        cs.push(text_element("adept:user", self.user.as_str()));
        cs.push(text_element("adept:certificate", self.certificate.as_str()));
        cs.push(text_element("adept:licenseCertificate", self.license_certificate.as_str()));
        cs.push(text_element("adept:authenticationCertificate", self.authentication_certificate.as_str()));
        let mut attrs: Vec<(String, String)> = Vec::new();
        attrs.push(adept_namespace_attribute());
        parent_element("adept:credentials", attrs, cs)
    }
}

/// What the operator authentication carries: the user and three base64 certificates.
pub struct FulfillmentAuthData {
    pub user: String,
    pub certificate: String,
    pub license_certificate: String,
    pub authentication_certificate: String,
}

/// The operator authentication request to `{operator URL}/Auth`.
pub fn fulfillment_auth_request(operator_url: &str, data: FulfillmentAuthData) -> (r: HttpRequest)
    ensures
        exists|a: FulfillmentCredentials, x: XmlOut|
            #![trigger credentials_shape(x, a)]
            a.user@ == data.user@ && a.certificate@ == data.certificate@ && a.license_certificate@
                == data.license_certificate@ && a.authentication_certificate@
                == data.authentication_certificate@ && credentials_shape(x, a) && posts(
                r,
                operator_url@ + "/Auth"@,
                x,
            ),
{
    let req = FulfillmentCredentials {
        user: data.user,
        certificate: data.certificate,
        license_certificate: data.license_certificate,
        authentication_certificate: data.authentication_certificate,
    };
    let x = req.to_xml();
    let body = serialize_xml(&x);
    let r = make_post_serialized(operator_url, "/Auth", body.as_str());
    proof {
        assert(credentials_shape(x, req));
    }
    r
}

/// The activation token inside a fulfillment's target device.
pub struct FulfillmentActivationToken {
    pub user: String,
    pub device: String,
}

/// The target device of a fulfillment request.
pub struct FulfillmentTargetDevice {
    pub software_version: String,
    pub client_os: String,
    pub client_locale: String,
    pub client_version: String,
    pub device_type: String,
    pub fingerprint: String,
    pub activation_token: FulfillmentActivationToken,
}

/// The signed fulfillment request; the fulfillment token is not part of it but is put in
/// place of a placeholder element in its text.
pub struct Fulfill {
    pub user: String,
    pub device: String,
    pub device_type: String,
    pub target_device: FulfillmentTargetDevice,
    pub signature: Option<String>,
}

/// Child `i` of `x` is the empty placeholder element.
pub open spec fn is_placeholder_child(x: XmlOut, i: int) -> bool {
    &&& x.body is Children
    &&& 0 <= i < x.body->Children_0@.len()
    &&& x.body->Children_0@[i].name@ == "fulfillment_token_placeholder"@
    &&& x.body->Children_0@[i].attributes@.len() == 0
    &&& x.body->Children_0@[i].body is Empty
}

pub open spec fn fulfill_target_shape(t: XmlOut, d: FulfillmentTargetDevice) -> bool {
    &&& t.name@ == "adept:targetDevice"@
    &&& t.attributes@.len() == 0
    &&& child_count(t) == 7
    &&& is_text_child(t, 0, "adept:softwareVersion"@, d.software_version@)
    &&& is_text_child(t, 1, "adept:clientOS"@, d.client_os@)
    &&& is_text_child(t, 2, "adept:clientLocale"@, d.client_locale@)
    &&& is_text_child(t, 3, "adept:clientVersion"@, d.client_version@)
    &&& is_text_child(t, 4, "adept:deviceType"@, d.device_type@)
    &&& is_text_child(t, 5, "adept:fingerprint"@, d.fingerprint@)
    &&& t.body->Children_0@[6].name@ == "adept:activationToken"@
    &&& is_text_child(t.body->Children_0@[6], 0, "adept:user"@, d.activation_token.user@)
    &&& is_text_child(t.body->Children_0@[6], 1, "adept:device"@, d.activation_token.device@)
}

pub open spec fn fulfill_shape(r: XmlOut, a: Fulfill) -> bool {
    &&& r.name@ == "adept:fulfill"@
    &&& r.attributes@.len() == 1
    &&& r.attributes@[0].0@ == "xmlns:adept"@ && r.attributes@[0].1@ == ADEPT_XMLNS@
    &&& child_count(r) == if a.signature is Some { 6int } else { 5int }
    &&& is_text_child(r, 0, "adept:user"@, a.user@)
    &&& is_text_child(r, 1, "adept:device"@, a.device@)
    &&& is_text_child(r, 2, "adept:deviceType"@, a.device_type@)
    &&& is_placeholder_child(r, 3)
    &&& fulfill_target_shape(r.body->Children_0@[4], a.target_device)
    &&& (a.signature matches Some(sig) ==> is_text_child(r, 5, "adept:signature"@, sig@))
}

impl FulfillmentTargetDevice {
    pub fn to_xml(&self) -> (r: XmlOut)
        ensures
            fulfill_target_shape(r, *self),
    {
        let mut token: Vec<XmlOut> = Vec::new();
        token.push(text_element("adept:user", self.activation_token.user.as_str()));
        token.push(text_element("adept:device", self.activation_token.device.as_str()));
        let mut cs: Vec<XmlOut> = Vec::new();
        cs.push(text_element("adept:softwareVersion", self.software_version.as_str()));
        cs.push(text_element("adept:clientOS", self.client_os.as_str()));
        cs.push(text_element("adept:clientLocale", self.client_locale.as_str()));
        cs.push(text_element("adept:clientVersion", self.client_version.as_str()));
        cs.push(text_element("adept:deviceType", self.device_type.as_str()));
        cs.push(text_element("adept:fingerprint", self.fingerprint.as_str()));
        cs.push(parent_element("adept:activationToken", Vec::new(), token));
        parent_element("adept:targetDevice", Vec::new(), cs)
    }
}

impl Fulfill {
    pub fn to_xml(&self) -> (r: XmlOut)
        ensures
            fulfill_shape(r, *self),
    {
        let mut cs: Vec<XmlOut> = Vec::new();
        cs.push(text_element("adept:user", self.user.as_str()));
        cs.push(text_element("adept:device", self.device.as_str()));
        cs.push(text_element("adept:deviceType", self.device_type.as_str()));
        cs.push(XmlOut {
            name: String::from_str("fulfillment_token_placeholder"),
            attributes: Vec::new(),
            body: XmlBody::Empty,
        });
        cs.push(self.target_device.to_xml());
        match &self.signature {
            Some(s) => cs.push(text_element("adept:signature", s.as_str())),
            None => {},
        }
        let mut attrs: Vec<(String, String)> = Vec::new();
        attrs.push(adept_namespace_attribute());
        parent_element("adept:fulfill", attrs, cs)
    }
}

/// The serialized fulfillment request holds the placeholder element, so the token is put
/// in its place.
pub proof fn lemma_placeholder_present(u: XmlOut, a: Fulfill)
    requires
        fulfill_shape(u, a),
    ensures
        exists|i: int| occurs_at(xml_text(u), PLACEHOLDER_ELEMENT@, i),
{
    let cs = u.body->Children_0@;
    let p = cs[3];
    reveal_strlit("<fulfillment_token_placeholder/>");
    reveal_strlit("fulfillment_token_placeholder");
    assert(attributes_text(p.attributes@) =~= Seq::<char>::empty());
    assert(xml_text(p) =~= PLACEHOLDER_ELEMENT@);
    lemma_children_text_split(cs, 3);
    let rest = cs.subrange(3, cs.len() as int);
    lemma_children_text_split(rest, 1);
    let first = rest.subrange(0, 1);
    assert(first.drop_last() =~= Seq::<XmlOut>::empty());
    assert(children_text(first.drop_last()) =~= Seq::<char>::empty());
    assert(first.last() == p);
    assert(children_text(first) =~= xml_text(p));
    let before = seq!['<'] + u.name@ + attributes_text(u.attributes@) + seq!['>'] + children_text(cs.subrange(0, 3));
    let after = children_text(rest.subrange(1, rest.len() as int)) + end_tag(u.name@);
    assert(xml_text(u) =~= before + PLACEHOLDER_ELEMENT@ + after);
    let i = before.len() as int;
    assert(xml_text(u).subrange(i, i + PLACEHOLDER_ELEMENT@.len()) =~= PLACEHOLDER_ELEMENT@);
    assert(occurs_at(xml_text(u), PLACEHOLDER_ELEMENT@, i));
}

/// What a fulfillment request carries: user, device, device info, and the raw ACSM text.
pub struct FulfillmentData {
    pub user: String,
    pub device: String,
    pub software_version: String,
    pub client_os: String,
    pub client_locale: String,
    pub client_version: String,
    pub device_type: String,
    pub fingerprint: String,
    pub fulfillment_token: String,
}

pub open spec fn fulfill_carries(a: Fulfill, d: FulfillmentData) -> bool {
    &&& a.user@ == d.user@ && a.device@ == d.device@ && a.device_type@ == d.device_type@
    &&& a.target_device.software_version@ == d.software_version@
    &&& a.target_device.client_os@ == d.client_os@
    &&& a.target_device.client_locale@ == d.client_locale@
    &&& a.target_device.client_version@ == d.client_version@
    &&& a.target_device.device_type@ == d.device_type@
    &&& a.target_device.fingerprint@ == d.fingerprint@
    &&& a.target_device.activation_token.user@ == d.user@
    &&& a.target_device.activation_token.device@ == d.device@
}

/// The fulfillment request. Its text is the serialized request with the raw fulfillment
/// token put, verbatim, in place of the placeholder; the signature is made over that text
/// without the signature, and the signed request is completed the same way.
pub fn fulfill_request(rng: &mut Rng, signer: &Signer, operator_url: &str, data: FulfillmentData) -> (r: Result<
    HttpRequest,
    SignatureError,
>)
    ensures
        exists|a: Fulfill, u: XmlOut|
            #![trigger fulfill_shape(u, a)]
            {
                let unsigned = replace_first(xml_text(u), PLACEHOLDER_ELEMENT@, data.fulfillment_token@);
                &&& fulfill_carries(a, data) && a.signature is None && fulfill_shape(u, a)
                &&& embeds(unsigned, data.fulfillment_token@)
                &&& (r is Ok <==> signable(signer.key_der(), unsigned))
                &&& r matches Ok(req) ==> exists|b: Fulfill, x: XmlOut|
                    #![trigger fulfill_shape(x, b)]
                    fulfill_carries(b, data) && fulfill_shape(x, b) && signed_over(
                        b.signature,
                        signer.key_der(),
                        unsigned,
                    ) && posts_text(
                        req,
                        operator_url@ + "/Fulfill"@,
                        replace_first(xml_text(x), PLACEHOLDER_ELEMENT@, data.fulfillment_token@),
                    ) && embeds(
                        replace_first(xml_text(x), PLACEHOLDER_ELEMENT@, data.fulfillment_token@),
                        data.fulfillment_token@,
                    )
            },
{
    let ghost d = data;
    let mut req = Fulfill {
        user: copy_string(&data.user),
        device: copy_string(&data.device),
        device_type: copy_string(&data.device_type),
        target_device: FulfillmentTargetDevice {
            software_version: data.software_version,
            client_os: data.client_os,
            client_locale: data.client_locale,
            client_version: data.client_version,
            device_type: data.device_type,
            fingerprint: data.fingerprint,
            activation_token: FulfillmentActivationToken { user: data.user, device: data.device },
        },
        signature: None,
    };
    let u = req.to_xml();
    let ghost a0 = req;
    proof {
        assert(fulfill_carries(a0, d) && fulfill_shape(u, a0));
        lemma_placeholder_present(u, a0);
        lemma_token_preserved(xml_text(u), d.fulfillment_token@);
    }
    let unsigned = substitute_fulfillment_token(serialize_xml(&u).as_str(), data.fulfillment_token.as_str());
    let signature = match compute_signature_raw(rng, signer, unsigned.as_str()) {
        Ok(s) => s,
        Err(e) => return Err(e),
    };
    req.signature = Some(signature);
    let x = req.to_xml();
    let body = substitute_fulfillment_token(serialize_xml(&x).as_str(), data.fulfillment_token.as_str());
    let r = make_post_serialized(operator_url, "/Fulfill", body.as_str());
    proof {
        assert(fulfill_carries(req, d));
        assert(fulfill_shape(x, req));
        lemma_placeholder_present(x, req);
        lemma_token_preserved(xml_text(x), d.fulfillment_token@);
    }
    Ok(r)
}

} // verus!
