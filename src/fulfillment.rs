use vstd::prelude::*;
use vstd::string::StringExecFns;
use crate::account::{random_nonce, ActivatedDevice, AdobeServicesInfo, DeviceInfo, UserCredentials};
use crate::adept::{
    activate_request, activate_shape, credentials_shape, signed_over, fulfill_request, fulfill_shape,
    fulfillment_auth_request, init_license_service_request, license_service_shape, posts, posts_text, Activate,
    ActivateData, Fulfill, FulfillmentAuthData, FulfillmentCredentials, FulfillmentData, InitLicenseService,
    LicenseServiceRequest,
};
use crate::token::{embeds, replace_first, PLACEHOLDER_ELEMENT};
use crate::writer::{xml_text, XmlOut};
use crate::b64::{b64, base64_encode, unb64};
use crate::crypto::Signer;
use crate::http::{HttpMethod, HttpRequest};
use crate::rand::Rng;
use crate::responses::{ActivationToken, Envelope, ResourceItemInfo};
use crate::signature::{signable, SignatureError};
use crate::xml::{child_text, child_text_of, parse_xml, same_text, xml_parse_of};

verus! {

/// A fulfillment ticket: its operator URL, and its whole text, kept byte for byte.
pub struct Acsm {
    operator_url: String,
    raw: String,
}

/// Why an ACSM was not accepted.
pub enum AcsmError {
    /// Not a well-formed XML document.
    MalformedXml,
    /// The root element has no `operatorURL` child.
    MissingOperatorUrl,
}

impl Acsm {
    pub closed spec fn raw_text(&self) -> Seq<char> {
        self.raw@
    }

    pub closed spec fn operator(&self) -> Seq<char> {
        self.operator_url@
    }

    pub fn from_string(s: String) -> (r: Result<Self, AcsmError>)
        ensures
            match xml_parse_of(s@) {
                None => r matches Err(AcsmError::MalformedXml),
                Some(root) => match child_text_of(root, "operatorURL"@) {
                    None => r matches Err(AcsmError::MissingOperatorUrl),
                    Some(u) => r matches Ok(a) && a.raw_text() == s@ && a.operator() == u,
                },
            },
    {
        let root = match parse_xml(s.as_str()) {
            Some(root) => root,
            None => return Err(AcsmError::MalformedXml),
        };
        let operator_url = match child_text(&root, "operatorURL") {
            Ok(u) => u,
            Err(_) => return Err(AcsmError::MissingOperatorUrl),
        };
        Ok(Acsm { operator_url, raw: s })
    }

    pub fn from_str(s: &str) -> (r: Result<Self, AcsmError>)
        ensures
            match xml_parse_of(s@) {
                None => r matches Err(AcsmError::MalformedXml),
                Some(root) => match child_text_of(root, "operatorURL"@) {
                    None => r matches Err(AcsmError::MissingOperatorUrl),
                    Some(u) => r matches Ok(a) && a.raw_text() == s@ && a.operator() == u,
                },
            },
    {
        Acsm::from_string(String::from_str(s))
    }

    /// The ticket's text, exactly as it was read.
    pub fn fulfillment_token(&self) -> (r: &str)
        ensures
            r@ == self.raw_text(),
    {
        self.raw.as_str()
    }

    pub fn operator_url(&self) -> (r: &str)
        ensures
            r@ == self.operator(),
    {
        self.operator_url.as_str()
    }
}

/// The services part of the persisted account.
pub struct AdobeMinServicesInfo {
    pub activation_url: String,
    pub auth_url: String,
    pub auth_certificate: Vec<u8>,
}

/// The persisted account.
pub struct AdobeAccount {
    pub services: AdobeMinServicesInfo,
    pub user_credentials: UserCredentials,
    pub device_info: DeviceInfo,
    pub activated_device: String,
}

/// Where account creation starts: the activation service and the device to activate.
pub struct CreateAccountParams {
    pub activation_url: String,
    pub device_info: DeviceInfo,
}

impl CreateAccountParams {
    /// The standard activation service and a freshly generated device.
    pub fn with_defaults(rng: &mut Rng) -> (r: Self)
        ensures
            r.activation_url@ == crate::adept::DEFAULT_ACTIVATION_URL@,
    {
        CreateAccountParams {
            activation_url: String::from_str(crate::adept::DEFAULT_ACTIVATION_URL),
            device_info: DeviceInfo::generate(rng),
        }
    }
}

/// The account record: the services snapshot, the credentials, the device and its URN.
pub fn assemble_account(
    services: AdobeServicesInfo,
    user_credentials: UserCredentials,
    device_info: DeviceInfo,
    activated: ActivatedDevice,
) -> (r: AdobeAccount)
    ensures
        r.services.activation_url@ == services.activation_url@,
        r.services.auth_url@ == services.auth_service.auth_url@,
        r.services.auth_certificate@ == services.auth_service.auth_certificate@,
        r.activated_device@ == activated.device@,
        r.user_credentials == user_credentials,
        r.device_info == device_info,
{
    AdobeAccount {
        services: AdobeMinServicesInfo {
            activation_url: services.activation_url,
            auth_url: services.auth_service.auth_url,
            auth_certificate: services.auth_service.auth_certificate,
        },
        user_credentials,
        device_info,
        activated_device: activated.device,
    }
}

fn copy(s: &String) -> (r: String)
    ensures
        r@ == s@,
{
    s.clone()
}

/// The activation request names the device, twice, and the user.
pub open spec fn activates_device(a: Activate, d: DeviceInfo, user: Seq<char>, expiration: Seq<char>) -> bool {
    &&& a.request_type@ == "initial"@
    &&& a.fingerprint@ == d.fingerprint@ && a.device_type@ == d.device_type@
    &&& a.client_os@ == d.client_os@ && a.client_locale@ == d.client_locale@
    &&& a.client_version@ == d.client_version@
    &&& a.target_device.software_version@ == d.software_version@
    &&& a.target_device.client_os@ == d.client_os@ && a.target_device.client_locale@ == d.client_locale@
    &&& a.target_device.client_version@ == d.client_version@
    &&& a.target_device.device_type@ == d.device_type@ && a.target_device.fingerprint@ == d.fingerprint@
    &&& a.user@ == user && a.expiration@ == expiration
}

/// The fulfillment request names the user, the activated device and the device info.
pub open spec fn fulfills_for(a: Fulfill, c: UserCredentials, d: DeviceInfo, device: Seq<char>) -> bool {
    &&& a.user@ == c.user@ && a.device@ == device && a.device_type@ == d.device_type@
    &&& a.target_device.software_version@ == d.software_version@
    &&& a.target_device.client_os@ == d.client_os@ && a.target_device.client_locale@ == d.client_locale@
    &&& a.target_device.client_version@ == d.client_version@
    &&& a.target_device.device_type@ == d.device_type@ && a.target_device.fingerprint@ == d.fingerprint@
    &&& a.target_device.activation_token.user@ == c.user@
    &&& a.target_device.activation_token.device@ == device
}

/// The activation of a device for a user, with a fresh nonce.
pub fn activate_device_request(
    rng: &mut Rng,
    signer: &Signer,
    activation_url: &str,
    user: &str,
    device_info: &DeviceInfo,
    expiration: &str,
) -> (r: Result<HttpRequest, SignatureError>)
    ensures
        exists|a: Activate, u: XmlOut|
            #![trigger activate_shape(u, a)]
            {
                &&& activates_device(a, *device_info, user@, expiration@) && a.signature is None
                &&& activate_shape(u, a)
                &&& (r is Ok <==> signable(signer.key_der(), xml_text(u)))
                &&& r matches Ok(req) ==> exists|b: Activate, x: XmlOut|
                    #![trigger activate_shape(x, b)]
                    activates_device(b, *device_info, user@, expiration@) && activate_shape(x, b) && posts(
                        req,
                        activation_url@ + "/Activate"@,
                        x,
                    ) && signed_over(b.signature, signer.key_der(), xml_text(u))
            },
{
    let data = ActivateData {
        software_version: copy(&device_info.software_version),
        client_os: copy(&device_info.client_os),
        client_locale: copy(&device_info.client_locale),
        client_version: copy(&device_info.client_version),
        device_type: copy(&device_info.device_type),
        fingerprint: copy(&device_info.fingerprint),
        nonce: random_nonce(rng),
        expiration: String::from_str(expiration),
        user: String::from_str(user),
    };
    activate_request(rng, signer, activation_url, data)
}

/// The device URN of an activation answer.
pub fn activated_device(token: ActivationToken) -> (r: ActivatedDevice)
    ensures
        r.device@ == token.device@,
{
    ActivatedDevice { device: token.device }
}

/// The operator authentication for an ACSM: user, and the user, license and auth
/// certificates in base64.
pub fn fulfillment_auth(acsm: &Acsm, credentials: &UserCredentials, auth_certificate: &[u8]) -> (r: HttpRequest)
    ensures
        r.method == HttpMethod::Post,
        r.url@ == acsm.operator() + "/Auth"@,
        exists|a: FulfillmentCredentials, x: XmlOut|
            #![trigger credentials_shape(x, a)]
            credentials_shape(x, a) && posts(r, acsm.operator() + "/Auth"@, x) && a.user@ == credentials.user@
                && a.certificate@ == base64_encode(credentials.user_certificate@) && a.license_certificate@
                == base64_encode(credentials.license_certificate@) && a.authentication_certificate@
                == base64_encode(auth_certificate@),
{
    let data = FulfillmentAuthData {
        user: copy(&credentials.user),
        certificate: b64(credentials.user_certificate.as_slice()),
        license_certificate: b64(credentials.license_certificate.as_slice()),
        authentication_certificate: b64(auth_certificate),
    };
    fulfillment_auth_request(acsm.operator_url(), data)
}

/// The signed license-service request for an operator.
pub fn init_license_service(
    rng: &mut Rng,
    signer: &Signer,
    activation_url: &str,
    user: &str,
    operator_url: &str,
    expiration: &str,
) -> (r: Result<HttpRequest, SignatureError>)
    ensures
        exists|a: LicenseServiceRequest, u: XmlOut|
            #![trigger license_service_shape(u, a)]
            {
                &&& a.identity@ == "user"@ && a.operator_url@ == operator_url@ && a.user@ == user@
                &&& a.expiration@ == expiration@ && a.signature is None && license_service_shape(u, a)
                &&& (r is Ok <==> signable(signer.key_der(), xml_text(u)))
                &&& r matches Ok(req) ==> exists|b: LicenseServiceRequest, x: XmlOut|
                    #![trigger license_service_shape(x, b)]
                    b.identity@ == "user"@ && b.operator_url@ == operator_url@ && b.user@ == user@
                        && b.expiration@ == expiration@ && license_service_shape(x, b) && posts(
                        req,
                        activation_url@ + "/InitLicenseService"@,
                        x,
                    ) && signed_over(b.signature, signer.key_der(), xml_text(u))
            },
{
    let data = InitLicenseService {
        operator_url: String::from_str(operator_url),
        nonce: random_nonce(rng),
        expiration: String::from_str(expiration),
        user: String::from_str(user),
    };
    init_license_service_request(rng, signer, activation_url, data)
}

/// The fulfillment request for an ACSM, carrying its raw text.
pub fn fulfill(
    rng: &mut Rng,
    signer: &Signer,
    acsm: &Acsm,
    credentials: &UserCredentials,
    device_info: &DeviceInfo,
    activated_device: &str,
) -> (r: Result<HttpRequest, SignatureError>)
    ensures
        exists|a: Fulfill, u: XmlOut|
            #![trigger fulfill_shape(u, a)]
            {
                let unsigned = replace_first(xml_text(u), PLACEHOLDER_ELEMENT@, acsm.raw_text());
                &&& fulfills_for(a, *credentials, *device_info, activated_device@) && a.signature is None
                &&& fulfill_shape(u, a)
                &&& embeds(unsigned, acsm.raw_text())
                &&& (r is Ok <==> signable(signer.key_der(), unsigned))
                &&& r matches Ok(req) ==> exists|b: Fulfill, x: XmlOut|
                    #![trigger fulfill_shape(x, b)]
                    fulfills_for(b, *credentials, *device_info, activated_device@) && fulfill_shape(x, b)
                        && signed_over(b.signature, signer.key_der(), unsigned) && posts_text(
                        req,
                        acsm.operator() + "/Fulfill"@,
                        replace_first(xml_text(x), PLACEHOLDER_ELEMENT@, acsm.raw_text()),
                    ) && embeds(replace_first(xml_text(x), PLACEHOLDER_ELEMENT@, acsm.raw_text()), acsm.raw_text())
            },
{
    let data = FulfillmentData {
        user: copy(&credentials.user),
        device: String::from_str(activated_device),
        software_version: copy(&device_info.software_version),
        client_os: copy(&device_info.client_os),
        client_locale: copy(&device_info.client_locale),
        client_version: copy(&device_info.client_version),
        device_type: copy(&device_info.device_type),
        fingerprint: copy(&device_info.fingerprint),
        fulfillment_token: String::from_str(acsm.fulfillment_token()),
    };
    fulfill_request(rng, signer, acsm.operator_url(), data)
}

/// How a resource is downloaded.
pub enum DownloadInfo {
    /// A plain GET of the URL.
    Simple(String),
}

/// The content key of a resource, still wrapped under the license key.
pub struct ResourceEncryptedKey {
    pub encrypted_key: Vec<u8>,
}

/// A resource that a fulfillment granted.
pub struct Resource {
    pub resource: String,
    pub item_type: String,
    pub encrypted_key: ResourceEncryptedKey,
    pub download: DownloadInfo,
}

/// Why a fulfillment result was not accepted.
pub enum FulfillError {
    UnsupportedDownloadType(String),
    /// The encrypted key is not base64.
    NotBase64,
}

/// The resource is what the client takes from the item.
pub open spec fn converted_from(res: Resource, item: ResourceItemInfo) -> bool {
    &&& res.resource@ == item.resource@
    &&& res.item_type@ == item.license_token.resource_item_type@
    &&& base64_encode(res.encrypted_key.encrypted_key@) == item.license_token.encrypted_key.key@
    &&& res.download matches DownloadInfo::Simple(u) && u@ == item.src@
    &&& item.download_type@ == "simple"@
}

/// Takes what the rest of the client needs from a resource item; only simple downloads
/// are supported.
pub fn convert_resource(item: ResourceItemInfo) -> (r: Result<Resource, FulfillError>)
    ensures
        item.download_type@ != "simple"@ ==> (r matches Err(FulfillError::UnsupportedDownloadType(t)) && t@
            == item.download_type@),
        item.download_type@ == "simple"@ ==> (r is Ok <==> exists|b: Seq<u8>| base64_encode(b)
            == item.license_token.encrypted_key.key@),
        r matches Ok(res) ==> converted_from(res, item),
{
    if !same_text(item.download_type.as_str(), "simple") {
        return Err(FulfillError::UnsupportedDownloadType(item.download_type));
    }
    let encrypted_key = match unb64(item.license_token.encrypted_key.key.as_str()) {
        Ok(k) => k,
        Err(_) => return Err(FulfillError::NotBase64),
    };
    Ok(Resource {
        resource: item.resource,
        item_type: item.license_token.resource_item_type,
        encrypted_key: ResourceEncryptedKey { encrypted_key },
        download: DownloadInfo::Simple(item.src),
    })
}

/// The item can be converted: a simple download whose key is base64.
pub open spec fn convertible(item: ResourceItemInfo) -> bool {
    item.download_type@ == "simple"@ && exists|b: Seq<u8>| base64_encode(b) == item.license_token.encrypted_key.key@
}

/// The resources of a fulfillment.
pub struct FulfillmentResult {
    pub resources: Vec<Resource>,
}

/// Converts every resource item of a fulfillment answer, in order; the first that fails
/// fails the whole.
pub fn fulfillment_result(envelope: Envelope) -> (r: Result<FulfillmentResult, FulfillError>)
    ensures
        r is Ok <==> forall|i: int|
            0 <= i < envelope.fulfillmen_result.resources@.len() ==> convertible(
                #[trigger] envelope.fulfillmen_result.resources@[i],
            ),
        r matches Ok(f) ==> f.resources@.len() == envelope.fulfillmen_result.resources@.len() && forall|i: int|
            0 <= i < f.resources@.len() ==> converted_from(
                #[trigger] f.resources@[i],
                envelope.fulfillmen_result.resources@[i],
            ),
{
    let ghost all = envelope.fulfillmen_result.resources@;
    let mut items = envelope.fulfillmen_result.resources;
    let n = items.len();
    let mut out: Vec<Resource> = Vec::new();
    let mut i: usize = 0;
    proof {
        assert(items@ =~= all.subrange(0, n as int));
    }
    while i < n
        invariant
            all == envelope.fulfillmen_result.resources@,
            n == all.len(),
            i <= n,
            items@ == all.subrange(i as int, n as int),
            out@.len() == i,
            forall|j: int| 0 <= j < i ==> converted_from(#[trigger] out@[j], all[j]),
            forall|j: int| 0 <= j < i ==> convertible(#[trigger] all[j]),
        decreases n - i,
    {
        let item = items.remove(0);
        proof {
            assert(item == all[i as int]);
            assert(items@ =~= all.subrange(i + 1, n as int));
        }
        match convert_resource(item) {
            Ok(res) => out.push(res),
            Err(e) => {
                proof {
                    assert(!convertible(all[i as int]));
                }
                return Err(e);
            },
        }
        i += 1;
    }
    Ok(FulfillmentResult { resources: out })
}

} // verus!
