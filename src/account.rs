use vstd::prelude::*;
use vstd::string::{StringExecFns, StringSliceAdditionalSpecFns};
use crate::adept::SignInData;
use crate::aes::{aes128_cbc_decrypt_of, body_of, decrypt_aes, encrypt_aes, iv_of, AesError, IV_LEN};
use crate::b64::{b64, base64_encode, lemma_base64_round_trip, unb64};
use crate::crypto::{
    encrypt_with_cert, is_rsa_pkcs1_public_key, is_rsa_pkcs8_key, make_keypair, rsa_modulus_bytes_of, parse_pkcs12, pkcs12_key_chain_of, rsa_public_der_of,
    subject_public_key_of, CryptoError,
};
use crate::rand::{rand_bytes, Rng};
use crate::responses::{ActivationServiceInfo, AuthenticationServiceInfo, Credentials};
use crate::xml::same_text;

verus! {

/// Base64 of eight fresh random bytes.
pub fn random_nonce(rng: &mut Rng) -> (r: String)
    ensures
        exists|b: Seq<u8>| b.len() == 8 && r@ == base64_encode(b),
{
    let bytes = rand_bytes(rng, 8);
    b64(bytes.as_slice())
}

/// RFC 3339 text, to the second and with `Z`, of a time given in seconds since the Unix epoch.
pub uninterp spec fn rfc3339_utc_of(unix_seconds: int) -> Seq<char>;

/// Relies on chrono's `DateTime::<Utc>::from_timestamp` and `to_rfc3339_opts(SecondsFormat::Secs, true)`;
/// `None` outside chrono's range of dates.
#[verifier::external_body]
fn rfc3339_utc(unix_seconds: i64) -> (r: Option<String>)
    ensures
        r matches Some(s) ==> s@ == rfc3339_utc_of(unix_seconds as int),
        0 <= unix_seconds <= LATEST_FORMATTED_SECONDS ==> r is Some,
{
    let dt = chrono::DateTime::<chrono::Utc>::from_timestamp(unix_seconds, 0)?;
    Some(dt.to_rfc3339_opts(chrono::SecondsFormat::Secs, true))
}

/// Relies on std's `SystemTime::now` and `duration_since(UNIX_EPOCH)`: the current time in
/// whole seconds, or `None` before the epoch.
#[verifier::external_body]
fn unix_now() -> (r: Option<i64>) {
    let d = std::time::SystemTime::now().duration_since(std::time::UNIX_EPOCH).ok()?;
    i64::try_from(d.as_secs()).ok()
}

/// The last second of the year 9999, well inside the dates that chrono represents.
pub const LATEST_FORMATTED_SECONDS: i64 = 253402300799;

/// How long a signed request stays valid, in seconds.
pub const EXPIRATION_SECONDS: i64 = 600;

/// The expiration of a request made at `now`: ten minutes later.
pub fn make_expiration_at(now: i64) -> (r: Option<String>)
    ensures
        now <= i64::MAX - EXPIRATION_SECONDS ==> (r matches Some(s) ==> s@ == rfc3339_utc_of(now + EXPIRATION_SECONDS)),
        now > i64::MAX - EXPIRATION_SECONDS ==> r is None,
        0 <= now + EXPIRATION_SECONDS <= LATEST_FORMATTED_SECONDS ==> (r matches Some(s) && s@ == rfc3339_utc_of(
            now + EXPIRATION_SECONDS,
        )),
{
    if now > i64::MAX - EXPIRATION_SECONDS {
        return None;
    }
    rfc3339_utc(now + EXPIRATION_SECONDS)
}

/// The expiration of a request made now.
pub fn make_expiration() -> (r: Option<String>)
    ensures
        r matches Some(s) ==> exists|at: int| #[trigger] rfc3339_utc_of(at) == s@,
{
    match unix_now() {
        Some(now) => {
            let r = make_expiration_at(now);
            proof {
                if r is Some {
                    assert(rfc3339_utc_of(now + EXPIRATION_SECONDS) == r->0@);
                }
            }
            r
        },
        None => None,
    }
}

/// The device description that every signed request repeats.
pub struct DeviceInfo {
    pub software_version: String,
    pub client_os: String,
    pub client_locale: String,
    pub client_version: String,
    pub device_type: String,
    pub fingerprint: String,
}

impl DeviceInfo {
    /// The defaults, with a fingerprint of twenty fresh random bytes.
    pub fn generate(rng: &mut Rng) -> (r: Self)
        ensures
            r.software_version@ == "10.0.4"@,
            r.client_os@ == "Linux"@,
            r.client_locale@ == "C"@,
            r.client_version@ == "Desktop"@,
            r.device_type@ == "standalone"@,
            exists|b: Seq<u8>| b.len() == 20 && r.fingerprint@ == base64_encode(b),
    {
        let bytes = rand_bytes(rng, 20);
        DeviceInfo {
            software_version: String::from_str("10.0.4"),
            client_os: String::from_str("Linux"),
            client_locale: String::from_str("C"),
            client_version: String::from_str("Desktop"),
            device_type: String::from_str("standalone"),
            fingerprint: b64(bytes.as_slice()),
        }
    }
}

/// The device URN that activation returned.
pub struct ActivatedDevice {
    pub device: String,
}

/// The authentication service, as the account uses it.
pub struct AdobeAuthServiceInfo {
    pub auth_url: String,
    pub auth_certificate: Vec<u8>,
    pub sign_in_methods: Vec<String>,
}

/// Both services, as the account uses them.
pub struct AdobeServicesInfo {
    pub activation_url: String,
    pub auth_service: AdobeAuthServiceInfo,
}

/// Why services discovery, sign-in or activation failed.
pub enum AccountError {
    /// A field that should be base64 is not.
    NotBase64,
    /// The authentication service does not offer the sign-in method.
    MethodUnavailable(String),
    /// The sign-in method has no credentials in this client.
    MethodUnsupported,
    Crypto(CryptoError),
    Aes(AesError),
}

/// Combines the two service descriptions; the auth certificate is decoded.
pub fn services_info(
    activation_url: &str,
    activation: ActivationServiceInfo,
    auth: AuthenticationServiceInfo,
) -> (r: Result<AdobeServicesInfo, AccountError>)
    ensures
        r matches Ok(s) ==> {
            &&& s.activation_url@ == activation_url@
            &&& s.auth_service.auth_url@ == activation.auth_url@
            &&& base64_encode(s.auth_service.auth_certificate@) == auth.certificate@
            &&& s.auth_service.sign_in_methods@.len() == auth.sign_in_methods.sign_in_methods@.len()
            &&& forall|i: int|
                0 <= i < s.auth_service.sign_in_methods@.len() ==> (#[trigger] s.auth_service.sign_in_methods@[i])@
                    == auth.sign_in_methods.sign_in_methods@[i].method@
        },
        r is Err <==> !exists|b: Seq<u8>| base64_encode(b) == auth.certificate@,
{
    let certificate = match unb64(auth.certificate.as_str()) {
        Ok(c) => c,
        Err(_) => return Err(AccountError::NotBase64),
    };
    let mut methods: Vec<String> = Vec::new();
    let list = &auth.sign_in_methods.sign_in_methods;
    let mut i: usize = 0;
    while i < list.len()
        invariant
            i <= list@.len(),
            methods@.len() == i,
            forall|j: int| 0 <= j < i ==> (#[trigger] methods@[j])@ == list@[j].method@,
        decreases list@.len() - i,
    {
        methods.push(list[i].method.clone());
        i += 1;
    }
    Ok(AdobeServicesInfo {
        activation_url: String::from_str(activation_url),
        auth_service: AdobeAuthServiceInfo {
            auth_url: activation.auth_url,
            auth_certificate: certificate,
            sign_in_methods: methods,
        },
    })
}

/// The key that wraps the locally made private keys during one sign-in, and whose base64
/// text opens the PKCS#12 bundle that the server returns.
pub struct EphemeralKey {
    key: [u8; 16],
}

impl EphemeralKey {
    pub closed spec fn bytes(&self) -> Seq<u8> {
        self.key@
    }

    pub fn from_bytes(v: [u8; 16]) -> (r: Self)
        ensures
            r.bytes() == v@,
    {
        EphemeralKey { key: v }
    }

    /// Sixteen fresh random bytes.
    pub fn generate(rng: &mut Rng) -> (r: Self)
        ensures
            r.bytes().len() == 16,
    {
        let b = rand_bytes(rng, 16);
        let key: [u8; 16] = [b[0], b[1], b[2], b[3], b[4], b[5], b[6], b[7], b[8], b[9], b[10], b[11], b[12], b[13], b[14], b[15]];
        EphemeralKey { key }
    }

    pub fn raw(&self) -> (r: &[u8; 16])
        ensures
            r@ == self.bytes(),
    {
        &self.key
    }
}

/// The sign-in credentials blob: the key, then user and password, each after a one-byte length.
pub open spec fn credentials_blob(key: Seq<u8>, user: Seq<u8>, pass: Seq<u8>) -> Seq<u8> {
    key + seq![(user.len() % 256) as u8] + user + seq![(pass.len() % 256) as u8] + pass
}

pub fn serialize_signin_credentials(key: &EphemeralKey, username: &str, password: &str) -> (r: Vec<u8>)
    ensures
        r@ == credentials_blob(key.bytes(), username.spec_bytes(), password.spec_bytes()),
{
    let mut data: Vec<u8> = Vec::new();
    data.extend_from_slice(key.raw());
    let u = username.as_bytes();
    data.push((u.len() % 256) as u8);
    data.extend_from_slice(u);
    let p = password.as_bytes();
    data.push((p.len() % 256) as u8);
    data.extend_from_slice(p);
    proof {
        assert(data@ =~= credentials_blob(key.bytes(), username.spec_bytes(), password.spec_bytes()));
    }
    data
}

/// The private keys made for a sign-in, as PKCS#8 DER.
pub struct PrivateKeys {
    pub private_auth_key: Vec<u8>,
    pub private_license_key: Vec<u8>,
}

/// `text` is base64 of an IV-prefixed AES ciphertext that decrypts under `key` to `plain`.
pub open spec fn wraps(text: Seq<char>, key: Seq<u8>, plain: Seq<u8>) -> bool {
    exists|e: Seq<u8>|
        #![trigger base64_encode(e)]
        text == base64_encode(e) && e.len() >= IV_LEN && aes128_cbc_decrypt_of(key, iv_of(e), body_of(e)) == Some(plain)
}

fn wrap_key(rng: &mut Rng, key: &EphemeralKey, plain: &Vec<u8>) -> (r: String)
    ensures
        wraps(r@, key.bytes(), plain@),
{
    let e = encrypt_aes(rng, key.raw(), plain.as_slice());
    let r = b64(e.as_slice());
    proof {
        assert(e@.len() >= IV_LEN);
    }
    r
}

/// The sign-in data: the credentials blob encrypted to the auth certificate, and two
/// fresh key pairs whose private halves are wrapped under the ephemeral key.
pub fn make_sign_in_data(
    rng: &mut Rng,
    key: &EphemeralKey,
    auth_certificate: &[u8],
    username: &str,
    password: &str,
) -> (r: Result<(SignInData, PrivateKeys), CryptoError>)
    ensures
        subject_public_key_of(auth_certificate@) is None ==> r == Err::<(SignInData, PrivateKeys), CryptoError>(
            CryptoError::BadCertificate,
        ),
        subject_public_key_of(auth_certificate@) matches Some(k) ==> (is_rsa_pkcs1_public_key(k)
            && credentials_blob(key.bytes(), username.spec_bytes(), password.spec_bytes()).len() + 11
            <= rsa_modulus_bytes_of(k) ==> r is Ok),
        r matches Ok((d, k)) ==> wraps(d.encrypted_private_auth_key@, key.bytes(), k.private_auth_key@)
            && wraps(d.encrypted_private_license_key@, key.bytes(), k.private_license_key@),
        r matches Ok((d, k)) ==> d.public_auth_key@ == base64_encode(rsa_public_der_of(k.private_auth_key@))
            && d.public_license_key@ == base64_encode(rsa_public_der_of(k.private_license_key@))
            && is_rsa_pkcs8_key(k.private_auth_key@) && is_rsa_pkcs8_key(k.private_license_key@),
{
    let blob = serialize_signin_credentials(key, username, password);
    let encrypted_credentials = match encrypt_with_cert(rng, auth_certificate, blob.as_slice()) {
        Ok(c) => c,
        Err(e) => return Err(e),
    };
    let (public_auth_key, private_auth_key) = match make_keypair(rng) {
        Ok(p) => p,
        Err(e) => return Err(e),
    };
    let encrypted_private_auth_key = wrap_key(rng, key, &private_auth_key);
    let (public_license_key, private_license_key) = match make_keypair(rng) {
        Ok(p) => p,
        Err(e) => return Err(e),
    };
    let encrypted_private_license_key = wrap_key(rng, key, &private_license_key);
    let data = SignInData {
        sign_in_data: b64(encrypted_credentials.as_slice()),
        public_auth_key: b64(public_auth_key.as_slice()),
        encrypted_private_auth_key,
        public_license_key: b64(public_license_key.as_slice()),
        encrypted_private_license_key,
    };
    Ok((data, PrivateKeys { private_auth_key, private_license_key }))
}

/// The sign-in methods of this client. Only anonymous sign-in has credentials; the other
/// variant keeps room for methods that would carry their own.
pub enum SignInMethod {
    Anonymous,
    _Dummy(String),
}

/// User name and password of a sign-in.
pub struct SignInCredentials {
    pub username: String,
    pub password: String,
}

pub fn is_sign_in_method_available(auth_service: &AdobeAuthServiceInfo, method: &str) -> (r: bool)
    ensures
        r <==> exists|i: int|
            0 <= i < auth_service.sign_in_methods@.len() && (#[trigger] auth_service.sign_in_methods@[i])@
                == method@,
{
    let methods = &auth_service.sign_in_methods;
    let mut i: usize = 0;
    while i < methods.len()
        invariant
            methods@ == auth_service.sign_in_methods@,
            i <= methods@.len(),
            forall|j: int| 0 <= j < i ==> (#[trigger] methods@[j])@ != method@,
        decreases methods@.len() - i,
    {
        if same_text(methods[i].as_str(), method) {
            proof {
                assert(auth_service.sign_in_methods@[i as int]@ == method@);
            }
            return true;
        }
        i += 1;
    }
    false
}

/// The method's name in the service description.
pub fn sign_in_method_to_method_name(sign_in_method: &SignInMethod) -> (r: Option<&'static str>)
    ensures
        sign_in_method is Anonymous ==> (r matches Some(n) && n@ == "anonymous"@),
        sign_in_method is _Dummy ==> r is None,
{
    match sign_in_method {
        SignInMethod::Anonymous => Some("anonymous"),
        SignInMethod::_Dummy(_) => None,
    }
}

/// The credentials of a method that the service offers: user `anonymous` with an empty
/// password for anonymous sign-in.
pub fn sign_in_method_to_credentials(
    auth_service: &AdobeAuthServiceInfo,
    sign_in_method: &SignInMethod,
) -> (r: Result<SignInCredentials, AccountError>)
    ensures
        sign_in_method is _Dummy ==> r matches Err(AccountError::MethodUnsupported),
        sign_in_method is Anonymous ==> (r is Ok <==> exists|i: int|
            0 <= i < auth_service.sign_in_methods@.len() && (#[trigger] auth_service.sign_in_methods@[i])@
                == "anonymous"@),
        r matches Ok(c) ==> c.username@ == "anonymous"@ && c.password@ == ""@,
{
    let method = match sign_in_method_to_method_name(sign_in_method) {
        Some(m) => m,
        None => return Err(AccountError::MethodUnsupported),
    };
    if !is_sign_in_method_available(auth_service, method) {
        return Err(AccountError::MethodUnavailable(String::from_str(method)));
    }
    Ok(SignInCredentials { username: String::from_str("anonymous"), password: String::from_str("") })
}

/// The account's keys and certificates.
pub struct UserCredentials {
    pub user: String,
    pub private_auth_key: Vec<u8>,
    pub user_certificate: Vec<u8>,
    pub private_license_key: Vec<u8>,
    pub license_certificate: Vec<u8>,
}

/// What the sign-in returned can be unwrapped with the ephemeral key: the bundle is
/// base64 and opens to a one-certificate chain, the license key unwraps, and the license
/// certificate is base64.
pub open spec fn unwraps(key: Seq<u8>, c: Credentials) -> bool {
    &&& exists|der: Seq<u8>|
        #![trigger base64_encode(der)]
        base64_encode(der) == c.pkcs12@ && (pkcs12_key_chain_of(der, base64_encode(key)) matches Some(kc)
            && kc.1.len() == 1)
    &&& exists|e: Seq<u8>|
        #![trigger base64_encode(e)]
        base64_encode(e) == c.encrypted_private_license_key@ && e.len() >= IV_LEN && aes128_cbc_decrypt_of(
            key,
            iv_of(e),
            body_of(e),
        ) is Some
    &&& exists|cert: Seq<u8>| #[trigger] base64_encode(cert) == c.license_certificate@
}

/// The account's credentials are what the sign-in answer unwraps to under the key: the
/// server's auth key and certificate from the bundle, the unwrapped license key, and the
/// decoded license certificate.
pub open spec fn signed_in(u: UserCredentials, key: Seq<u8>, c: Credentials) -> bool {
    &&& u.user@ == c.user@
    &&& exists|der: Seq<u8>|
        #![trigger base64_encode(der)]
        base64_encode(der) == c.pkcs12@ && pkcs12_key_chain_of(der, base64_encode(key)) == Some(
            (u.private_auth_key@, seq![u.user_certificate@]),
        )
    &&& wraps(c.encrypted_private_license_key@, key, u.private_license_key@)
    &&& base64_encode(u.license_certificate@) == c.license_certificate@
}

/// Unwraps what the sign-in returned: the PKCS#12 bundle, opened with the base64 of the
/// ephemeral key, gives the private auth key and the user certificate; the license key
/// is decrypted with the ephemeral key. The server's keys are the ones kept.
pub fn finish_sign_in(key: &EphemeralKey, credentials: Credentials) -> (r: Result<UserCredentials, AccountError>)
    ensures
        r is Ok <==> unwraps(key.bytes(), credentials),
        r matches Ok(u) ==> signed_in(u, key.bytes(), credentials),
        r matches Ok(u) ==> {
            &&& u.user@ == credentials.user@
            &&& exists|der: Seq<u8>|
                #![trigger base64_encode(der)]
                base64_encode(der) == credentials.pkcs12@ && pkcs12_key_chain_of(der, base64_encode(key.bytes()))
                    == Some((u.private_auth_key@, seq![u.user_certificate@]))
            &&& wraps(credentials.encrypted_private_license_key@, key.bytes(), u.private_license_key@)
            &&& base64_encode(u.license_certificate@) == credentials.license_certificate@
        },
{
    let password = b64(key.raw());
    let ghost c = credentials;
    let pkcs_der = match unb64(credentials.pkcs12.as_str()) {
        Ok(d) => d,
        Err(_) => return Err(AccountError::NotBase64),
    };
    proof {
        lemma_base64_round_trip(pkcs_der@);
    }
    let parsed = match parse_pkcs12(pkcs_der.as_slice(), password.as_str()) {
        Ok(p) => p,
        Err(e) => return Err(AccountError::Crypto(e)),
    };
    let wrapped = match unb64(credentials.encrypted_private_license_key.as_str()) {
        Ok(d) => d,
        Err(_) => return Err(AccountError::NotBase64),
    };
    proof {
        lemma_base64_round_trip(wrapped@);
    }
    let private_license_key = match decrypt_aes(key.raw(), wrapped.as_slice()) {
        Ok(k) => k,
        Err(e) => return Err(AccountError::Aes(e)),
    };
    let license_certificate = match unb64(credentials.license_certificate.as_str()) {
        Ok(d) => d,
        Err(_) => return Err(AccountError::NotBase64),
    };
    proof {
        assert(unwraps(key.bytes(), c));
    }
    proof {
        let chain = pkcs12_key_chain_of(pkcs_der@, password@)->0;
        assert(chain.1.len() == 1);
        assert(chain.1 =~= seq![parsed.cert@]);
        assert(wrapped@.len() >= IV_LEN);
    }
    Ok(UserCredentials {
        user: credentials.user,
        private_auth_key: parsed.pkey,
        user_certificate: parsed.cert,
        private_license_key,
        license_certificate,
    })
}

} // verus!
