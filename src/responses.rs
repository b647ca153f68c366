use vstd::prelude::*;
use xmltree::{Element, XMLNode};
use crate::http::attribute_value;
use crate::xml::{child_text, child_text_of, find_child, first_named_child, element_text, node_element, same_text, text_content, trim, MissingField};

verus! {

/// Why a response document does not have the expected shape.
pub enum ShapeError {
    /// A child element or attribute is missing.
    Missing(String),
    /// A field holds text that is not of its type.
    Invalid(String),
}

fn missing(m: MissingField) -> (r: ShapeError)
    ensures
        r matches ShapeError::Missing(n) && n@ == m.name@,
{
    ShapeError::Missing(m.name)
}

pub open spec fn has_text(e: Element, name: Seq<char>, value: String) -> bool {
    child_text_of(e, name) == Some(value@)
}

/// The activation service's description.
pub struct ActivationServiceInfo {
    pub auth_url: String,
    pub user_info_url: String,
    pub certificate: String,
}

impl ActivationServiceInfo {
    pub fn from_xml(root: &Element) -> (r: Result<Self, ShapeError>)
        ensures
            r is Ok <==> child_text_of(*root, "authURL"@) is Some && child_text_of(*root, "userInfoURL"@)
                is Some && child_text_of(*root, "certificate"@) is Some,
            r matches Ok(v) ==> has_text(*root, "authURL"@, v.auth_url) && has_text(
                *root,
                "userInfoURL"@,
                v.user_info_url,
            ) && has_text(*root, "certificate"@, v.certificate),
    {
        let auth_url = match child_text(root, "authURL") {
            Ok(t) => t,
            Err(m) => return Err(missing(m)),
        };
        let user_info_url = match child_text(root, "userInfoURL") {
            Ok(t) => t,
            Err(m) => return Err(missing(m)),
        };
        let certificate = match child_text(root, "certificate") {
            Ok(t) => t,
            Err(m) => return Err(missing(m)),
        };
        Ok(ActivationServiceInfo { auth_url, user_info_url, certificate })
    }
}

/// One sign-in method that the authentication service offers.
pub struct SignInMethod {
    pub method: String,
    pub method_type: String,
    pub name: String,
}

/// The element has an attribute with this local name and value.
pub open spec fn has_attribute(e: Element, name: Seq<char>, value: Seq<char>) -> bool {
    exists|k: String| #[trigger] e.attributes@.contains_key(k) && k@ == name && e.attributes@[k]@ == value
}

pub open spec fn sign_in_method_from(v: SignInMethod, e: Element) -> bool {
    &&& has_attribute(e, "method"@, v.method@)
    &&& has_attribute(e, "type"@, v.method_type@)
    &&& v.name@ == trim(text_content(e.children@))
}

impl SignInMethod {
    pub fn from_xml(e: &Element) -> (r: Result<Self, ShapeError>)
        ensures
            r matches Ok(v) ==> sign_in_method_from(v, *e),
    {
        let method = match attribute_value(e, "method") {
            Some(v) => v,
            None => return Err(ShapeError::Missing(String::from_str("method"))),
        };
        let method_type = match attribute_value(e, "type") {
            Some(v) => v,
            None => return Err(ShapeError::Missing(String::from_str("type"))),
        };
        Ok(SignInMethod { method, method_type, name: element_text(e) })
    }
}

/// The child elements with this local name, in document order.
pub open spec fn named_children(cs: Seq<XMLNode>, name: Seq<char>) -> Seq<Element>
    decreases cs.len(),
{
    if cs.len() == 0 {
        Seq::empty()
    } else {
        let rest = named_children(cs.drop_last(), name);
        match cs.last() {
            XMLNode::Element(c) => if c.name@ == name {
                rest.push(c)
            } else {
                rest
            },
            _ => rest,
        }
    }
}

/// The methods are read, in order, from the `signInMethod` children of `e`.
pub open spec fn methods_from(v: SignInMethods, e: Element) -> bool {
    &&& v.sign_in_methods@.len() == named_children(e.children@, "signInMethod"@).len()
    &&& forall|i: int|
        0 <= i < v.sign_in_methods@.len() ==> sign_in_method_from(
            #[trigger] v.sign_in_methods@[i],
            named_children(e.children@, "signInMethod"@)[i],
        )
}

/// What the sign-in answer says: its user, bundle, wrapped license key and certificate.
pub open spec fn credentials_read(c: Credentials, root: Element) -> bool {
    &&& has_text(root, "user"@, c.user) && has_text(root, "pkcs12"@, c.pkcs12)
    &&& has_text(root, "encryptedPrivateLicenseKey"@, c.encrypted_private_license_key)
    &&& has_text(root, "licenseCertificate"@, c.license_certificate)
}

/// The list of sign-in methods.
pub struct SignInMethods {
    pub sign_in_methods: Vec<SignInMethod>,
}

impl SignInMethods {
    pub fn from_xml(e: &Element) -> (r: Result<Self, ShapeError>)
        ensures
            r matches Ok(v) ==> v.sign_in_methods@.len() == named_children(e.children@, "signInMethod"@).len()
                && forall|i: int|
                0 <= i < v.sign_in_methods@.len() ==> sign_in_method_from(
                    #[trigger] v.sign_in_methods@[i],
                    named_children(e.children@, "signInMethod"@)[i],
                ),
    {
        let mut out: Vec<SignInMethod> = Vec::new();
        let mut i: usize = 0;
        proof {
            assert(e.children@.subrange(0, 0) =~= Seq::<XMLNode>::empty());
        }
        while i < e.children.len()
            invariant
                i <= e.children@.len(),
                out@.len() == named_children(e.children@.subrange(0, i as int), "signInMethod"@).len(),
                forall|j: int|
                    0 <= j < out@.len() ==> sign_in_method_from(
                        #[trigger] out@[j],
                        named_children(e.children@.subrange(0, i as int), "signInMethod"@)[j],
                    ),
            decreases e.children@.len() - i,
        {
            proof {
                assert(e.children@.subrange(0, i + 1).drop_last() =~= e.children@.subrange(0, i as int));
            }
            match &e.children[i] {
                XMLNode::Element(c) => {
                    if same_text(c.name.as_str(), "signInMethod") {
                        let m = match SignInMethod::from_xml(c) {
                            Ok(m) => m,
                            Err(err) => return Err(err),
                        };
                        out.push(m);
                    }
                },
                _ => {},
            }
            i += 1;
        }
        proof {
            assert(e.children@.subrange(0, e.children@.len() as int) =~= e.children@);
        }
        Ok(SignInMethods { sign_in_methods: out })
    }
}

/// The authentication service's description.
pub struct AuthenticationServiceInfo {
    pub auth_url: String,
    pub certificate: String,
    pub sign_in_methods: SignInMethods,
}

impl AuthenticationServiceInfo {
    pub fn from_xml(root: &Element) -> (r: Result<Self, ShapeError>)
        ensures
            r matches Ok(v) ==> has_text(*root, "authURL"@, v.auth_url) && has_text(
                *root,
                "certificate"@,
                v.certificate,
            ) && first_named_child(*root, "signInMethods"@) is Some && methods_from(
                v.sign_in_methods,
                first_named_child(*root, "signInMethods"@)->0,
            ),
            child_text_of(*root, "authURL"@) is None ==> r is Err,
            child_text_of(*root, "certificate"@) is None ==> r is Err,
            first_named_child(*root, "signInMethods"@) is None ==> r is Err,
    {
        let auth_url = match child_text(root, "authURL") {
            Ok(t) => t,
            Err(m) => return Err(missing(m)),
        };
        let certificate = match child_text(root, "certificate") {
            Ok(t) => t,
            Err(m) => return Err(missing(m)),
        };
        let methods = match find_child(root, "signInMethods") {
            Some(c) => match SignInMethods::from_xml(c) {
                Ok(m) => m,
                Err(e) => return Err(e),
            },
            None => return Err(ShapeError::Missing(String::from_str("signInMethods"))),
        };
        Ok(AuthenticationServiceInfo { auth_url, certificate, sign_in_methods: methods })
    }
}

/// What the sign-in returns.
pub struct Credentials {
    pub user: String,
    pub pkcs12: String,
    pub encrypted_private_license_key: String,
    pub license_certificate: String,
}

impl Credentials {
    pub fn from_xml(root: &Element) -> (r: Result<Self, ShapeError>)
        ensures
            r is Ok <==> child_text_of(*root, "user"@) is Some && child_text_of(*root, "pkcs12"@) is Some
                && child_text_of(*root, "encryptedPrivateLicenseKey"@) is Some && child_text_of(
                *root,
                "licenseCertificate"@,
            ) is Some,
            r matches Ok(v) ==> has_text(*root, "user"@, v.user) && has_text(*root, "pkcs12"@, v.pkcs12)
                && has_text(*root, "encryptedPrivateLicenseKey"@, v.encrypted_private_license_key)
                && has_text(*root, "licenseCertificate"@, v.license_certificate),
    {
        let user = match child_text(root, "user") {
            Ok(t) => t,
            Err(m) => return Err(missing(m)),
        };
        let pkcs12 = match child_text(root, "pkcs12") {
            Ok(t) => t,
            Err(m) => return Err(missing(m)),
        };
        let encrypted_private_license_key = match child_text(root, "encryptedPrivateLicenseKey") {
            Ok(t) => t,
            Err(m) => return Err(missing(m)),
        };
        let license_certificate = match child_text(root, "licenseCertificate") {
            Ok(t) => t,
            Err(m) => return Err(missing(m)),
        };
        Ok(Credentials { user, pkcs12, encrypted_private_license_key, license_certificate })
    }
}

/// What the activation returns.
pub struct ActivationToken {
    pub device: String,
    pub fingerprint: String,
    pub device_type: String,
    pub activation_url: String,
    pub user: String,
    pub signature: String,
}

impl ActivationToken {
    pub fn from_xml(root: &Element) -> (r: Result<Self, ShapeError>)
        ensures
            r is Ok <==> child_text_of(*root, "device"@) is Some && child_text_of(*root, "fingerprint"@)
                is Some && child_text_of(*root, "deviceType"@) is Some && child_text_of(
                *root,
                "activationURL"@,
            ) is Some && child_text_of(*root, "user"@) is Some && child_text_of(*root, "signature"@)
                is Some,
            r matches Ok(v) ==> has_text(*root, "device"@, v.device) && has_text(
                *root,
                "fingerprint"@,
                v.fingerprint,
            ) && has_text(*root, "deviceType"@, v.device_type) && has_text(
                *root,
                "activationURL"@,
                v.activation_url,
            ) && has_text(*root, "user"@, v.user) && has_text(*root, "signature"@, v.signature),
    {
        let device = match child_text(root, "device") {
            Ok(t) => t,
            Err(m) => return Err(missing(m)),
        };
        let fingerprint = match child_text(root, "fingerprint") {
            Ok(t) => t,
            Err(m) => return Err(missing(m)),
        };
        let device_type = match child_text(root, "deviceType") {
            Ok(t) => t,
            Err(m) => return Err(missing(m)),
        };
        let activation_url = match child_text(root, "activationURL") {
            Ok(t) => t,
            Err(m) => return Err(missing(m)),
        };
        let user = match child_text(root, "user") {
            Ok(t) => t,
            Err(m) => return Err(missing(m)),
        };
        let signature = match child_text(root, "signature") {
            Ok(t) => t,
            Err(m) => return Err(missing(m)),
        };
        Ok(ActivationToken { device, fingerprint, device_type, activation_url, user, signature })
    }
}

} // verus!

verus! {

pub open spec fn is_digit(c: char) -> bool {
    '0' <= c <= '9'
}

/// The value of a string of decimal digits.
pub open spec fn decimal_value(s: Seq<char>) -> int
    decreases s.len(),
{
    if s.len() == 0 {
        0
    } else {
        decimal_value(s.drop_last()) * 10 + (s.last() as int - '0' as int)
    }
}

pub open spec fn all_digits(s: Seq<char>) -> bool {
    forall|i: int| 0 <= i < s.len() ==> is_digit(#[trigger] s[i])
}

proof fn lemma_decimal_monotone(s: Seq<char>, i: int)
    requires
        all_digits(s),
        0 <= i <= s.len(),
    ensures
        0 <= decimal_value(s.subrange(0, i)) <= decimal_value(s),
    decreases s.len() - i,
{
    if i < s.len() {
        lemma_decimal_monotone(s, i + 1);
        assert(s.subrange(0, i + 1).drop_last() =~= s.subrange(0, i));
        assert(is_digit(s[i]));
    } else {
        assert(s.subrange(0, i) =~= s);
        lemma_decimal_nonneg(s);
    }
}

proof fn lemma_decimal_nonneg(s: Seq<char>)
    requires
        all_digits(s),
    ensures
        decimal_value(s) >= 0,
    decreases s.len(),
{
    if s.len() > 0 {
        assert(all_digits(s.drop_last())) by {
            assert forall|i: int| 0 <= i < s.drop_last().len() implies is_digit(#[trigger] s.drop_last()[i]) by {
                assert(is_digit(s[i]));
            }
        }
        lemma_decimal_nonneg(s.drop_last());
        assert(is_digit(s[s.len() - 1]));
    }
}

/// Reads an unsigned decimal number that fits in 32 bits.
pub fn parse_u32(s: &str) -> (r: Option<u32>)
    ensures
        r is Some <==> s@.len() > 0 && all_digits(s@) && decimal_value(s@) <= u32::MAX,
        r matches Some(v) ==> v == decimal_value(s@),
{
    let cs = crate::xml::chars_of(s);
    if cs.len() == 0 {
        return None;
    }
    let mut acc: u64 = 0;
    let mut i: usize = 0;
    proof {
        assert(s@.subrange(0, 0) =~= Seq::<char>::empty());
    }
    while i < cs.len()
        invariant
            cs@ == s@,
            i <= cs@.len(),
            acc == decimal_value(s@.subrange(0, i as int)),
            acc <= u32::MAX,
            all_digits(s@.subrange(0, i as int)),
        decreases cs@.len() - i,
    {
        let c = cs[i];
        proof {
            assert(s@.subrange(0, i + 1).drop_last() =~= s@.subrange(0, i as int));
        }
        if c < '0' || c > '9' {
            proof {
                assert(!is_digit(s@[i as int]));
            }
            return None;
        }
        let d = (c as u32 - '0' as u32) as u64;
        acc = acc * 10 + d;
        proof {
            assert(all_digits(s@.subrange(0, i + 1))) by {
                assert forall|j: int| 0 <= j < i + 1 implies is_digit(#[trigger] s@.subrange(0, i + 1)[j]) by {
                    if j < i {
                        assert(s@.subrange(0, i + 1)[j] == s@.subrange(0, i as int)[j]);
                    }
                }
            }
        }
        if acc > 4294967295u64 {
            proof {
                if all_digits(s@) {
                    lemma_decimal_monotone(s@, i + 1);
                }
            }
            return None;
        }
        i += 1;
    }
    proof {
        assert(s@.subrange(0, s@.len() as int) =~= s@);
    }
    Some(acc as u32)
}

/// Reads `true`/`1` or `false`/`0`.
pub fn parse_bool(s: &str) -> (r: Option<bool>)
    ensures
        r == if s@ == "true"@ || s@ == "1"@ {
            Some(true)
        } else if s@ == "false"@ || s@ == "0"@ {
            Some(false)
        } else {
            None::<bool>
        },
{
    if same_text(s, "true") || same_text(s, "1") {
        Some(true)
    } else if same_text(s, "false") || same_text(s, "0") {
        Some(false)
    } else {
        None
    }
}

pub open spec fn encrypted_key_ok(e: Element) -> bool {
    exists|v: Seq<char>| #[trigger] has_attribute(e, "keyInfo"@, v)
}

pub open spec fn u32_text(s: Seq<char>) -> bool {
    s.len() > 0 && all_digits(s) && decimal_value(s) <= u32::MAX
}

pub open spec fn bool_text(s: Seq<char>) -> bool {
    s == "true"@ || s == "1"@ || s == "false"@ || s == "0"@
}

pub open spec fn present(e: Element, name: Seq<char>) -> bool {
    child_text_of(e, name) is Some
}

pub open spec fn license_token_ok(e: Element) -> bool {
    &&& present(e, "user"@) && present(e, "resource"@) && present(e, "resourceItemType"@)
    &&& present(e, "deviceType"@) && present(e, "device"@) && present(e, "voucher"@)
    &&& present(e, "licenseURL"@) && present(e, "operatorURL"@) && present(e, "fulfillment"@)
    &&& present(e, "distributor"@) && present(e, "model"@) && present(e, "signature"@)
    &&& first_named_child(e, "encryptedKey"@) is Some && encrypted_key_ok(first_named_child(e, "encryptedKey"@)->0)
}

pub open spec fn resource_item_ok(e: Element) -> bool {
    &&& present(e, "resource"@) && present(e, "src"@) && present(e, "downloadType"@)
    &&& present(e, "resourceItem"@) && u32_text(child_text_of(e, "resourceItem"@)->0)
    &&& first_named_child(e, "licenseToken"@) is Some && license_token_ok(first_named_child(e, "licenseToken"@)->0)
}

pub open spec fn notify_ok(e: Element) -> bool {
    present(e, "notifyURL"@)
}

/// Every `resourceItemInfo` and `notify` child reads, and the flags are booleans.
pub open spec fn fulfillment_result_ok(e: Element) -> bool {
    &&& present(e, "fulfillment"@)
    &&& present(e, "returnable"@) && bool_text(child_text_of(e, "returnable"@)->0)
    &&& present(e, "initial"@) && bool_text(child_text_of(e, "initial"@)->0)
    &&& forall|i: int|
        0 <= i < named_children(e.children@, "resourceItemInfo"@).len() ==> resource_item_ok(
            #[trigger] named_children(e.children@, "resourceItemInfo"@)[i],
        )
    &&& forall|i: int|
        0 <= i < named_children(e.children@, "notify"@).len() ==> notify_ok(
            #[trigger] named_children(e.children@, "notify"@)[i],
        )
}

/// The fulfillment answer reads.
pub open spec fn envelope_ok(root: Element) -> bool {
    first_named_child(root, "fulfillmentResult"@) is Some && fulfillment_result_ok(
        first_named_child(root, "fulfillmentResult"@)->0,
    )
}

/// The content key, wrapped under the license key, as base64 text.
pub struct EncryptedKey {
    pub key_info: String,
    pub key: String,
}

impl EncryptedKey {
    pub fn from_xml(e: &Element) -> (r: Result<Self, ShapeError>)
        ensures
            r is Ok <==> encrypted_key_ok(*e),
            r matches Ok(v) ==> has_attribute(*e, "keyInfo"@, v.key_info@) && v.key@ == trim(
                text_content(e.children@),
            ),
    {
        let key_info = match attribute_value(e, "keyInfo") {
            Some(v) => v,
            None => return Err(ShapeError::Missing(String::from_str("keyInfo"))),
        };
        proof {
            assert(has_attribute(*e, "keyInfo"@, key_info@));
        }
        Ok(EncryptedKey { key_info, key: element_text(e) })
    }
}

/// The operator's license for one resource.
pub struct LicenseToken {
    pub user: String,
    pub resource: String,
    pub resource_item_type: String,
    pub device_type: String,
    pub device: String,
    pub voucher: String,
    pub license_url: String,
    pub operator_url: String,
    pub fulfillment: String,
    pub distributor: String,
    pub encrypted_key: EncryptedKey,
    pub model: String,
    pub signature: String,
}

pub open spec fn license_token_from(v: LicenseToken, e: Element) -> bool {
    &&& has_text(e, "user"@, v.user) && has_text(e, "resource"@, v.resource)
    &&& has_text(e, "resourceItemType"@, v.resource_item_type)
    &&& has_text(e, "deviceType"@, v.device_type) && has_text(e, "device"@, v.device)
    &&& has_text(e, "voucher"@, v.voucher) && has_text(e, "licenseURL"@, v.license_url)
    &&& has_text(e, "operatorURL"@, v.operator_url) && has_text(e, "fulfillment"@, v.fulfillment)
    &&& has_text(e, "distributor"@, v.distributor) && has_text(e, "model"@, v.model)
    &&& has_text(e, "signature"@, v.signature)
    &&& first_named_child(e, "encryptedKey"@) matches Some(k) && has_attribute(k, "keyInfo"@, v.encrypted_key.key_info@)
        && v.encrypted_key.key@ == trim(text_content(k.children@))
}

impl LicenseToken {
    pub fn from_xml(e: &Element) -> (r: Result<Self, ShapeError>)
        ensures
            r is Ok <==> license_token_ok(*e),
            r matches Ok(v) ==> license_token_from(v, *e),
    {
        let user = match child_text(e, "user") { Ok(t) => t, Err(m) => return Err(missing(m)) };
        let resource = match child_text(e, "resource") { Ok(t) => t, Err(m) => return Err(missing(m)) };
        let resource_item_type = match child_text(e, "resourceItemType") { Ok(t) => t, Err(m) => return Err(missing(m)) };
        let device_type = match child_text(e, "deviceType") { Ok(t) => t, Err(m) => return Err(missing(m)) };
        let device = match child_text(e, "device") { Ok(t) => t, Err(m) => return Err(missing(m)) };
        let voucher = match child_text(e, "voucher") { Ok(t) => t, Err(m) => return Err(missing(m)) };
        let license_url = match child_text(e, "licenseURL") { Ok(t) => t, Err(m) => return Err(missing(m)) };
        let operator_url = match child_text(e, "operatorURL") { Ok(t) => t, Err(m) => return Err(missing(m)) };
        let fulfillment = match child_text(e, "fulfillment") { Ok(t) => t, Err(m) => return Err(missing(m)) };
        let distributor = match child_text(e, "distributor") { Ok(t) => t, Err(m) => return Err(missing(m)) };
        let encrypted_key = match find_child(e, "encryptedKey") {
            Some(k) => match EncryptedKey::from_xml(k) {
                Ok(v) => v,
                Err(err) => return Err(err),
            },
            None => return Err(ShapeError::Missing(String::from_str("encryptedKey"))),
        };
        let model = match child_text(e, "model") { Ok(t) => t, Err(m) => return Err(missing(m)) };
        let signature = match child_text(e, "signature") { Ok(t) => t, Err(m) => return Err(missing(m)) };
        Ok(LicenseToken {
            user,
            resource,
            resource_item_type,
            device_type,
            device,
            voucher,
            license_url,
            operator_url,
            fulfillment,
            distributor,
            encrypted_key,
            model,
            signature,
        })
    }
}

/// One resource of a fulfillment result.
pub struct ResourceItemInfo {
    pub resource: String,
    pub resource_item: u32,
    pub src: String,
    pub download_type: String,
    pub license_token: LicenseToken,
}

pub open spec fn resource_item_from(v: ResourceItemInfo, e: Element) -> bool {
    &&& has_text(e, "resource"@, v.resource)
    &&& child_text_of(e, "resourceItem"@) matches Some(t) && v.resource_item == decimal_value(t)
    &&& has_text(e, "src"@, v.src)
    &&& has_text(e, "downloadType"@, v.download_type)
    &&& first_named_child(e, "licenseToken"@) matches Some(l) && license_token_from(v.license_token, l)
}

impl ResourceItemInfo {
    pub fn from_xml(e: &Element) -> (r: Result<Self, ShapeError>)
        ensures
            r is Ok <==> resource_item_ok(*e),
            r matches Ok(v) ==> resource_item_from(v, *e),
    {
        let resource = match child_text(e, "resource") { Ok(t) => t, Err(m) => return Err(missing(m)) };
        let item_text = match child_text(e, "resourceItem") { Ok(t) => t, Err(m) => return Err(missing(m)) };
        let resource_item = match parse_u32(item_text.as_str()) {
            Some(v) => v,
            None => return Err(ShapeError::Invalid(String::from_str("resourceItem"))),
        };
        let src = match child_text(e, "src") { Ok(t) => t, Err(m) => return Err(missing(m)) };
        let download_type = match child_text(e, "downloadType") { Ok(t) => t, Err(m) => return Err(missing(m)) };
        let license_token = match find_child(e, "licenseToken") {
            Some(l) => match LicenseToken::from_xml(l) {
                Ok(v) => v,
                Err(err) => return Err(err),
            },
            None => return Err(ShapeError::Missing(String::from_str("licenseToken"))),
        };
        Ok(ResourceItemInfo { resource, resource_item, src, download_type, license_token })
    }
}

/// A notification address of a fulfillment result.
pub struct FulfillmentNotify {
    pub critical: Option<String>,
    pub notify_url: String,
}

impl FulfillmentNotify {
    pub fn from_xml(e: &Element) -> (r: Result<Self, ShapeError>)
        ensures
            r is Ok <==> notify_ok(*e),
            r matches Ok(v) ==> has_text(*e, "notifyURL"@, v.notify_url),
    {
        let critical = attribute_value(e, "critical");
        let notify_url = match child_text(e, "notifyURL") { Ok(t) => t, Err(m) => return Err(missing(m)) };
        Ok(FulfillmentNotify { critical, notify_url })
    }
}

/// The child at `i`, the last named child of the prefix up to it, is one of all the named
/// children.
proof fn failing_child(cs: Seq<XMLNode>, i: int, name: Seq<char>)
    requires
        0 <= i < cs.len(),
        cs[i] matches XMLNode::Element(c) && c.name@ == name,
    ensures
        ({
            let n = named_children(cs.subrange(0, i + 1), name);
            &&& n.len() >= 1
            &&& n.len() <= named_children(cs, name).len()
            &&& named_children(cs, name)[n.len() - 1] == n.last()
            &&& XMLNode::Element(n.last()) == cs[i]
        }),
{
    let sub = cs.subrange(0, i + 1);
    assert(sub.drop_last() =~= cs.subrange(0, i));
    assert(sub.last() == cs[i]);
    crate::epub::lemma_named_prefix(cs, i + 1, name);
    let n = named_children(sub, name);
    assert(named_children(cs, name).subrange(0, n.len() as int)[n.len() - 1] == n[n.len() - 1]);
}

/// The result of a fulfillment.
pub struct FulfillmentResult {
    pub fulfillment: String,
    pub returnable: bool,
    pub initial: bool,
    pub notify: Vec<FulfillmentNotify>,
    pub resources: Vec<ResourceItemInfo>,
}

impl FulfillmentResult {
    pub fn from_xml(e: &Element) -> (r: Result<Self, ShapeError>)
        ensures
            r is Ok <==> fulfillment_result_ok(*e),
            r matches Ok(v) ==> {
                &&& has_text(*e, "fulfillment"@, v.fulfillment)
                &&& v.resources@.len() == named_children(e.children@, "resourceItemInfo"@).len()
                &&& forall|i: int|
                    0 <= i < v.resources@.len() ==> resource_item_from(
                        #[trigger] v.resources@[i],
                        named_children(e.children@, "resourceItemInfo"@)[i],
                    )
            },
    {
        let fulfillment = match child_text(e, "fulfillment") { Ok(t) => t, Err(m) => return Err(missing(m)) };
        let returnable_text = match child_text(e, "returnable") { Ok(t) => t, Err(m) => return Err(missing(m)) };
        let returnable = match parse_bool(returnable_text.as_str()) {
            Some(b) => b,
            None => return Err(ShapeError::Invalid(String::from_str("returnable"))),
        };
        let initial_text = match child_text(e, "initial") { Ok(t) => t, Err(m) => return Err(missing(m)) };
        let initial = match parse_bool(initial_text.as_str()) {
            Some(b) => b,
            None => return Err(ShapeError::Invalid(String::from_str("initial"))),
        };
        let mut notify: Vec<FulfillmentNotify> = Vec::new();
        let mut resources: Vec<ResourceItemInfo> = Vec::new();
        let mut i: usize = 0;
        proof {
            assert(e.children@.subrange(0, 0) =~= Seq::<XMLNode>::empty());
        }
        while i < e.children.len()
            invariant
                i <= e.children@.len(),
                resources@.len() == named_children(e.children@.subrange(0, i as int), "resourceItemInfo"@).len(),
                forall|j: int|
                    0 <= j < resources@.len() ==> resource_item_from(
                        #[trigger] resources@[j],
                        named_children(e.children@.subrange(0, i as int), "resourceItemInfo"@)[j],
                    ),
                forall|j: int|
                    0 <= j < named_children(e.children@.subrange(0, i as int), "resourceItemInfo"@).len()
                        ==> resource_item_ok(
                        #[trigger] named_children(e.children@.subrange(0, i as int), "resourceItemInfo"@)[j],
                    ),
                forall|j: int|
                    0 <= j < named_children(e.children@.subrange(0, i as int), "notify"@).len() ==> notify_ok(
                        #[trigger] named_children(e.children@.subrange(0, i as int), "notify"@)[j],
                    ),
                present(*e, "fulfillment"@) && bool_text(child_text_of(*e, "returnable"@)->0) && present(
                    *e,
                    "returnable"@,
                ) && present(*e, "initial"@) && bool_text(child_text_of(*e, "initial"@)->0),
            decreases e.children@.len() - i,
        {
            proof {
                assert(e.children@.subrange(0, i + 1).drop_last() =~= e.children@.subrange(0, i as int));
            }
            match &e.children[i] {
                XMLNode::Element(c) => {
                    if same_text(c.name.as_str(), "resourceItemInfo") {
                        let item = match ResourceItemInfo::from_xml(c) {
                            Ok(v) => v,
                            Err(err) => {
                                proof {
                                    failing_child(e.children@, i as int, "resourceItemInfo"@);
                                }
                                return Err(err);
                            },
                        };
                        resources.push(item);
                    } else if same_text(c.name.as_str(), "notify") {
                        let n = match FulfillmentNotify::from_xml(c) {
                            Ok(v) => v,
                            Err(err) => {
                                proof {
                                    failing_child(e.children@, i as int, "notify"@);
                                }
                                return Err(err);
                            },
                        };
                        proof {
                            let sub = e.children@.subrange(0, i + 1);
                            assert(named_children(sub, "notify"@) == named_children(sub.drop_last(), "notify"@).push(
                                *c,
                            ));
                            assert(notify_ok(*c));
                            let prev = named_children(e.children@.subrange(0, i as int), "notify"@);
                            let next = named_children(sub, "notify"@);
                            assert forall|j: int| 0 <= j < next.len() implies notify_ok(#[trigger] next[j]) by {
                                if j < prev.len() {
                                    assert(next[j] == prev[j]);
                                } else {
                                    assert(next[j] == *c);
                                }
                            }
                        }
                        notify.push(n);
                    }
                },
                _ => {},
            }
            proof {
                reveal_strlit("notify");
                reveal_strlit("resourceItemInfo");
                assert("notify"@.len() != "resourceItemInfo"@.len());
                let sub = e.children@.subrange(0, i + 1);
                assert(sub.last() == e.children@[i as int]);
                if !(e.children@[i as int] matches XMLNode::Element(c) && c.name@ == "notify"@) {
                    assert(named_children(sub, "notify"@) == named_children(sub.drop_last(), "notify"@));
                }
            }
            i += 1;
        }
        proof {
            assert(e.children@.subrange(0, e.children@.len() as int) =~= e.children@);
        }
        Ok(FulfillmentResult { fulfillment, returnable, initial, notify, resources })
    }
}

/// The result's resources are read, in order, from the `resourceItemInfo` children of `fr`.
pub open spec fn envelope_from(v: Envelope, fr: Element) -> bool {
    &&& v.fulfillmen_result.resources@.len() == named_children(fr.children@, "resourceItemInfo"@).len()
    &&& forall|i: int|
        0 <= i < v.fulfillmen_result.resources@.len() ==> resource_item_from(
            #[trigger] v.fulfillmen_result.resources@[i],
            named_children(fr.children@, "resourceItemInfo"@)[i],
        )
}

/// The fulfillment response.
pub struct Envelope {
    pub fulfillmen_result: FulfillmentResult,
}

impl Envelope {
    pub fn from_xml(root: &Element) -> (r: Result<Self, ShapeError>)
        ensures
            r matches Ok(v) ==> (first_named_child(*root, "fulfillmentResult"@) matches Some(fr) && envelope_from(v, fr)),
            first_named_child(*root, "fulfillmentResult"@) is None ==> r is Err,
            r is Ok <==> envelope_ok(*root),
    {
        match find_child(root, "fulfillmentResult") {
            Some(c) => match FulfillmentResult::from_xml(c) {
                Ok(v) => Ok(Envelope { fulfillmen_result: v }),
                Err(e) => Err(e),
            },
            None => Err(ShapeError::Missing(String::from_str("fulfillmentResult"))),
        }
    }
}

} // verus!
