use vstd::prelude::*;
use vstd::string::StringExecFns;
use crate::account::{
    finish_sign_in, make_sign_in_data, services_info, sign_in_method_to_credentials, AccountError,
    AdobeServicesInfo, EphemeralKey, SignInMethod, UserCredentials,
};
use crate::adept::{activation_service_info_request, authentication_service_info_request, sign_in_request};
use crate::crypto::{make_signer, CryptoError};
use crate::fulfillment::{
    activate_device_request, activated_device, assemble_account, converted_from, convertible, fulfill,
    fulfillment_auth,
    fulfillment_result,
    init_license_service, Acsm, AdobeAccount, CreateAccountParams, FulfillError, Resource,
};
use crate::http::{accepted_root, parse_response, HttpMethod, HttpRequest, HttpResponse, ResponseError};
use crate::xml::{child_text_of, first_named_child};
use crate::crypto::is_rsa_pkcs8_key;
use crate::responses::{credentials_read, envelope_from, envelope_ok, has_attribute, named_children};
use crate::account::signed_in;
use crate::b64::base64_encode;
use xmltree::Element;
use crate::rand::Rng;
use crate::responses::{sign_in_method_from, ActivationServiceInfo, ActivationToken, AuthenticationServiceInfo, Credentials, Envelope, ShapeError};
use crate::signature::SignatureError;

verus! {

/// Why a step of an exchange failed.
pub enum FlowError {
    Response(ResponseError),
    Shape(ShapeError),
    Account(AccountError),
    Crypto(CryptoError),
    Signature(SignatureError),
    Fulfill(FulfillError),
}

/// Account creation, waiting for the answer to the request it last sent: services
/// discovery, then anonymous sign-in, then device activation.
pub enum AccountCreation {
    AwaitActivationInfo { params: CreateAccountParams },
    AwaitAuthInfo { params: CreateAccountParams, activation: ActivationServiceInfo },
    AwaitSignIn { params: CreateAccountParams, services: AdobeServicesInfo, key: EphemeralKey },
    AwaitActivation { params: CreateAccountParams, services: AdobeServicesInfo, credentials: UserCredentials },
}

/// What account creation does next.
pub enum AccountStep {
    /// Send the request and hand its answer back.
    Send(AccountCreation, HttpRequest),
    Done(AdobeAccount),
}

impl AccountCreation {
    /// Starts with the activation service's description.
    pub fn start(params: CreateAccountParams) -> (r: (AccountCreation, HttpRequest))
        ensures
            r.0 is AwaitActivationInfo,
            r.1.method == HttpMethod::Get,
            r.1.url@ == params.activation_url@ + "/ActivationServiceInfo"@,
    {
        let request = activation_service_info_request(params.activation_url.as_str());
        (AccountCreation::AwaitActivationInfo { params }, request)
    }

    /// Takes the answer to the last request and decides the next step.
    pub fn on_response(self, rng: &mut Rng, response: HttpResponse, expiration: &str) -> (r: Result<
        AccountStep,
        FlowError,
    >)
        ensures
            accepted_root(response) is None ==> r matches Err(FlowError::Response(_)),
            self is AwaitActivationInfo ==> (r matches Ok(AccountStep::Send(next, req)) ==> next is AwaitAuthInfo
                && next->AwaitAuthInfo_params == self->AwaitActivationInfo_params && req.method == HttpMethod::Get && req.url@ == next->AwaitAuthInfo_activation.auth_url@
                + "/AuthenticationServiceInfo"@ && root_text(response, "authURL"@) == Some(
                next->AwaitAuthInfo_activation.auth_url@,
            )),
            self is AwaitAuthInfo ==> (r matches Ok(AccountStep::Send(next, req)) ==> next is AwaitSignIn
                && next->AwaitSignIn_params == self->AwaitAuthInfo_params && req.method == HttpMethod::Post
                && req.url@ == next->AwaitSignIn_services.auth_service.auth_url@ + "/SignInDirect"@ && offers_anonymous(
                next->AwaitSignIn_services,
            ) && services_from(
                next->AwaitSignIn_services,
                self->AwaitAuthInfo_params,
                self->AwaitAuthInfo_activation,
                response,
            )),
            self is AwaitSignIn ==> (r matches Ok(AccountStep::Send(next, req)) ==> next is AwaitActivation
                && next->AwaitActivation_params == self->AwaitSignIn_params && next->AwaitActivation_services
                == self->AwaitSignIn_services && req.method == HttpMethod::Post && req.url@
                == self->AwaitSignIn_services.activation_url@ + "/Activate"@ && credentials_from(
                next->AwaitActivation_credentials,
                self->AwaitSignIn_key.bytes(),
                response,
            )),
            self is AwaitActivation ==> !(r matches Ok(AccountStep::Send(_, _))),
            r matches Ok(AccountStep::Done(account)) ==> match self {
                AccountCreation::AwaitActivation { params, services, credentials } => {
                    &&& root_text(response, "device"@) == Some(account.activated_device@)
                    &&& account.services.activation_url@ == services.activation_url@
                    &&& account.services.auth_url@ == services.auth_service.auth_url@
                    &&& account.services.auth_certificate@ == services.auth_service.auth_certificate@
                    &&& account.user_credentials == credentials
                    &&& account.device_info == params.device_info
                },
                _ => false,
            },
            self is AwaitActivation && root_text(response, "device"@) is Some && root_text(response, "fingerprint"@)
                is Some && root_text(response, "deviceType"@) is Some && root_text(response, "activationURL"@) is Some
                && root_text(response, "user"@) is Some && root_text(response, "signature"@) is Some ==> r matches Ok(
                AccountStep::Done(_),
            ),
            self is AwaitActivationInfo && root_text(response, "authURL"@) is Some && root_text(
                response,
                "userInfoURL"@,
            ) is Some && root_text(response, "certificate"@) is Some ==> r matches Ok(AccountStep::Send(_, _)),
    {
        let ghost resp = response;
        let root = match parse_response(response) {
            Ok(root) => root,
            Err(e) => return Err(FlowError::Response(e)),
        };
        proof {
            assert(accepted_root(resp) == Some(root));
        }
        match self {
            AccountCreation::AwaitActivationInfo { params } => {
                let activation = match ActivationServiceInfo::from_xml(&root) {
                    Ok(a) => a,
                    Err(e) => return Err(FlowError::Shape(e)),
                };
                let request = authentication_service_info_request(activation.auth_url.as_str());
                Ok(AccountStep::Send(AccountCreation::AwaitAuthInfo { params, activation }, request))
            },
            AccountCreation::AwaitAuthInfo { params, activation } => {
                let auth = match AuthenticationServiceInfo::from_xml(&root) {
                    Ok(a) => a,
                    Err(e) => return Err(FlowError::Shape(e)),
                };
                let ghost auth_methods = auth.sign_in_methods.sign_in_methods;
                let services = match services_info(params.activation_url.as_str(), activation, auth) {
                    Ok(s) => s,
                    Err(e) => return Err(FlowError::Account(e)),
                };
                let credentials = match sign_in_method_to_credentials(&services.auth_service, &SignInMethod::Anonymous) {
                    Ok(c) => c,
                    Err(e) => return Err(FlowError::Account(e)),
                };
                let key = EphemeralKey::generate(rng);
                let (data, _local_keys) = match make_sign_in_data(
                    rng,
                    &key,
                    services.auth_service.auth_certificate.as_slice(),
                    credentials.username.as_str(),
                    credentials.password.as_str(),
                ) {
                    Ok(d) => d,
                    Err(e) => return Err(FlowError::Crypto(e)),
                };
                let request = sign_in_request(services.auth_service.auth_url.as_str(), "anonymous", data);
                proof {
                    let i = choose|i: int|
                        0 <= i < services.auth_service.sign_in_methods@.len()
                            && (#[trigger] services.auth_service.sign_in_methods@[i])@ == "anonymous"@;
                    let sm = first_named_child(root, "signInMethods"@)->0;
                    assert(sign_in_method_from(
                        auth_methods@[i],
                        named_children(sm.children@, "signInMethod"@)[i],
                    ));
                    assert(advertises_anonymous(root));
                }
                Ok(AccountStep::Send(AccountCreation::AwaitSignIn { params, services, key }, request))
            },
            AccountCreation::AwaitSignIn { params, services, key } => {
                let answer = match Credentials::from_xml(&root) {
                    Ok(c) => c,
                    Err(e) => return Err(FlowError::Shape(e)),
                };
                let ghost read = answer;
                let credentials = match finish_sign_in(&key, answer) {
                    Ok(c) => c,
                    Err(e) => return Err(FlowError::Account(e)),
                };
                let signer = match make_signer(credentials.private_auth_key.as_slice()) {
                    Ok(s) => s,
                    Err(e) => return Err(FlowError::Crypto(e)),
                };
                let request = match activate_device_request(
                    rng,
                    &signer,
                    services.activation_url.as_str(),
                    credentials.user.as_str(),
                    &params.device_info,
                    expiration,
                ) {
                    Ok(r) => r,
                    Err(e) => return Err(FlowError::Signature(e)),
                };
                proof {
                    assert(credentials_read(read, root));
                }
                Ok(AccountStep::Send(AccountCreation::AwaitActivation { params, services, credentials }, request))
            },
            AccountCreation::AwaitActivation { params, services, credentials } => {
                let token = match ActivationToken::from_xml(&root) {
                    Ok(t) => t,
                    Err(e) => return Err(FlowError::Shape(e)),
                };
                let device = activated_device(token);
                Ok(AccountStep::Done(assemble_account(services, credentials, params.device_info, device)))
            },
        }
    }
}

/// The authentication answer lists a sign-in method `anonymous`.
pub open spec fn advertises_anonymous(root: Element) -> bool {
    &&& first_named_child(root, "signInMethods"@) is Some
    &&& exists|i: int|
        0 <= i < named_children(first_named_child(root, "signInMethods"@)->0.children@, "signInMethod"@).len()
            && has_attribute(
            #[trigger] named_children(first_named_child(root, "signInMethods"@)->0.children@, "signInMethod"@)[i],
            "method"@,
            "anonymous"@,
        )
}

/// The services are those of the parameters, the activation service's answer and the
/// authentication answer, which advertises anonymous sign-in.
pub open spec fn services_from(
    services: AdobeServicesInfo,
    params: CreateAccountParams,
    activation: ActivationServiceInfo,
    response: HttpResponse,
) -> bool {
    &&& services.activation_url@ == params.activation_url@
    &&& services.auth_service.auth_url@ == activation.auth_url@
    &&& root_text(response, "certificate"@) == Some(base64_encode(services.auth_service.auth_certificate@))
    &&& accepted_root(response) is Some && advertises_anonymous(accepted_root(response)->0)
}

/// The credentials are what the accepted sign-in answer unwraps to under the key.
pub open spec fn credentials_from(u: UserCredentials, key: Seq<u8>, response: HttpResponse) -> bool {
    &&& accepted_root(response) is Some
    &&& exists|c: Credentials| #[trigger] credentials_read(c, accepted_root(response)->0) && signed_in(u, key, c)
}

/// The authentication service offers anonymous sign-in.
pub open spec fn offers_anonymous(services: AdobeServicesInfo) -> bool {
    exists|i: int|
        0 <= i < services.auth_service.sign_in_methods@.len() && (#[trigger] services.auth_service.sign_in_methods@[
            i
        ])@ == "anonymous"@
}

/// The trimmed text of the named child of an accepted response's root.
pub open spec fn root_text(response: HttpResponse, name: Seq<char>) -> Option<Seq<char>> {
    match accepted_root(response) {
        Some(root) => child_text_of(root, name),
        None => None,
    }
}

/// The envelope is what the accepted response's `fulfillmentResult` holds.
pub open spec fn fulfilled_from(response: HttpResponse, env: Envelope) -> bool {
    &&& accepted_root(response) is Some
    &&& first_named_child(accepted_root(response)->0, "fulfillmentResult"@) is Some
    &&& envelope_from(env, first_named_child(accepted_root(response)->0, "fulfillmentResult"@)->0)
}

/// The fulfillment answer is accepted, reads, and every item in it can be converted.
pub open spec fn fulfillment_owed(response: HttpResponse) -> bool {
    &&& accepted_root(response) is Some
    &&& envelope_ok(accepted_root(response)->0)
    &&& forall|env: Envelope| #[trigger] fulfilled_from(response, env) ==> all_convertible(env)
}

/// Every item of the envelope can be converted.
pub open spec fn all_convertible(env: Envelope) -> bool {
    forall|i: int|
        0 <= i < env.fulfillmen_result.resources@.len() ==> convertible(#[trigger] env.fulfillmen_result.resources@[i])
}

/// The resources are the conversions of the envelope's items, in order.
pub open spec fn envelope_done(env: Envelope, resources: Seq<Resource>) -> bool {
    &&& resources.len() == env.fulfillmen_result.resources@.len()
    &&& forall|i: int|
        0 <= i < resources.len() ==> converted_from(#[trigger] resources[i], env.fulfillmen_result.resources@[i])
}

/// The fulfillment was waiting for its last answer, and the resources are the conversions
/// of that answer's items.
pub open spec fn done_with(state: AcsmFulfillment, response: HttpResponse, resources: Seq<Resource>) -> bool {
    &&& state is AwaitFulfill
    &&& exists|env: Envelope| #[trigger] envelope_done(env, resources) && fulfilled_from(response, env)
}

/// Fulfillment of an ACSM, waiting for the answer to the request it last sent: operator
/// authentication, license-service initialisation, then the fulfillment itself.
pub enum AcsmFulfillment {
    AwaitAuth,
    AwaitLicenseService,
    AwaitFulfill,
}

/// What fulfillment does next.
pub enum FulfillmentStep {
    Send(AcsmFulfillment, HttpRequest),
    Done(Vec<Resource>),
}

impl AcsmFulfillment {
    /// Starts with the unsigned operator authentication.
    pub fn start(acsm: &Acsm, account: &AdobeAccount) -> (r: (AcsmFulfillment, HttpRequest))
        ensures
            r.0 is AwaitAuth,
            r.1.method == HttpMethod::Post,
            r.1.url@ == acsm.operator() + "/Auth"@,
    {
        let request = fulfillment_auth(acsm, &account.user_credentials, account.services.auth_certificate.as_slice());
        (AcsmFulfillment::AwaitAuth, request)
    }

    /// Takes the answer to the last request and decides the next step.
    pub fn on_response(
        self,
        rng: &mut Rng,
        acsm: &Acsm,
        account: &AdobeAccount,
        response: HttpResponse,
        expiration: &str,
    ) -> (r: Result<FulfillmentStep, FlowError>)
        ensures
            accepted_root(response) is None ==> r matches Err(FlowError::Response(_)),
            accepted_root(response) is Some && !is_rsa_pkcs8_key(account.user_credentials.private_auth_key@)
                ==> r matches Err(FlowError::Crypto(_)),
            accepted_root(response) is Some && is_rsa_pkcs8_key(account.user_credentials.private_auth_key@) ==> match self {
                AcsmFulfillment::AwaitFulfill => r is Ok || r matches Err(FlowError::Shape(_)) || r matches Err(
                    FlowError::Fulfill(_),
                ),
                _ => r is Ok || r matches Err(FlowError::Signature(_)),
            },
            self is AwaitFulfill && is_rsa_pkcs8_key(account.user_credentials.private_auth_key@) && fulfillment_owed(
                response,
            ) ==> r matches Ok(FulfillmentStep::Done(_)),
            self is AwaitFulfill ==> (r matches Err(FlowError::Fulfill(_)) ==> exists|env: Envelope|
                #[trigger] fulfilled_from(response, env) && !all_convertible(env)),
            r matches Ok(FulfillmentStep::Send(next, req)) ==> match self {
                AcsmFulfillment::AwaitAuth => next is AwaitLicenseService && req.method == HttpMethod::Post
                    && req.url@ == account.services.activation_url@ + "/InitLicenseService"@,
                AcsmFulfillment::AwaitLicenseService => next is AwaitFulfill && req.method == HttpMethod::Post
                    && req.url@ == acsm.operator() + "/Fulfill"@,
                AcsmFulfillment::AwaitFulfill => false,
            },
            r matches Ok(FulfillmentStep::Done(resources)) ==> done_with(self, response, resources@),
    {
        let ghost resp = response;
        let root = match parse_response(response) {
            Ok(root) => root,
            Err(e) => return Err(FlowError::Response(e)),
        };
        proof {
            assert(accepted_root(resp) == Some(root));
        }
        let signer = match make_signer(account.user_credentials.private_auth_key.as_slice()) {
            Ok(s) => s,
            Err(e) => return Err(FlowError::Crypto(e)),
        };
        match self {
            AcsmFulfillment::AwaitAuth => {
                let request = match init_license_service(
                    rng,
                    &signer,
                    account.services.activation_url.as_str(),
                    account.user_credentials.user.as_str(),
                    acsm.operator_url(),
                    expiration,
                ) {
                    Ok(r) => r,
                    Err(e) => return Err(FlowError::Signature(e)),
                };
                Ok(FulfillmentStep::Send(AcsmFulfillment::AwaitLicenseService, request))
            },
            AcsmFulfillment::AwaitLicenseService => {
                let request = match fulfill(
                    rng,
                    &signer,
                    acsm,
                    &account.user_credentials,
                    &account.device_info,
                    account.activated_device.as_str(),
                ) {
                    Ok(r) => r,
                    Err(e) => return Err(FlowError::Signature(e)),
                };
                Ok(FulfillmentStep::Send(AcsmFulfillment::AwaitFulfill, request))
            },
            AcsmFulfillment::AwaitFulfill => {
                let envelope = match Envelope::from_xml(&root) {
                    Ok(e) => e,
                    Err(e) => return Err(FlowError::Shape(e)),
                };
                let ghost env = envelope;
                match fulfillment_result(envelope) {
                    Ok(f) => {
                        proof {
                            assert(envelope_done(env, f.resources@));
                            assert(first_named_child(root, "fulfillmentResult"@) is Some);
                            assert(fulfilled_from(resp, env));
                        }
                        Ok(FulfillmentStep::Done(f.resources))
                    },
                    Err(e) => {
                        proof {
                            assert(fulfilled_from(resp, env));
                            assert(!all_convertible(env));
                        }
                        Err(FlowError::Fulfill(e))
                    },
                }
            },
        }
    }
}

} // verus!
