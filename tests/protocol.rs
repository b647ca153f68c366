use adobededrmtools::adept::{
    activation_service_info_request, fulfillment_auth_request, sign_in_request, FulfillmentAuthData, SignInData,
};
use adobededrmtools::http::{
    make_get, make_post_serialized, make_url, parse_adept_error, parse_response, parse_response_inner,
    HttpMethod, HttpResponse, ResponseError,
};
use adobededrmtools::responses::{parse_bool, parse_u32, ActivationServiceInfo, Credentials, ShapeError};
use adobededrmtools::token::substitute_fulfillment_token;
use adobededrmtools::writer::{serialize_xml, text_element, XmlBody, XmlOut};

fn ok_response(body: &str) -> HttpResponse {
    HttpResponse {
        response_code: 200,
        content_type: "application/vnd.adobe.adept+xml".to_string(),
        body: body.as_bytes().to_vec(),
    }
}

#[test]
fn adept_error_is_parsed() {
    let e = parse_adept_error("E_ADEPT_MISSING_REQUEST_CONTENT_TYPE http://example/endpoint");
    assert_eq!(e.name, "E_ADEPT_MISSING_REQUEST_CONTENT_TYPE");
    assert_eq!(e.args, vec!["http://example/endpoint".to_string()]);
    let lone = parse_adept_error("E_ONLY");
    assert_eq!(lone.name, "E_ONLY");
    assert!(lone.args.is_empty());
    let spaced = parse_adept_error(" E a  b\t");
    assert_eq!(spaced.name, "E");
    assert_eq!(spaced.args, vec!["a".to_string(), "b".to_string()]);
    let two = parse_adept_error("A  B");
    assert_eq!(two.args, vec!["B".to_string()]);
    let blank = parse_adept_error("  ");
    assert_eq!(blank.name, "  ");
    assert!(blank.args.is_empty());
}

#[test]
fn error_response_becomes_adept_error() {
    let r = parse_response(ok_response(
        r#"<error data="E_ADEPT_MISSING_REQUEST_CONTENT_TYPE http://example/endpoint"/>"#,
    ));
    match r {
        Err(ResponseError::Adept(e)) => {
            assert_eq!(e.name, "E_ADEPT_MISSING_REQUEST_CONTENT_TYPE");
            assert_eq!(e.args, vec!["http://example/endpoint".to_string()]);
        }
        _ => panic!("expected an ADEPT error"),
    }
}

#[test]
fn error_takes_priority_over_success_shape() {
    let body = r#"<activationServiceInfo data="E_AUTH_FAILED x"><authURL>a</authURL><userInfoURL>u</userInfoURL><certificate>c</certificate></activationServiceInfo>"#;
    let root = xmltree::Element::parse(body.as_bytes()).unwrap();
    assert!(ActivationServiceInfo::from_xml(&root).is_ok());
    match parse_response(ok_response(body)) {
        Err(ResponseError::Adept(e)) => assert_eq!(e.name, "E_AUTH_FAILED"),
        _ => panic!("the error must win"),
    }
}

#[test]
fn response_checks() {
    let mut r = ok_response("<x/>");
    r.response_code = 404;
    assert!(matches!(parse_response(r), Err(ResponseError::Status(404))));
    let mut r = ok_response("<x/>");
    r.content_type = "text/html".to_string();
    assert!(matches!(parse_response_inner(r), Err(ResponseError::ContentType(t)) if t == "text/html"));
    let mut r = ok_response("");
    r.body = vec![0xff, 0xfe];
    assert!(matches!(parse_response(r), Err(ResponseError::NotUtf8)));
    assert!(matches!(parse_response(ok_response("<x>")), Err(ResponseError::MalformedXml)));
    assert!(parse_response(ok_response("<x><y>1</y></x>")).is_ok());
}

#[test]
fn service_info_is_read() {
    let root = parse_response(ok_response(
        "<activationServiceInfo>\n  <authURL> https://auth </authURL>\n  <userInfoURL>https://info</userInfoURL>\n  <certificate>Q0VSVA==</certificate>\n</activationServiceInfo>",
    ))
    .ok()
    .unwrap();
    let info = ActivationServiceInfo::from_xml(&root).ok().unwrap();
    assert_eq!(info.auth_url, "https://auth");
    assert_eq!(info.user_info_url, "https://info");
    assert_eq!(info.certificate, "Q0VSVA==");
    let partial = xmltree::Element::parse("<credentials><user>u</user></credentials>".as_bytes()).unwrap();
    assert!(matches!(Credentials::from_xml(&partial), Err(ShapeError::Missing(n)) if n == "pkcs12"));
}

#[test]
fn small_parsers() {
    assert_eq!(parse_u32("0"), Some(0));
    assert_eq!(parse_u32("4294967295"), Some(u32::MAX));
    assert_eq!(parse_u32("4294967296"), None);
    assert_eq!(parse_u32(""), None);
    assert_eq!(parse_u32("1a"), None);
    assert_eq!(parse_bool("true"), Some(true));
    assert_eq!(parse_bool("0"), Some(false));
    assert_eq!(parse_bool("yes"), None);
}

#[test]
fn requests_are_formed() {
    assert_eq!(make_url("https://h/adept", "/Activate"), "https://h/adept/Activate");
    let g = make_get("https://h", "/X");
    assert!(matches!(g.method, HttpMethod::Get));
    assert_eq!(g.url, "https://h/X");
    assert_eq!(g.useragent, "book2png");
    assert!(g.content.is_none());
    let p = make_post_serialized("https://h", "/Y", "<a/>");
    assert!(matches!(p.method, HttpMethod::Post));
    let c = p.content.unwrap();
    assert_eq!(c.content_type, "application/vnd.adobe.adept+xml");
    assert_eq!(c.content, b"<a/>".to_vec());
    let info = activation_service_info_request("https://adeactivate.adobe.com/adept");
    assert_eq!(info.url, "https://adeactivate.adobe.com/adept/ActivationServiceInfo");
}

#[test]
fn serializer_escapes() {
    let e = XmlOut {
        name: "adept:x".to_string(),
        attributes: vec![("k".to_string(), "a\"<&".to_string())],
        body: XmlBody::Children(vec![text_element("adept:y", "1 < 2 & 3 > 0"), XmlOut {
            name: "z".to_string(),
            attributes: vec![],
            body: XmlBody::Empty,
        }]),
    };
    assert_eq!(
        serialize_xml(&e),
        r#"<adept:x k="a&quot;&lt;&amp;"><adept:y>1 &lt; 2 &amp; 3 &gt; 0</adept:y><z/></adept:x>"#
    );
}

#[test]
fn unsigned_requests_have_their_bodies() {
    let r = fulfillment_auth_request(
        "https://op",
        FulfillmentAuthData {
            user: "urn:u".to_string(),
            certificate: "Yw==".to_string(),
            license_certificate: "bA==".to_string(),
            authentication_certificate: "YQ==".to_string(),
        },
    );
    assert_eq!(r.url, "https://op/Auth");
    assert_eq!(
        String::from_utf8(r.content.unwrap().content).unwrap(),
        r#"<adept:credentials xmlns:adept="http://ns.adobe.com/adept"><adept:user>urn:u</adept:user><adept:certificate>Yw==</adept:certificate><adept:licenseCertificate>bA==</adept:licenseCertificate><adept:authenticationCertificate>YQ==</adept:authenticationCertificate></adept:credentials>"#
    );
    let s = sign_in_request(
        "https://auth",
        "anonymous",
        SignInData {
            sign_in_data: "1".to_string(),
            public_auth_key: "2".to_string(),
            encrypted_private_auth_key: "3".to_string(),
            public_license_key: "4".to_string(),
            encrypted_private_license_key: "5".to_string(),
        },
    );
    assert_eq!(s.url, "https://auth/SignInDirect");
    assert_eq!(
        String::from_utf8(s.content.unwrap().content).unwrap(),
        r#"<adept:signIn xmlns:adept="http://ns.adobe.com/adept" method="anonymous"><adept:signInData>1</adept:signInData><adept:publicAuthKey>2</adept:publicAuthKey><adept:encryptedPrivateAuthKey>3</adept:encryptedPrivateAuthKey><adept:publicLicenseKey>4</adept:publicLicenseKey><adept:encryptedPrivateLicenseKey>5</adept:encryptedPrivateLicenseKey></adept:signIn>"#
    );
}

#[test]
fn token_replaces_first_placeholder_verbatim() {
    let token = "<fulfillmentToken a=\"1\">\n  <x>&amp;</x>\n</fulfillmentToken>";
    let s = "<r><u/><fulfillment_token_placeholder/><v/><fulfillment_token_placeholder/></r>";
    let out = substitute_fulfillment_token(s, token);
    assert_eq!(out, format!("<r><u/>{}<v/><fulfillment_token_placeholder/></r>", token));
    assert_eq!(substitute_fulfillment_token("<r/>", token), "<r/>");
}
