use adobededrmtools::canonical::{hash_xml, AsnTag};

#[test]
fn stream_of_a_small_document() {
    let s = hash_xml(r#"<a:r xmlns:a="urn:x" b="2" a="1"> t <c/></a:r>"#).unwrap();
    let mut want = vec![1u8, 0, 5];
    want.extend_from_slice(b"urn:x");
    want.extend_from_slice(&[0, 1, b'r']);
    want.extend_from_slice(&[5, 0, 0, 0, 1, b'a', 0, 1, b'1']);
    want.extend_from_slice(&[5, 0, 0, 0, 1, b'b', 0, 1, b'2']);
    want.push(2);
    want.extend_from_slice(&[4, 0, 1, b't']);
    want.extend_from_slice(&[0, 1, b'c', 2, 3]);
    want.push(3);
    assert_eq!(s, want);
}

#[test]
fn attribute_order_and_whitespace_do_not_count() {
    let a = hash_xml(r#"<r x="1" y="2"><c>v</c></r>"#).unwrap();
    let b = hash_xml("<r y=\"2\" x=\"1\">\n  <c>v</c>\n</r>").unwrap();
    assert_eq!(a, b);
}

#[test]
fn namespace_declarations_do_not_count() {
    let a = hash_xml(r#"<r x="1"><c>v</c></r>"#).unwrap();
    let b = hash_xml(r#"<r xmlns:q="urn:q" x="1"><c xmlns:z="urn:z">v</c></r>"#).unwrap();
    assert_eq!(a, b);
}

#[test]
fn signature_and_hmac_are_excised() {
    let a = hash_xml(r#"<r><u>1</u></r>"#).unwrap();
    let b = hash_xml(r#"<r><u>1</u><signature>abc</signature><hmac>x</hmac></r>"#).unwrap();
    assert_eq!(a, b);
    let c = hash_xml(r#"<r xmlns:adept="urn:a"><u>1</u><adept:signature>z</adept:signature></r>"#).unwrap();
    assert_eq!(a, c);
}

#[test]
fn malformed_document_is_rejected() {
    assert!(hash_xml("<r><unclosed></r>").is_err());
    assert!(hash_xml("").is_err());
}

#[test]
fn tag_bytes() {
    assert_eq!(AsnTag::Reserved.byte(), 0);
    assert_eq!(AsnTag::NsTag.byte(), 1);
    assert_eq!(AsnTag::Child.byte(), 2);
    assert_eq!(AsnTag::EndTag.byte(), 3);
    assert_eq!(AsnTag::Text.byte(), 4);
    assert_eq!(AsnTag::Attribute.byte(), 5);
}
