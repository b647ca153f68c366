use adobededrmtools::canonical::hash_xml;
use adobededrmtools::crypto::Sha1;

fn digest_hex(xml: &str) -> String {
    let stream = hash_xml(xml).expect("hash_xml failed");
    let mut hasher = Sha1::new();
    hasher.update(&stream);
    hex::encode(hasher.finalize())
}

#[test]
fn test_hash_xml() {
    const TEST_CASES: &[(&str, &str)] = &[
        (
            r#"<?xml version="1.0"?>
<adept:activate xmlns:adept="http://ns.adobe.com/adept" requestType="initial">
  <adept:fingerprint>xsXngUfahHAHQpv8brLlYMFbpNk=</adept:fingerprint>
  <adept:deviceType>standalone</adept:deviceType>
  <adept:clientOS>Linux 6.15.6-arch1-1</adept:clientOS>
  <adept:clientLocale>C</adept:clientLocale>
  <adept:clientVersion>Desktop</adept:clientVersion>
  <adept:targetDevice>
    <adept:softwareVersion>10.0.4</adept:softwareVersion>
    <adept:clientOS>Linux 6.15.6-arch1-1</adept:clientOS>
    <adept:clientLocale>C</adept:clientLocale>
    <adept:clientVersion>Desktop</adept:clientVersion>
    <adept:deviceType>standalone</adept:deviceType>
    <adept:fingerprint>xsXngUfahHAHQpv8brLlYMFbpNk=</adept:fingerprint>
  </adept:targetDevice>
  <adept:nonce>j+ePeCI6AAAAAAAA</adept:nonce>
  <adept:expiration>2025-07-14T15:36:35Z</adept:expiration>
  <adept:user>urn:uuid:e9fb5f93-8f17-4b45-b564-c8de69a4051b</adept:user>
</adept:activate>
"#,
            "1ab9a7543c085dbd75cacfbc87c1b93c7e323e6a",
        ),
        (
            r#"<?xml version="1.0"?>
<adept:fulfill xmlns:adept="http://ns.adobe.com/adept">
  <adept:user>urn:uuid:52176b2b-fbdf-40f0-90b4-005c381806bc</adept:user>
  <adept:device>urn:uuid:a310b35a-512e-4054-8a95-7b7288b95f78</adept:device>
  <adept:deviceType>standalone</adept:deviceType>
  <fulfillmentToken fulfillmentType="buy" auth="user" xmlns="http://ns.adobe.com/adept">
    <distributor>urn:uuid:a5fac67c-03f8-43af-94d1-fb894365054d</distributor>
    <operatorURL>dummy</operatorURL>
    <transaction>61777-38641</transaction>
    <purchase>2025-07-13T15:49:52+03:00</purchase>
    <expiration>2025-07-16T15:49:52+03:00</expiration>
    <resourceItemInfo>
      <resource>urn:uuid:5af67d43-61b7-44f0-b827-e41594a40484</resource>
      <resourceItem>1</resourceItem>
      <metadata>
    <dc:title xmlns:dc="http://purl.org/dc/elements/1.1/">ΤΟΥ</dc:title>
    <dc:creator xmlns:dc="http://purl.org/dc/elements/1.1/">dummy</dc:creator>
    <dc:publisher xmlns:dc="http://purl.org/dc/elements/1.1/">dummy</dc:publisher>
    <dc:identifier xmlns:dc="http://purl.org/dc/elements/1.1/">dummy</dc:identifier>
    <dc:format xmlns:dc="http://purl.org/dc/elements/1.1/">application/epub+zip</dc:format>
    <dc:language xmlns:dc="http://purl.org/dc/elements/1.1/">el</dc:language>
      </metadata>
      <licenseToken>
    <resource>urn:uuid:5af67d43-61b7-44f0-b827-e41594a40484</resource>
    <permissions>
      <display />
      <excerpt />
      <print />
      <play />
    </permissions>
      </licenseToken>
    </resourceItemInfo>
    <hmac>iFEK7MgV0vZDHfAq9TbD6db8U8M=</hmac>
  </fulfillmentToken>
  <adept:targetDevice>
    <adept:softwareVersion>10.0.4</adept:softwareVersion>
    <adept:clientOS>Linux 6.15.6-arch1-1</adept:clientOS>
    <adept:clientLocale>C</adept:clientLocale>
    <adept:clientVersion>Desktop</adept:clientVersion>
    <adept:deviceType>standalone</adept:deviceType>
    <adept:fingerprint>kjXZLt1DmCGG6WU6YauHLNecTD8=</adept:fingerprint>
    <adept:activationToken>
      <adept:user>urn:uuid:52176b2b-fbdf-40f0-90b4-005c381806bc</adept:user>
      <adept:device>urn:uuid:a310b35a-512e-4054-8a95-7b7288b95f78</adept:device>
    </adept:activationToken>
  </adept:targetDevice>
  <adept:signature>c/ZHjn/YF3N2KPEkXZVB6okfqi4g56kWCCHsidi9oHotHkXe5pjDOYj8/GFcJ2krEoIhmdFJ9rCMH8fHzGuaUCvciPAxh1fNSEQq29iNDr+/h17vFT0Es1g3P/IC6xA6P5pIRcuuMTnWuRRD1kjFKLXsDfQWq0WwjdVqBrabemc=</adept:signature>
</adept:fulfill>"#,
            "32d5c35172f4ac65c6e63f9a88d97c1c70b1eb07",
        ),
    ];

    for &(xml, hash) in TEST_CASES {
        assert_eq!(digest_hex(xml), hash, "hash mismatch");
    }
}
