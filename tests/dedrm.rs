use std::io::{Cursor, Read, Write};

use adobededrmtools::aes::encrypt_aes;
use adobededrmtools::dedrm::{dedrm_epub, AdeptEncryptionKey, DedrmError, ResourceType};
use adobededrmtools::epub::{parse_encryption_file, Algorithm, CompressionAlgorithm, EncryptionAlgorithm, ManifestError};
use adobededrmtools::rand::init_rand;

const MANIFEST: &str = r#"<?xml version="1.0" encoding="UTF-8" standalone="no"?><encryption xmlns="urn:oasis:names:tc:opendocument:xmlns:container">
  <EncryptedData xmlns="http://www.w3.org/2001/04/xmlenc#">
    <EncryptionMethod Algorithm="http://www.w3.org/2001/04/xmlenc#aes128-cbc"/>
    <KeyInfo xmlns="http://www.w3.org/2000/09/xmldsig#"><resource xmlns="http://ns.adobe.com/adept">urn:uuid:1</resource></KeyInfo>
    <CipherData><CipherReference URI="OEBPS/a.xhtml"/></CipherData>
  </EncryptedData>
  <EncryptedData xmlns="http://www.w3.org/2001/04/xmlenc#">
    <EncryptionMethod Algorithm="http://ns.adobe.com/adept/xmlenc#aes128-cbc-uncompressed"/>
    <CipherData><CipherReference URI="OEBPS/Fonts/x.otf"/></CipherData>
  </EncryptedData>
</encryption>"#;

fn zip_of(entries: &[(&str, &[u8], zip::CompressionMethod)]) -> Vec<u8> {
    let mut w = zip::ZipWriter::new(Cursor::new(Vec::new()));
    for (name, data, method) in entries {
        let options = zip::write::SimpleFileOptions::default().compression_method(*method);
        w.start_file(*name, options).unwrap();
        w.write_all(data).unwrap();
    }
    w.finish().unwrap().into_inner()
}

fn entries_of(bytes: Vec<u8>) -> Vec<(String, Vec<u8>)> {
    let mut a = zip::ZipArchive::new(Cursor::new(bytes)).unwrap();
    let mut out = Vec::new();
    for i in 0..a.len() {
        let mut f = a.by_index(i).unwrap();
        let name = f.name().unwrap().to_string();
        let mut buf = Vec::new();
        f.read_to_end(&mut buf).unwrap();
        out.push((name, buf));
    }
    out
}

fn content_key() -> [u8; 16] {
    [9u8; 16]
}

#[test]
fn manifest_lists_two_algorithms() {
    let d = parse_encryption_file(MANIFEST).ok().unwrap();
    assert_eq!(d.len(), 2);
    assert_eq!(d[0].path, "OEBPS/a.xhtml");
    assert_eq!(
        d[0].algorithm,
        Algorithm { encryption: EncryptionAlgorithm::Aes128Cbc, compression: CompressionAlgorithm::Deflate }
    );
    assert_eq!(d[1].path, "OEBPS/Fonts/x.otf");
    assert_eq!(
        d[1].algorithm,
        Algorithm { encryption: EncryptionAlgorithm::Aes128Cbc, compression: CompressionAlgorithm::NoCompression }
    );
}

#[test]
fn manifest_with_unknown_algorithm_fails() {
    let m = MANIFEST.replace("aes128-cbc-uncompressed", "rot13");
    assert!(matches!(parse_encryption_file(&m), Err(ManifestError::UnsupportedAlgorithm(_))));
}

#[test]
fn archive_without_manifest_is_rebuilt_unchanged() {
    let input = zip_of(&[
        ("mimetype", b"application/epub+zip", zip::CompressionMethod::Stored),
        ("OEBPS/a.xhtml", b"<html>plain</html>", zip::CompressionMethod::Deflated),
        ("OEBPS/b.css", b"body {}", zip::CompressionMethod::Stored),
    ]);
    let before = entries_of(input.clone());
    let out = dedrm_epub(input, AdeptEncryptionKey::from_raw(content_key())).ok().unwrap();
    assert_eq!(entries_of(out), before);
}

#[test]
fn protected_entries_are_decrypted_and_manifest_dropped() {
    let mut rng = init_rand([5u8; 32]);
    let font = b"font bytes, stored".to_vec();
    let enc_font = encrypt_aes(&mut rng, &content_key(), &font);
    let page = b"<html>secret page</html>".to_vec();
    let mut deflater = flate2::write::DeflateEncoder::new(Vec::new(), flate2::Compression::default());
    deflater.write_all(&page).unwrap();
    let enc_page = encrypt_aes(&mut rng, &content_key(), &deflater.finish().unwrap());
    let input = zip_of(&[
        ("mimetype", b"application/epub+zip", zip::CompressionMethod::Stored),
        ("META-INF/encryption.xml", MANIFEST.as_bytes(), zip::CompressionMethod::Deflated),
        ("OEBPS/a.xhtml", &enc_page, zip::CompressionMethod::Stored),
        ("OEBPS/Fonts/x.otf", &enc_font, zip::CompressionMethod::Stored),
        ("OEBPS/c.css", b"p {}", zip::CompressionMethod::Deflated),
    ]);
    let out = entries_of(dedrm_epub(input, AdeptEncryptionKey::from_raw(content_key())).ok().unwrap());
    let names: Vec<&str> = out.iter().map(|(n, _)| n.as_str()).collect();
    assert_eq!(names, vec!["mimetype", "OEBPS/a.xhtml", "OEBPS/Fonts/x.otf", "OEBPS/c.css"]);
    assert_eq!(out[1].1, page);
    assert_eq!(out[2].1, font);
    assert_eq!(out[3].1, b"p {}".to_vec());
}

#[test]
fn wrong_key_fails_decoding() {
    let mut rng = init_rand([6u8; 32]);
    let enc = encrypt_aes(&mut rng, &content_key(), b"data that will not decode");
    let input = zip_of(&[
        ("META-INF/encryption.xml", MANIFEST.as_bytes(), zip::CompressionMethod::Stored),
        ("OEBPS/Fonts/x.otf", &enc, zip::CompressionMethod::Stored),
    ]);
    let r = dedrm_epub(input, AdeptEncryptionKey::from_raw([1u8; 16]));
    assert!(r.is_err());
}

#[test]
fn not_an_archive() {
    assert!(matches!(dedrm_epub(b"not a zip".to_vec(), AdeptEncryptionKey::from_raw([0u8; 16])), Err(DedrmError::Zip)));
}

#[test]
fn resource_types() {
    assert_eq!(ResourceType::from_item_type("application/epub+zip"), Some(ResourceType::Epub));
    assert_eq!(ResourceType::from_item_type("application/pdf"), None);
    assert_eq!(ResourceType::Epub.file_extension(), "epub");
    assert_eq!(AdeptEncryptionKey::from_raw([3u8; 16]).raw(), [3u8; 16]);
}
