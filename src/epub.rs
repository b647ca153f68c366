use vstd::prelude::*;
use std::io::{Cursor, Read, Write};
use crate::aes::{aes128_cbc_decrypt_of, body_of, decrypt_aes, iv_of, IV_LEN};
use crate::responses::named_children;
use crate::xml::{find_child, first_named_child, parse_xml, same_text, xml_parse_of};
use crate::http::attribute_value;
use xmltree::{Element, XMLNode};

verus! {

#[verifier::external_type_specification]
#[verifier::external_body]
#[verifier::reject_recursive_types(T)]
pub struct ExCursor<T>(std::io::Cursor<T>);

#[verifier::external_type_specification]
#[verifier::external_body]
#[verifier::reject_recursive_types(R)]
pub struct ExZipArchive<R>(zip::ZipArchive<R>);


/// An archive being read from memory.
pub type ArchiveIn = zip::ZipArchive<Cursor<Vec<u8>>>;

/// An archive being written to memory. (zip's writer is held here because its bounds
/// cannot be declared to the verifier.)
#[verifier::external_body]
pub struct ArchiveOut {
    writer: zip::ZipWriter<Cursor<Vec<u8>>>,
}

/// The entries of the archive that some bytes hold, in order, each a name and its
/// uncompressed content; `None` where the bytes are not an archive.
pub uninterp spec fn zip_entries_of(bytes: Seq<u8>) -> Option<Seq<(Seq<char>, Seq<u8>)>>;

/// The entries of an archive being read.
pub uninterp spec fn archive_entries(a: zip::ZipArchive<Cursor<Vec<u8>>>) -> Seq<(Seq<char>, Seq<u8>)>;

/// The entries written so far to an archive being written.
pub uninterp spec fn written_entries(w: ArchiveOut) -> Seq<(Seq<char>, Seq<u8>)>;

/// Each entry's compression method code and stored record (its compressed data, CRC,
/// sizes and own metadata: time, attributes, extra fields; not its position), in order;
/// `None` where the bytes are not an archive.
pub uninterp spec fn zip_records_of(bytes: Seq<u8>) -> Option<Seq<(u16, Seq<u8>)>>;

/// The method codes and stored records of the entries of an archive being read.
pub uninterp spec fn archive_records(a: zip::ZipArchive<Cursor<Vec<u8>>>) -> Seq<(u16, Seq<u8>)>;

/// The method codes of the entries written so far, with the stored record that a raw copy
/// carried over (`None` for an entry written anew).
pub uninterp spec fn written_records(w: ArchiveOut) -> Seq<(u16, Option<Seq<u8>>)>;

/// zip's code for DEFLATE, its default method when built with DEFLATE support.
pub const DEFLATED_METHOD: u16 = 8;

/// The records of a written archive are those that were written: same methods, and the
/// stored record of every raw copy.
pub open spec fn records_match(out: Seq<(u16, Seq<u8>)>, written: Seq<(u16, Option<Seq<u8>>)>) -> bool {
    &&& out.len() == written.len()
    &&& forall|i: int|
        0 <= i < out.len() ==> (#[trigger] out[i]).0 == written[i].0 && (written[i].1 matches Some(x) ==> out[i].1 == x)
}

/// Every entry of the archive in these bytes can be read by zip (its name and its
/// content) and added again by zip's writer, raw or anew.
pub uninterp spec fn zip_intact_of(bytes: Seq<u8>) -> bool;

/// Every entry of an archive being read can be read and added again by zip's writer.
pub uninterp spec fn archive_intact(a: zip::ZipArchive<Cursor<Vec<u8>>>) -> bool;

/// No add to the writer has failed, so it can be finished.
pub uninterp spec fn writer_healthy(w: ArchiveOut) -> bool;

/// The names of some entries.
pub open spec fn entry_names(es: Seq<(Seq<char>, Seq<u8>)>) -> Seq<Seq<char>> {
    Seq::new(es.len(), |i: int| es[i].0)
}

/// Relies on zip's `ZipArchive::new`, which reads the central directory: it succeeds on
/// the bytes of an archive.
#[verifier::external_body]
pub(crate) fn open_archive(bytes: Vec<u8>) -> (r: Option<ArchiveIn>)
    ensures
        r matches Some(a) ==> zip_entries_of(bytes@) == Some(archive_entries(a)),
        r matches Some(a) ==> zip_records_of(bytes@) == Some(archive_records(a)) && archive_records(a).len()
            == archive_entries(a).len(),
        r matches Some(a) ==> archive_intact(a) == zip_intact_of(bytes@),
        zip_entries_of(bytes@) is Some ==> r is Some,
{
    zip::ZipArchive::new(Cursor::new(bytes)).ok()
}

/// Relies on zip's `ZipArchive::len`: the number of entries.
#[verifier::external_body]
pub(crate) fn archive_len(a: &ArchiveIn) -> (r: usize)
    ensures
        r == archive_entries(*a).len(),
{
    a.len()
}

/// Relies on zip's `ZipArchive::by_index` and `ZipFile::name`.
#[verifier::external_body]
pub(crate) fn entry_name(a: &mut ArchiveIn, i: usize) -> (r: Option<String>)
    requires
        i < archive_entries(*old(a)).len(),
    ensures
        archive_entries(*final(a)) == archive_entries(*old(a)),
        archive_records(*final(a)) == archive_records(*old(a)),
        archive_intact(*final(a)) == archive_intact(*old(a)),
        r matches Some(n) ==> n@ == archive_entries(*old(a))[i as int].0,
        archive_intact(*old(a)) ==> r is Some,
{
    let file = a.by_index(i).ok()?;
    let name = file.name().ok()?.into_owned();
    Some(name)
}

/// Relies on zip's `ZipArchive::by_index` and reading the entry to its end, which
/// decompresses it.
#[verifier::external_body]
pub(crate) fn read_entry(a: &mut ArchiveIn, i: usize) -> (r: Option<Vec<u8>>)
    requires
        i < archive_entries(*old(a)).len(),
    ensures
        archive_entries(*final(a)) == archive_entries(*old(a)),
        archive_records(*final(a)) == archive_records(*old(a)),
        archive_intact(*final(a)) == archive_intact(*old(a)),
        r matches Some(d) ==> d@ == archive_entries(*old(a))[i as int].1,
        archive_intact(*old(a)) ==> r is Some,
{
    let mut file = a.by_index(i).ok()?;
    let mut buf = Vec::new();
    file.read_to_end(&mut buf).ok()?;
    Some(buf)
}

/// Every character is ASCII.
pub open spec fn is_ascii_text(s: Seq<char>) -> bool {
    forall|i: int| 0 <= i < s.len() ==> (#[trigger] s[i] as u32) < 128
}

/// Relies on zip's `ZipArchive::by_name`, which compares the stored name bytes: for an
/// ASCII name these are the name's own bytes, and `ZipError::FileNotFound` says that no
/// entry has the name.
#[verifier::external_body]
pub(crate) fn read_entry_by_name(a: &mut ArchiveIn, name: &str) -> (r: Option<Option<Vec<u8>>>)
    requires
        is_ascii_text(name@),
    ensures
        archive_entries(*final(a)) == archive_entries(*old(a)),
        archive_records(*final(a)) == archive_records(*old(a)),
        archive_intact(*final(a)) == archive_intact(*old(a)),
        archive_intact(*old(a)) ==> r is Some,
        r matches Some(None) <==> forall|i: int|
            0 <= i < archive_entries(*old(a)).len() ==> (#[trigger] archive_entries(*old(a))[i]).0 != name@,
        r matches Some(Some(d)) ==> exists|i: int|
            0 <= i < archive_entries(*old(a)).len() && #[trigger] archive_entries(*old(a))[i] == (name@, d@),
{
    match a.by_name(name) {
        Ok(mut file) => {
            let mut buf = Vec::new();
            file.read_to_end(&mut buf).ok()?;
            Some(Some(buf))
        },
        Err(zip::result::ZipError::FileNotFound) => Some(None),
        Err(_) => None,
    }
}

/// Relies on zip's `ZipWriter::new` over an empty buffer.
#[verifier::external_body]
pub(crate) fn new_archive_out() -> (r: ArchiveOut)
    ensures
        written_entries(r) == Seq::<(Seq<char>, Seq<u8>)>::empty(),
        writer_healthy(r),
        written_records(r) == Seq::<(u16, Option<Seq<u8>>)>::empty(),
{
    ArchiveOut { writer: zip::ZipWriter::new(Cursor::new(Vec::new())) }
}

/// Relies on zip's `ZipWriter::raw_copy_file`: the entry is copied with its compressed
/// data, compression method, CRC and metadata (its stored record).
#[verifier::external_body]
pub(crate) fn copy_entry_raw(w: &mut ArchiveOut, a: &mut ArchiveIn, i: usize) -> (r: bool)
    requires
        i < archive_entries(*old(a)).len(),
    ensures
        archive_entries(*final(a)) == archive_entries(*old(a)),
        archive_records(*final(a)) == archive_records(*old(a)),
        archive_intact(*final(a)) == archive_intact(*old(a)),
        r ==> written_entries(*final(w)) == written_entries(*old(w)).push(archive_entries(*old(a))[i as int]),
        r ==> written_records(*final(w)) == written_records(*old(w)).push(
            (archive_records(*old(a))[i as int].0, Some(archive_records(*old(a))[i as int].1)),
        ),
        r ==> writer_healthy(*final(w)),
        writer_healthy(*old(w)) && archive_intact(*old(a)) && !entry_names(written_entries(*old(w))).contains(
            archive_entries(*old(a))[i as int].0,
        ) ==> r,
{
    match a.by_index(i) {
        Ok(file) => w.writer.raw_copy_file(file).is_ok(),
        Err(_) => false,
    }
}

/// Relies on zip's `ZipWriter::start_file`, with the entry's own options under the default
/// compression method (DEFLATE), and `Write::write_all` of the new content.
#[verifier::external_body]
pub(crate) fn write_entry(w: &mut ArchiveOut, a: &mut ArchiveIn, i: usize, data: &[u8]) -> (r: bool)
    requires
        i < archive_entries(*old(a)).len(),
    ensures
        archive_entries(*final(a)) == archive_entries(*old(a)),
        archive_records(*final(a)) == archive_records(*old(a)),
        r ==> written_entries(*final(w)) == written_entries(*old(w)).push(
            (archive_entries(*old(a))[i as int].0, data@),
        ),
        r ==> written_records(*final(w)) == written_records(*old(w)).push((DEFLATED_METHOD, None)),
        archive_intact(*final(a)) == archive_intact(*old(a)),
        r ==> writer_healthy(*final(w)),
        writer_healthy(*old(w)) && archive_intact(*old(a)) && !entry_names(written_entries(*old(w))).contains(
            archive_entries(*old(a))[i as int].0,
        ) ==> r,
{
    let (name, options) = match a.by_index(i) {
        Ok(file) => match file.name() {
            Ok(n) => (n.into_owned(), file.options().compression_method(zip::CompressionMethod::default())),
            Err(_) => return false,
        },
        Err(_) => return false,
    };
    w.writer.start_file(name, options).is_ok() && w.writer.write_all(data).is_ok()
}

/// Relies on zip's `ZipWriter::finish`: the written archive holds the written entries.
#[verifier::external_body]
pub(crate) fn finish_archive(w: ArchiveOut) -> (r: Option<Vec<u8>>)
    ensures
        r matches Some(b) ==> zip_entries_of(b@) == Some(written_entries(w)),
        r matches Some(b) ==> (zip_records_of(b@) matches Some(rs) && records_match(rs, written_records(w))),
        writer_healthy(w) ==> r is Some,
{
    w.writer.finish().ok().map(|c| c.into_inner())
}

/// What raw DEFLATE (no zlib header) inflates some bytes to; `None` where they are not a
/// valid stream.
pub uninterp spec fn inflate_of(data: Seq<u8>) -> Option<Seq<u8>>;

/// Relies on flate2's `read::DeflateDecoder`, read to its end.
#[verifier::external_body]
pub(crate) fn inflate_raw(data: &[u8]) -> (r: Option<Vec<u8>>)
    ensures
        r matches Some(d) ==> inflate_of(data@) == Some(d@),
        r is None ==> inflate_of(data@) is None,
{
    let mut decoder = flate2::read::DeflateDecoder::new(data);
    let mut out = Vec::new();
    decoder.read_to_end(&mut out).ok()?;
    Some(out)
}

#[derive(Debug, Clone, Copy, PartialEq, Eq, Structural)]
pub enum EncryptionAlgorithm {
    Aes128Cbc,
}

#[derive(Debug, Clone, Copy, PartialEq, Eq, Structural)]
pub enum CompressionAlgorithm {
    NoCompression,
    Deflate,
}

/// How a protected entry was encoded.
#[derive(Debug, Clone, Copy, PartialEq, Eq, Structural)]
pub struct Algorithm {
    pub encryption: EncryptionAlgorithm,
    pub compression: CompressionAlgorithm,
}

/// A protected entry of the archive and its encoding.
pub struct EncryptedData {
    pub path: String,
    pub algorithm: Algorithm,
}

pub const AES128_CBC_DEFLATED: &'static str = "http://www.w3.org/2001/04/xmlenc#aes128-cbc";

pub const AES128_CBC_UNCOMPRESSED: &'static str = "http://ns.adobe.com/adept/xmlenc#aes128-cbc-uncompressed";

/// The encoding that an algorithm URI of the manifest stands for.
pub open spec fn algorithm_for(uri: Seq<char>) -> Option<Algorithm> {
    if uri == AES128_CBC_DEFLATED@ {
        Some(Algorithm { encryption: EncryptionAlgorithm::Aes128Cbc, compression: CompressionAlgorithm::Deflate })
    } else if uri == AES128_CBC_UNCOMPRESSED@ {
        Some(
            Algorithm {
                encryption: EncryptionAlgorithm::Aes128Cbc,
                compression: CompressionAlgorithm::NoCompression,
            },
        )
    } else {
        None
    }
}

/// Why the encryption manifest was not accepted.
pub enum ManifestError {
    NotUtf8,
    MalformedXml,
    /// An `EncryptedData` element lacks a part; it names the part.
    Missing(String),
    UnsupportedAlgorithm(String),
}

pub fn algorithm_from_uri(uri: &str) -> (r: Option<Algorithm>)
    ensures
        r == algorithm_for(uri@),
{
    if same_text(uri, AES128_CBC_DEFLATED) {
        Some(Algorithm { encryption: EncryptionAlgorithm::Aes128Cbc, compression: CompressionAlgorithm::Deflate })
    } else if same_text(uri, AES128_CBC_UNCOMPRESSED) {
        Some(
            Algorithm {
                encryption: EncryptionAlgorithm::Aes128Cbc,
                compression: CompressionAlgorithm::NoCompression,
            },
        )
    } else {
        None
    }
}

/// The element has an attribute with this local name and value.
pub open spec fn attribute_is(e: Element, name: Seq<char>, value: Seq<char>) -> bool {
    exists|k: String| #[trigger] e.attributes@.contains_key(k) && k@ == name && e.attributes@[k]@ == value
}

/// The descriptor is what the element says: the algorithm of
/// `EncryptionMethod/@Algorithm` and the path of `CipherData/CipherReference/@URI`.
pub open spec fn encrypted_data_from(d: EncryptedData, e: Element) -> bool {
    &&& first_named_child(e, "EncryptionMethod"@) matches Some(m) && exists|uri: Seq<char>|
        #[trigger] algorithm_for(uri) == Some(d.algorithm) && attribute_is(m, "Algorithm"@, uri)
    &&& first_named_child(e, "CipherData"@) matches Some(c) && first_named_child(c, "CipherReference"@) matches Some(
        x,
    ) && attribute_is(x, "URI"@, d.path@)
}

/// The element has every part and a known algorithm.
pub open spec fn encrypted_data_ok(e: Element) -> bool {
    &&& first_named_child(e, "EncryptionMethod"@) matches Some(m) && exists|uri: Seq<char>|
        #[trigger] attribute_is(m, "Algorithm"@, uri) && algorithm_for(uri) is Some
    &&& first_named_child(e, "CipherData"@) matches Some(c) && first_named_child(c, "CipherReference"@) matches Some(
        x,
    ) && exists|p: Seq<char>| #[trigger] attribute_is(x, "URI"@, p)
}

/// One `EncryptedData` element: `EncryptionMethod/@Algorithm` and
/// `CipherData/CipherReference/@URI`; an algorithm other than the two known ones is an error.
pub fn encrypted_data_from_xml(e: &Element) -> (r: Result<EncryptedData, ManifestError>)
    ensures
        r is Ok <==> encrypted_data_ok(*e),
        r matches Ok(d) ==> encrypted_data_from(d, *e),
        r matches Err(ManifestError::UnsupportedAlgorithm(u)) ==> algorithm_for(u@) is None,
{
    let method = match find_child(e, "EncryptionMethod") {
        Some(m) => m,
        None => return Err(ManifestError::Missing(String::from_str("EncryptionMethod"))),
    };
    let uri = match attribute_value(method, "Algorithm") {
        Some(u) => u,
        None => return Err(ManifestError::Missing(String::from_str("Algorithm"))),
    };
    let algorithm = match algorithm_from_uri(uri.as_str()) {
        Some(a) => a,
        None => {
            proof {
                assert forall|u: Seq<char>| #[trigger] attribute_is(*method, "Algorithm"@, u) implies algorithm_for(u)
                    is None by {
                    let k = choose|k: String|
                        #[trigger] method.attributes@.contains_key(k) && k@ == "Algorithm"@ && method.attributes@[k]@
                            == u;
                }
            }
            return Err(ManifestError::UnsupportedAlgorithm(uri));
        },
    };
    let cipher_data = match find_child(e, "CipherData") {
        Some(c) => c,
        None => return Err(ManifestError::Missing(String::from_str("CipherData"))),
    };
    let reference = match find_child(cipher_data, "CipherReference") {
        Some(c) => c,
        None => return Err(ManifestError::Missing(String::from_str("CipherReference"))),
    };
    proof {
        assert(attribute_is(*method, "Algorithm"@, uri@));
    }
    let path = match attribute_value(reference, "URI") {
        Some(u) => u,
        None => return Err(ManifestError::Missing(String::from_str("URI"))),
    };
    proof {
        assert(attribute_is(*reference, "URI"@, path@));
    }
    Ok(EncryptedData { path, algorithm })
}

pub(crate) proof fn lemma_named_prefix(cs: Seq<XMLNode>, k: int, name: Seq<char>)
    requires
        0 <= k <= cs.len(),
    ensures
        named_children(cs.subrange(0, k), name).len() <= named_children(cs, name).len(),
        named_children(cs.subrange(0, k), name) == named_children(cs, name).subrange(
            0,
            named_children(cs.subrange(0, k), name).len() as int,
        ),
    decreases cs.len(),
{
    if k == cs.len() {
        assert(cs.subrange(0, k) =~= cs);
        assert(named_children(cs, name).subrange(0, named_children(cs, name).len() as int) =~= named_children(cs, name));
    } else {
        assert(cs.drop_last().subrange(0, k) =~= cs.subrange(0, k));
        lemma_named_prefix(cs.drop_last(), k, name);
        let p = named_children(cs.subrange(0, k), name);
        assert(named_children(cs, name).subrange(0, p.len() as int) =~= named_children(cs.drop_last(), name).subrange(
            0,
            p.len() as int,
        ));
    }
}

/// Every `EncryptedData` child of the manifest's root, in order.
pub fn encryption_data_from_xml(root: &Element) -> (r: Result<Vec<EncryptedData>, ManifestError>)
    ensures
        r is Ok <==> forall|i: int|
            0 <= i < named_children(root.children@, "EncryptedData"@).len() ==> encrypted_data_ok(
                #[trigger] named_children(root.children@, "EncryptedData"@)[i],
            ),
        r matches Ok(v) ==> v@.len() == named_children(root.children@, "EncryptedData"@).len() && forall|i: int|
            0 <= i < v@.len() ==> encrypted_data_from(
                #[trigger] v@[i],
                named_children(root.children@, "EncryptedData"@)[i],
            ),
{
    let mut out: Vec<EncryptedData> = Vec::new();
    let mut i: usize = 0;
    proof {
        assert(root.children@.subrange(0, 0) =~= Seq::<XMLNode>::empty());
    }
    while i < root.children.len()
        invariant
            i <= root.children@.len(),
            out@.len() == named_children(root.children@.subrange(0, i as int), "EncryptedData"@).len(),
            forall|j: int|
                0 <= j < out@.len() ==> encrypted_data_from(
                    #[trigger] out@[j],
                    named_children(root.children@.subrange(0, i as int), "EncryptedData"@)[j],
                ),
            forall|j: int|
                0 <= j < out@.len() ==> encrypted_data_ok(
                    #[trigger] named_children(root.children@.subrange(0, i as int), "EncryptedData"@)[j],
                ),
        decreases root.children@.len() - i,
    {
        proof {
            assert(root.children@.subrange(0, i + 1).drop_last() =~= root.children@.subrange(0, i as int));
        }
        match &root.children[i] {
            XMLNode::Element(c) => {
                if same_text(c.name.as_str(), "EncryptedData") {
                    match encrypted_data_from_xml(c) {
                        Ok(d) => out.push(d),
                        Err(e) => {
                            proof {
                                let cs = root.children@;
                                let sub = cs.subrange(0, i + 1);
                                lemma_named_prefix(cs, i + 1, "EncryptedData"@);
                                let n = named_children(sub, "EncryptedData"@);
                                assert(n.last() == *c);
                                assert(named_children(cs, "EncryptedData"@)[n.len() - 1] == n[n.len() - 1]);
                            }
                            return Err(e);
                        },
                    }
                }
            },
            _ => {},
        }
        i += 1;
    }
    proof {
        assert(root.children@.subrange(0, root.children@.len() as int) =~= root.children@);
    }
    Ok(out)
}

/// The manifest that a root element describes is complete and known.
pub open spec fn manifest_ok(root: Element) -> bool {
    forall|i: int|
        0 <= i < named_children(root.children@, "EncryptedData"@).len() ==> encrypted_data_ok(
            #[trigger] named_children(root.children@, "EncryptedData"@)[i],
        )
}

/// The descriptors are those of the root's `EncryptedData` children, in order.
pub open spec fn manifest_from(v: Seq<EncryptedData>, root: Element) -> bool {
    &&& v.len() == named_children(root.children@, "EncryptedData"@).len()
    &&& forall|i: int|
        0 <= i < v.len() ==> encrypted_data_from(#[trigger] v[i], named_children(root.children@, "EncryptedData"@)[i])
}

/// Reads `META-INF/encryption.xml`.
pub fn parse_encryption_file(s: &str) -> (r: Result<Vec<EncryptedData>, ManifestError>)
    ensures
        match xml_parse_of(s@) {
            None => r matches Err(ManifestError::MalformedXml),
            Some(root) => (r is Ok <==> manifest_ok(root)) && (r matches Ok(v) ==> manifest_from(v@, root)),
        },
{
    match parse_xml(s) {
        Some(root) => encryption_data_from_xml(&root),
        None => Err(ManifestError::MalformedXml),
    }
}

} // verus!
