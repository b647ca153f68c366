use vstd::prelude::*;
use crate::aes::{aes128_cbc_decrypt_of, body_of, decrypt_aes, iv_of, AesError, IV_LEN};
use crate::crypto::{is_rsa_pkcs8_key, rsa_decrypt_of, CryptoError, Pkey};
use crate::epub::{
    archive_entries, archive_len, copy_entry_raw, entry_name, finish_archive, inflate_of, inflate_raw,
    new_archive_out, open_archive, parse_encryption_file, read_entry, read_entry_by_name, write_entry,
    written_entries, zip_entries_of, Algorithm, CompressionAlgorithm, EncryptedData, EncryptionAlgorithm,
    ManifestError,
};
use crate::http::utf8_text;
use crate::xml::xml_parse_of;
use crate::epub::{
    archive_intact, archive_records, entry_names, is_ascii_text, manifest_from, manifest_ok, records_match,
    writer_healthy,
    written_records, zip_intact_of, zip_records_of, DEFLATED_METHOD,
};
use vstd::utf8::{decode_utf8, valid_utf8};
use crate::xml::same_text;

verus! {

/// The path of the encryption manifest inside an EPUB.
pub const ENCRYPTION_FILEPATH: &'static str = "META-INF/encryption.xml";

/// The 16-byte AES key that encrypts the entries of a protected resource.
#[derive(Clone, Copy)]
pub struct AdeptEncryptionKey {
    key: [u8; 16],
}

impl AdeptEncryptionKey {
    pub closed spec fn bytes(&self) -> Seq<u8> {
        self.key@
    }

    pub fn from_raw(raw: [u8; 16]) -> (r: Self)
        ensures
            r.bytes() == raw@,
    {
        AdeptEncryptionKey { key: raw }
    }

    pub fn raw(&self) -> (r: [u8; 16])
        ensures
            r@ == self.bytes(),
    {
        self.key
    }
}

/// Why removing the DRM failed.
pub enum DedrmError {
    Crypto(CryptoError),
    /// The content key does not decrypt to sixteen bytes; it holds the length.
    KeyLength(usize),
    Aes(AesError),
    /// An entry does not inflate.
    Inflate,
    /// The archive cannot be read or written.
    Zip,
    /// The manifest is not UTF-8 text.
    ManifestNotUtf8,
    Manifest(ManifestError),
}

/// Unwraps the content key with the private license key; it must be sixteen bytes.
pub fn decrypt_adept_encryption_key(encrypted_key: &[u8], private_license_key: &[u8]) -> (r: Result<
    AdeptEncryptionKey,
    DedrmError,
>)
    ensures
        is_rsa_pkcs8_key(private_license_key@) ==> match rsa_decrypt_of(private_license_key@, encrypted_key@) {
            Some(p) => if p.len() == 16 {
                r matches Ok(k) && k.bytes() == p
            } else {
                r matches Err(DedrmError::KeyLength(n)) && n == p.len()
            },
            None => r matches Err(DedrmError::Crypto(CryptoError::Decrypt)),
        },
        !is_rsa_pkcs8_key(private_license_key@) ==> r is Err,
        r matches Ok(k) ==> rsa_decrypt_of(private_license_key@, encrypted_key@) == Some(k.bytes()),
        r matches Err(DedrmError::KeyLength(n)) ==> exists|p: Seq<u8>|
            rsa_decrypt_of(private_license_key@, encrypted_key@) == Some(p) && p.len() == n && n != 16,
{
    let pkey = match Pkey::from_der(private_license_key) {
        Ok(k) => k,
        Err(e) => return Err(DedrmError::Crypto(e)),
    };
    let d = match pkey.decrypt(encrypted_key) {
        Ok(d) => d,
        Err(e) => return Err(DedrmError::Crypto(e)),
    };
    if d.len() != 16 {
        return Err(DedrmError::KeyLength(d.len()));
    }
    let key: [u8; 16] = [d[0], d[1], d[2], d[3], d[4], d[5], d[6], d[7], d[8], d[9], d[10], d[11], d[12], d[13], d[14], d[15]];
    proof {
        assert(key@ =~= d@);
    }
    Ok(AdeptEncryptionKey { key })
}

/// What an encoded entry decodes to: AES-128-CBC with the IV in front, then inflated
/// where the algorithm says so.
pub open spec fn decoded_of(key: Seq<u8>, alg: Algorithm, data: Seq<u8>) -> Option<Seq<u8>> {
    if data.len() < IV_LEN {
        None
    } else {
        match aes128_cbc_decrypt_of(key, iv_of(data), body_of(data)) {
            Some(p) => match alg.compression {
                CompressionAlgorithm::Deflate => inflate_of(p),
                CompressionAlgorithm::NoCompression => Some(p),
            },
            None => None,
        }
    }
}

pub fn decrypt_file(key: &AdeptEncryptionKey, data: &[u8], algorithm: &EncryptionAlgorithm) -> (r: Result<
    Vec<u8>,
    DedrmError,
>)
    ensures
        r matches Ok(p) ==> data@.len() >= IV_LEN && aes128_cbc_decrypt_of(key.bytes(), iv_of(data@), body_of(data@))
            == Some(p@),
        r is Err ==> data@.len() < IV_LEN || aes128_cbc_decrypt_of(key.bytes(), iv_of(data@), body_of(data@)) is None,
{
    match algorithm {
        EncryptionAlgorithm::Aes128Cbc => {
            let raw = key.raw();
            match decrypt_aes(&raw, data) {
                Ok(p) => Ok(p),
                Err(e) => Err(DedrmError::Aes(e)),
            }
        },
    }
}

pub fn decompress_file(data: &[u8], algorithm: &CompressionAlgorithm) -> (r: Result<Vec<u8>, DedrmError>)
    ensures
        match algorithm {
            CompressionAlgorithm::NoCompression => r matches Ok(d) && d@ == data@,
            CompressionAlgorithm::Deflate => match inflate_of(data@) {
                Some(d) => r matches Ok(x) && x@ == d,
                None => r is Err,
            },
        },
{
    match algorithm {
        CompressionAlgorithm::NoCompression => Ok(crate::crypto::copy_bytes(data)),
        CompressionAlgorithm::Deflate => match inflate_raw(data) {
            Some(d) => Ok(d),
            None => Err(DedrmError::Inflate),
        },
    }
}

/// Decrypts, then inflates where the algorithm says so.
pub fn decode_file(key: &AdeptEncryptionKey, data: &[u8], algorithm: &Algorithm) -> (r: Result<Vec<u8>, DedrmError>)
    ensures
        r is Ok <==> decoded_of(key.bytes(), *algorithm, data@) is Some,
        r matches Ok(d) ==> decoded_of(key.bytes(), *algorithm, data@) == Some(d@),
{
    let decrypted = match decrypt_file(key, data, &algorithm.encryption) {
        Ok(d) => d,
        Err(e) => return Err(e),
    };
    decompress_file(decrypted.as_slice(), &algorithm.compression)
}

/// The manifest as (path, algorithm) pairs.
pub open spec fn manifest_view(m: Seq<EncryptedData>) -> Seq<(Seq<char>, Algorithm)> {
    Seq::new(m.len(), |i: int| (m[i].path@, m[i].algorithm))
}

/// The algorithm that the manifest gives a path; a later mention wins.
pub open spec fn manifest_lookup(m: Seq<(Seq<char>, Algorithm)>, name: Seq<char>) -> Option<Algorithm>
    decreases m.len(),
{
    if m.len() == 0 {
        None
    } else if m.last().0 == name {
        Some(m.last().1)
    } else {
        manifest_lookup(m.drop_last(), name)
    }
}

/// The entries of the rebuilt archive: the manifest is left out, listed entries are
/// decoded, all others kept as they are; `None` where a listed entry does not decode.
pub open spec fn rebuilt_entries(
    entries: Seq<(Seq<char>, Seq<u8>)>,
    m: Seq<(Seq<char>, Algorithm)>,
    key: Seq<u8>,
) -> Option<Seq<(Seq<char>, Seq<u8>)>>
    decreases entries.len(),
{
    if entries.len() == 0 {
        Some(Seq::empty())
    } else {
        match rebuilt_entries(entries.drop_last(), m, key) {
            None => None,
            Some(rest) => {
                let name = entries.last().0;
                let data = entries.last().1;
                if name == ENCRYPTION_FILEPATH@ {
                    Some(rest)
                } else {
                    match manifest_lookup(m, name) {
                        None => Some(rest.push((name, data))),
                        Some(alg) => match decoded_of(key, alg, data) {
                            Some(d) => Some(rest.push((name, d))),
                            None => None,
                        },
                    }
                }
            },
        }
    }
}

/// The records of the rebuilt archive: retained entries keep their method and stored record
/// (a raw copy), decoded entries are written anew under DEFLATE, the manifest is left out.
pub open spec fn rebuilt_records(
    entries: Seq<(Seq<char>, Seq<u8>)>,
    records: Seq<(u16, Seq<u8>)>,
    m: Seq<(Seq<char>, Algorithm)>,
) -> Seq<(u16, Option<Seq<u8>>)>
    decreases entries.len(),
{
    if entries.len() == 0 || records.len() == 0 {
        Seq::empty()
    } else {
        let rest = rebuilt_records(entries.drop_last(), records.drop_last(), m);
        let name = entries.last().0;
        if name == ENCRYPTION_FILEPATH@ {
            rest
        } else {
            match manifest_lookup(m, name) {
                None => rest.push((records.last().0, Some(records.last().1))),
                Some(_) => rest.push((DEFLATED_METHOD, None)),
            }
        }
    }
}

/// What happens to an entry of the input archive.
pub enum ZipFileDisposition {
    /// Left out of the output.
    Delete,
    /// Copied raw: compressed data, method, CRC and metadata unchanged.
    Retain,
    /// Written anew with this content.
    Modify(Vec<u8>),
}

/// The rebuilder of a protected EPUB: the content key and the manifest's entries.
pub struct EpubDecryptRebuilder {
    pub encryption_key: AdeptEncryptionKey,
    pub encrypted_files: Vec<EncryptedData>,
}

impl EpubDecryptRebuilder {
    /// Whether the entry is the manifest, which is left out.
    pub fn should_ship_file(&self, filename: &str) -> (r: bool)
        ensures
            r == (filename@ == ENCRYPTION_FILEPATH@),
    {
        same_text(filename, ENCRYPTION_FILEPATH)
    }

    /// The algorithm that the manifest gives a path.
    pub fn algorithm_of(&self, filename: &str) -> (r: Option<Algorithm>)
        ensures
            r == manifest_lookup(manifest_view(self.encrypted_files@), filename@),
    {
        let files = &self.encrypted_files;
        let mut i: usize = files.len();
        proof {
            assert(files@.subrange(0, files@.len() as int) =~= files@);
        }
        while i > 0
            invariant
                files@ == self.encrypted_files@,
                i <= files@.len(),
                manifest_lookup(manifest_view(files@), filename@) == manifest_lookup(
                    manifest_view(files@.subrange(0, i as int)),
                    filename@,
                ),
            decreases i,
        {
            proof {
                assert(manifest_view(files@.subrange(0, i as int)).drop_last() =~= manifest_view(
                    files@.subrange(0, i - 1),
                ));
            }
            if same_text(files[i - 1].path.as_str(), filename) {
                return Some(files[i - 1].algorithm);
            }
            i -= 1;
        }
        proof {
            assert(manifest_view(files@.subrange(0, 0)) =~= Seq::<(Seq<char>, Algorithm)>::empty());
        }
        None
    }

    /// The fate of one entry: the manifest is deleted, listed entries are decoded, the
    /// others retained.
    pub fn process_file(&self, filename: &str, data: Option<&[u8]>) -> (r: Result<ZipFileDisposition, DedrmError>)
        ensures
            filename@ == ENCRYPTION_FILEPATH@ ==> r matches Ok(ZipFileDisposition::Delete),
            filename@ != ENCRYPTION_FILEPATH@ && manifest_lookup(manifest_view(self.encrypted_files@), filename@) is None
                ==> r matches Ok(ZipFileDisposition::Retain),
            filename@ != ENCRYPTION_FILEPATH@ ==> match (
                data,
                manifest_lookup(manifest_view(self.encrypted_files@), filename@),
            ) {
                (Some(d), Some(alg)) => match decoded_of(self.encryption_key.bytes(), alg, d@) {
                    Some(x) => (r matches Ok(ZipFileDisposition::Modify(y)) && y@ == x),
                    None => r is Err,
                },
                (None, Some(_)) => r is Err,
                _ => true,
            },
    {
        if self.should_ship_file(filename) {
            return Ok(ZipFileDisposition::Delete);
        }
        let algorithm = match self.algorithm_of(filename) {
            Some(a) => a,
            None => return Ok(ZipFileDisposition::Retain),
        };
        match data {
            Some(d) => match decode_file(&self.encryption_key, d, &algorithm) {
                Ok(x) => Ok(ZipFileDisposition::Modify(x)),
                Err(e) => Err(e),
            },
            None => Err(DedrmError::Zip),
        }
    }
}

} // verus!

verus! {

/// The manifest text in `content` parses to a root whose `EncryptedData` children are `v`.
pub open spec fn manifest_in(content: Seq<u8>, v: Seq<EncryptedData>) -> bool {
    xml_parse_of(decode_utf8(content)) matches Some(root) && manifest_from(v, root)
}

/// The manifest entries `v` are what the archive's `META-INF/encryption.xml` describes;
/// none where the archive has no such entry.
pub open spec fn manifest_described(entries: Seq<(Seq<char>, Seq<u8>)>, v: Seq<EncryptedData>) -> bool {
    if has_manifest_entry(entries) {
        exists|i: int|
            0 <= i < entries.len() && (#[trigger] entries[i]).0 == ENCRYPTION_FILEPATH@ && valid_utf8(entries[i].1)
                && manifest_in(entries[i].1, v)
    } else {
        v.len() == 0
    }
}

impl EpubDecryptRebuilder {
    /// Reads the manifest from the archive; an archive without one has nothing encrypted.
    pub fn init(encryption_key: AdeptEncryptionKey, archive: &mut crate::epub::ArchiveIn) -> (r: Result<Self, DedrmError>)
        ensures
            archive_entries(*final(archive)) == archive_entries(*old(archive)),
            archive_intact(*final(archive)) == archive_intact(*old(archive)),
            archive_records(*final(archive)) == archive_records(*old(archive)),
            !has_manifest_entry(archive_entries(*old(archive))) ==> (r matches Ok(b) && b.encrypted_files@.len()
                == 0),
            archive_intact(*old(archive)) && entry_names(archive_entries(*old(archive))).no_duplicates()
                && manifest_readable(archive_entries(*old(archive))) ==> r is Ok,
            r matches Ok(b) ==> b.encryption_key == encryption_key && manifest_described(
                archive_entries(*old(archive)),
                b.encrypted_files@,
            ),
    {
        let ghost entries = archive_entries(*archive);
        proof {
            reveal_strlit("META-INF/encryption.xml");
            assert(is_ascii_text(ENCRYPTION_FILEPATH@));
        }
        let manifest: Vec<EncryptedData> = match read_entry_by_name(archive, ENCRYPTION_FILEPATH) {
            Some(None) => Vec::new(),
            Some(Some(bytes)) => {
                proof {
                    assert(has_manifest_entry(entries));
                }
                let ghost content = bytes@;
                proof {
                    let j = choose|j: int|
                        0 <= j < entries.len() && #[trigger] entries[j] == (ENCRYPTION_FILEPATH@, content);
                    if archive_intact(*old(archive)) && entry_names(entries).no_duplicates() && manifest_readable(entries) {
                        let i = choose|i: int|
                            0 <= i < entries.len() && (#[trigger] entries[i]).0 == ENCRYPTION_FILEPATH@ && valid_utf8(
                                entries[i].1,
                            ) && xml_parse_of(decode_utf8(entries[i].1)) is Some && manifest_ok(
                                xml_parse_of(decode_utf8(entries[i].1))->0,
                            );
                        if i != j {
                            assert(entry_names(entries)[i] == entry_names(entries)[j]);
                        }
                        assert(valid_utf8(content));
                    }
                }
                let text = match utf8_text(bytes) {
                    Some(t) => t,
                    None => return Err(DedrmError::ManifestNotUtf8),
                };
                proof {
                    vstd::utf8::encode_utf8_decode_utf8(text@);
                    assert(decode_utf8(content) == text@);
                }
                match parse_encryption_file(text.as_str()) {
                    Ok(m) => {
                        proof {
                            let i = choose|i: int|
                                0 <= i < entries.len() && #[trigger] entries[i] == (ENCRYPTION_FILEPATH@, content);
                            let root = xml_parse_of(text@)->0;
                            assert(entries[i].1 == content);
                            assert(manifest_described(entries, m@));
                        }
                        m
                    },
                    Err(e) => return Err(DedrmError::Manifest(e)),
                }
            },
            None => return Err(DedrmError::Zip),
        };
        Ok(EpubDecryptRebuilder { encryption_key, encrypted_files: manifest })
    }
}

pub open spec fn has_manifest_entry(entries: Seq<(Seq<char>, Seq<u8>)>) -> bool {
    exists|i: int| 0 <= i < entries.len() && (#[trigger] entries[i]).0 == ENCRYPTION_FILEPATH@
}

/// `output` is the rebuild of `input` under `key`, for the manifest that `input` holds
/// (none when it holds no `META-INF/encryption.xml`).
pub open spec fn rebuilds(input: Seq<u8>, output: Seq<u8>, key: Seq<u8>) -> bool {
    exists|entries: Seq<(Seq<char>, Seq<u8>)>, v: Seq<EncryptedData>|
        #![trigger rebuilt_entries(entries, manifest_view(v), key)]
        zip_entries_of(input) == Some(entries) && manifest_described(entries, v) && rebuilt_entries(
            entries,
            manifest_view(v),
            key,
        ) is Some && zip_entries_of(output) == rebuilt_entries(entries, manifest_view(v), key)
            && rebuilt_records_of(input, output, entries, manifest_view(v))
}

/// The output's methods and stored records are those of the rebuild of the input.
pub open spec fn rebuilt_records_of(
    input: Seq<u8>,
    output: Seq<u8>,
    entries: Seq<(Seq<char>, Seq<u8>)>,
    m: Seq<(Seq<char>, Algorithm)>,
) -> bool {
    &&& zip_records_of(input) is Some
    &&& zip_records_of(output) is Some
    &&& zip_records_of(input)->0.len() == entries.len()
    &&& records_match(zip_records_of(output)->0, rebuilt_records(entries, zip_records_of(input)->0, m))
}

/// The archive's manifest, if it has one, is UTF-8 text of a complete manifest.
pub open spec fn manifest_readable(entries: Seq<(Seq<char>, Seq<u8>)>) -> bool {
    has_manifest_entry(entries) ==> exists|i: int|
        0 <= i < entries.len() && (#[trigger] entries[i]).0 == ENCRYPTION_FILEPATH@ && valid_utf8(entries[i].1)
            && xml_parse_of(decode_utf8(entries[i].1)) is Some && manifest_ok(
            xml_parse_of(decode_utf8(entries[i].1))->0,
        )
}

/// An intact archive with distinct names, a readable manifest, and entries that all decode
/// under the key: its rebuild is owed.
pub open spec fn rebuild_owed_under(input: Seq<u8>, key: Seq<u8>) -> bool {
    &&& zip_entries_of(input) is Some
    &&& entry_names(zip_entries_of(input)->0).no_duplicates()
    &&& zip_intact_of(input)
    &&& manifest_readable(zip_entries_of(input)->0)
    &&& forall|v: Seq<EncryptedData>|
        manifest_described(zip_entries_of(input)->0, v) ==> #[trigger] rebuilt_entries(
            zip_entries_of(input)->0,
            manifest_view(v),
            key,
        ) is Some
}

proof fn lemma_rebuilt_prefix(
    entries: Seq<(Seq<char>, Seq<u8>)>,
    m: Seq<(Seq<char>, Algorithm)>,
    key: Seq<u8>,
    k: int,
)
    requires
        rebuilt_entries(entries, m, key) is Some,
        0 <= k <= entries.len(),
    ensures
        rebuilt_entries(entries.subrange(0, k), m, key) is Some,
    decreases entries.len(),
{
    if k == entries.len() {
        assert(entries.subrange(0, k) =~= entries);
    } else {
        assert(entries.drop_last().subrange(0, k) =~= entries.subrange(0, k));
        lemma_rebuilt_prefix(entries.drop_last(), m, key, k);
    }
}

proof fn lemma_rebuilt_names(
    entries: Seq<(Seq<char>, Seq<u8>)>,
    m: Seq<(Seq<char>, Algorithm)>,
    key: Seq<u8>,
)
    requires
        rebuilt_entries(entries, m, key) is Some,
    ensures
        forall|j: int|
            0 <= j < rebuilt_entries(entries, m, key)->0.len() ==> exists|k: int|
                0 <= k < entries.len() && (#[trigger] rebuilt_entries(entries, m, key)->0[j]).0 == entries[k].0,
    decreases entries.len(),
{
    if entries.len() > 0 {
        lemma_rebuilt_names(entries.drop_last(), m, key);
        let out = rebuilt_entries(entries, m, key)->0;
        let rest = rebuilt_entries(entries.drop_last(), m, key)->0;
        assert forall|j: int| 0 <= j < out.len() implies exists|k: int|
            0 <= k < entries.len() && (#[trigger] out[j]).0 == entries[k].0 by {
            if j < rest.len() {
                assert(out[j] == rest[j]);
                let k = choose|k: int| 0 <= k < entries.drop_last().len() && rest[j].0 == entries.drop_last()[k].0;
                assert(entries.drop_last()[k] == entries[k]);
            } else {
                assert(out[j].0 == entries[entries.len() - 1].0);
            }
        }
    }
}

/// An intact archive with distinct names and no manifest: its rebuild is owed.
pub open spec fn rebuild_owed(input: Seq<u8>) -> bool {
    &&& zip_entries_of(input) is Some
    &&& !has_manifest_entry(zip_entries_of(input)->0)
    &&& entry_names(zip_entries_of(input)->0).no_duplicates()
    &&& zip_intact_of(input)
}

/// Reads the manifest, then writes every entry but the manifest, in order: listed
/// entries decoded and written anew, the others copied raw.
pub fn rebuild_zip(input: Vec<u8>, encryption_key: AdeptEncryptionKey) -> (r: Result<Vec<u8>, DedrmError>)
    ensures
        r matches Ok(out) ==> rebuilds(input@, out@, encryption_key.bytes()),
        rebuild_owed(input@) ==> r is Ok,
        rebuild_owed_under(input@, encryption_key.bytes()) ==> r is Ok,
{
    let ghost input_bytes = input@;
    let mut archive = match open_archive(input) {
        Some(a) => a,
        None => return Err(DedrmError::Zip),
    };
    let ghost entries = archive_entries(archive);
    let ghost records = archive_records(archive);
    let rebuilder = match EpubDecryptRebuilder::init(encryption_key, &mut archive) {
        Ok(b) => b,
        Err(e) => return Err(e),
    };
    let ghost m = manifest_view(rebuilder.encrypted_files@);
    let ghost key = encryption_key.bytes();
    proof {
        if rebuild_owed_under(input_bytes, key) {
            assert(manifest_described(entries, rebuilder.encrypted_files@));
            assert(rebuilt_entries(entries, manifest_view(rebuilder.encrypted_files@), key) is Some);
        }
    }
    let n = archive_len(&archive);
    let mut out = new_archive_out();
    let mut i: usize = 0;
    proof {
        assert(entries.subrange(0, 0) =~= Seq::<(Seq<char>, Seq<u8>)>::empty());
    }
    while i < n
        invariant
            archive_entries(archive) == entries,
            n == entries.len(),
            i <= n,
            m == manifest_view(rebuilder.encrypted_files@),
            key == rebuilder.encryption_key.bytes(),
            rebuilt_entries(entries.subrange(0, i as int), m, key) == Some(written_entries(out)),
            archive_records(archive) == records,
            records.len() == entries.len(),
            zip_records_of(input_bytes) == Some(records),
            written_records(out) == rebuilt_records(
                entries.subrange(0, i as int),
                records.subrange(0, i as int),
                m,
            ),
            archive_intact(archive) == zip_intact_of(input_bytes),
            input_bytes == input@,
            key == encryption_key.bytes(),
            zip_entries_of(input_bytes) == Some(entries),
            rebuild_owed(input_bytes) ==> m.len() == 0 && writer_healthy(out) && written_entries(out)
                == entries.subrange(0, i as int),
            rebuild_owed_under(input_bytes, key) ==> {
                &&& writer_healthy(out)
                &&& entry_names(entries).no_duplicates()
                &&& zip_intact_of(input_bytes)
                &&& rebuilt_entries(entries, m, key) is Some
            },
        decreases n - i,
    {
        proof {
            if rebuild_owed_under(input_bytes, key) {
                lemma_rebuilt_prefix(entries, m, key, i as int);
                lemma_rebuilt_prefix(entries, m, key, i + 1);
                lemma_rebuilt_names(entries.subrange(0, i as int), m, key);
                assert(!entry_names(written_entries(out)).contains(entries[i as int].0)) by {
                    if entry_names(written_entries(out)).contains(entries[i as int].0) {
                        let j = choose|j: int|
                            0 <= j < entry_names(written_entries(out)).len() && entry_names(written_entries(out))[j]
                                == entries[i as int].0;
                        assert(written_entries(out)[j].0 == entries[i as int].0);
                        let pre = entries.subrange(0, i as int);
                        assert(rebuilt_entries(pre, m, key)->0[j] == written_entries(out)[j]);
                        let k = choose|k: int|
                            0 <= k < pre.len() && (#[trigger] rebuilt_entries(pre, m, key)->0[j]).0 == pre[k].0;
                        assert(pre[k] == entries[k]);
                        assert(entry_names(entries)[k] == entry_names(entries)[i as int]);
                    }
                }
                assert(entries.subrange(0, i + 1).drop_last() =~= entries.subrange(0, i as int));
                assert(entries.subrange(0, i + 1).last() == entries[i as int]);
                assert(entries[i as int].0 != ENCRYPTION_FILEPATH@ && manifest_lookup(m, entries[i as int].0) is Some
                    ==> decoded_of(key, manifest_lookup(m, entries[i as int].0)->0, entries[i as int].1) is Some);
            }
            if rebuild_owed(input_bytes) {
                assert(!entry_names(written_entries(out)).contains(entries[i as int].0)) by {
                    if entry_names(written_entries(out)).contains(entries[i as int].0) {
                        let j = choose|j: int|
                            0 <= j < entry_names(written_entries(out)).len() && entry_names(written_entries(out))[j]
                                == entries[i as int].0;
                        assert(entry_names(entries)[j] == entry_names(entries)[i as int]);
                    }
                }
                assert(entries[i as int].0 != ENCRYPTION_FILEPATH@);
                assert(manifest_lookup(m, entries[i as int].0) is None);
            }
        }
        let name = match entry_name(&mut archive, i) {
            Some(n) => n,
            None => return Err(DedrmError::Zip),
        };
        let listed = !rebuilder.should_ship_file(name.as_str()) && rebuilder.algorithm_of(name.as_str()).is_some();
        let data: Option<Vec<u8>> = if listed {
            match read_entry(&mut archive, i) {
                Some(d) => Some(d),
                None => return Err(DedrmError::Zip),
            }
        } else {
            None
        };
        let disposition = match &data {
            Some(d) => rebuilder.process_file(name.as_str(), Some(d.as_slice())),
            None => rebuilder.process_file(name.as_str(), None),
        };
        let disposition = match disposition {
            Ok(d) => d,
            Err(e) => return Err(e),
        };
        proof {
            assert(entries.subrange(0, i + 1).drop_last() =~= entries.subrange(0, i as int));
            assert(entries.subrange(0, i + 1).last() == entries[i as int]);
            assert(records.subrange(0, i + 1).drop_last() =~= records.subrange(0, i as int));
            assert(records.subrange(0, i + 1).last() == records[i as int]);
        }
        match disposition {
            ZipFileDisposition::Delete => {},
            ZipFileDisposition::Retain => {
                if !copy_entry_raw(&mut out, &mut archive, i) {
                    return Err(DedrmError::Zip);
                }
            },
            ZipFileDisposition::Modify(x) => {
                if !write_entry(&mut out, &mut archive, i, x.as_slice()) {
                    return Err(DedrmError::Zip);
                }
            },
        }
        proof {
            if rebuild_owed(input_bytes) {
                assert(entries.subrange(0, i + 1) =~= entries.subrange(0, i as int).push(entries[i as int]));
            }
        }
        i += 1;
    }
    proof {
        assert(entries.subrange(0, n as int) =~= entries);
        assert(records.subrange(0, n as int) =~= records);
    }
    match finish_archive(out) {
        Some(b) => {
            proof {
                assert(rebuilt_entries(entries, m, key) is Some);
                assert(manifest_described(entries, rebuilder.encrypted_files@));
            }
            Ok(b)
        },
        None => Err(DedrmError::Zip),
    }
}

/// Rebuild fidelity: with no manifest entry and so an empty manifest, the rebuilt
/// entries are the input entries, same names, same order, same content.
pub proof fn lemma_rebuild_without_manifest(entries: Seq<(Seq<char>, Seq<u8>)>, key: Seq<u8>)
    requires
        !has_manifest_entry(entries),
    ensures
        rebuilt_entries(entries, Seq::empty(), key) == Some(entries),
    decreases entries.len(),
{
    if entries.len() > 0 {
        assert(!has_manifest_entry(entries.drop_last())) by {
            if has_manifest_entry(entries.drop_last()) {
                let i = choose|i: int| 0 <= i < entries.drop_last().len() && (#[trigger] entries.drop_last()[i]).0
                    == ENCRYPTION_FILEPATH@;
                assert(entries[i] == entries.drop_last()[i]);
            }
        }
        lemma_rebuild_without_manifest(entries.drop_last(), key);
        assert(entries.last() == entries[entries.len() - 1]);
        assert(entries.drop_last().push(entries.last()) =~= entries);
    }
}

proof fn lemma_records_without_manifest(
    entries: Seq<(Seq<char>, Seq<u8>)>,
    records: Seq<(u16, Seq<u8>)>,
)
    requires
        !has_manifest_entry(entries),
        records.len() == entries.len(),
    ensures
        rebuilt_records(entries, records, Seq::empty()) == Seq::new(
            records.len(),
            |i: int| (records[i].0, Some(records[i].1)),
        ),
    decreases entries.len(),
{
    if entries.len() > 0 {
        assert(!has_manifest_entry(entries.drop_last())) by {
            if has_manifest_entry(entries.drop_last()) {
                let i = choose|i: int| 0 <= i < entries.drop_last().len() && (#[trigger] entries.drop_last()[i]).0
                    == ENCRYPTION_FILEPATH@;
                assert(entries[i] == entries.drop_last()[i]);
            }
        }
        lemma_records_without_manifest(entries.drop_last(), records.drop_last());
        assert(entries.last() == entries[entries.len() - 1]);
        assert(rebuilt_records(entries, records, Seq::empty()) =~= Seq::new(
            records.len(),
            |i: int| (records[i].0, Some(records[i].1)),
        ));
    } else {
        assert(rebuilt_records(entries, records, Seq::empty()) =~= Seq::new(
            records.len(),
            |i: int| (records[i].0, Some(records[i].1)),
        ));
    }
}

/// An archive without `META-INF/encryption.xml` comes out of the rebuild with exactly
/// its entries: the same names in the same order, with the same content, each raw-copied
/// with its compression method and stored record (compressed data, CRC, metadata).
pub proof fn lemma_rebuild_fidelity(input: Seq<u8>, output: Seq<u8>, key: Seq<u8>)
    requires
        rebuilds(input, output, key),
        zip_entries_of(input) matches Some(e) && !has_manifest_entry(e),
    ensures
        zip_entries_of(output) == zip_entries_of(input),
        zip_records_of(input) matches Some(rin) && zip_records_of(output) matches Some(rout) && rout == rin,
{
    let (entries, v) = choose|entries: Seq<(Seq<char>, Seq<u8>)>, v: Seq<EncryptedData>|
        zip_entries_of(input) == Some(entries) && manifest_described(entries, v) && rebuilt_entries(
            entries,
            manifest_view(v),
            key,
        ) is Some && zip_entries_of(output) == rebuilt_entries(entries, manifest_view(v), key)
            && rebuilt_records_of(input, output, entries, manifest_view(v));
    assert(manifest_view(v) =~= Seq::<(Seq<char>, Algorithm)>::empty());
    lemma_rebuild_without_manifest(entries, key);
    let rin = zip_records_of(input)->0;
    let rout = zip_records_of(output)->0;
    lemma_records_without_manifest(entries, rin);
    let w = rebuilt_records(entries, rin, manifest_view(v));
    assert(w == rebuilt_records(entries, rin, Seq::empty()));
    assert forall|i: int| 0 <= i < rout.len() implies rout[i] == rin[i] by {
        assert(w[i] == (rin[i].0, Some(rin[i].1)));
        assert(rout[i].0 == w[i].0);
    }
    assert(rout =~= rin);
}

/// Removes the DRM from an EPUB held in memory.
pub fn dedrm_epub(input: Vec<u8>, encryption_key: AdeptEncryptionKey) -> (r: Result<Vec<u8>, DedrmError>)
    ensures
        r matches Ok(out) ==> rebuilds(input@, out@, encryption_key.bytes()),
        rebuild_owed(input@) ==> r is Ok,
        rebuild_owed_under(input@, encryption_key.bytes()) ==> r is Ok,
{
    rebuild_zip(input, encryption_key)
}

pub fn dedrm_epub_resource(encryption_key: AdeptEncryptionKey, encrypted_resource: &[u8]) -> (r: Result<Vec<u8>, DedrmError>)
    ensures
        r matches Ok(out) ==> rebuilds(encrypted_resource@, out@, encryption_key.bytes()),
        rebuild_owed(encrypted_resource@) ==> r is Ok,
        rebuild_owed_under(encrypted_resource@, encryption_key.bytes()) ==> r is Ok,
{
    dedrm_epub(crate::crypto::copy_bytes(encrypted_resource), encryption_key)
}

/// The kinds of resource whose DRM can be removed.
#[derive(Debug, Clone, Copy, PartialEq, Eq, Structural)]
pub enum ResourceType {
    Epub,
}

impl ResourceType {
    pub fn from_item_type(item_type: &str) -> (r: Option<Self>)
        ensures
            r == if item_type@ == "application/epub+zip"@ { Some(ResourceType::Epub) } else { None::<ResourceType> },
    {
        if same_text(item_type, "application/epub+zip") {
            Some(ResourceType::Epub)
        } else {
            None
        }
    }

    pub fn file_extension(&self) -> (r: &'static str)
        ensures
            *self == ResourceType::Epub ==> r@ == "epub"@,
    {
        match self {
            ResourceType::Epub => "epub",
        }
    }
}

/// Unwraps the content key with the private license key and removes the DRM.
pub fn dedrm_resource(
    resource_type: ResourceType,
    encrypted_key: &[u8],
    private_license_key: &[u8],
    encrypted_resource: &[u8],
) -> (r: Result<Vec<u8>, DedrmError>)
    ensures
        !is_rsa_pkcs8_key(private_license_key@) ==> r is Err,
        is_rsa_pkcs8_key(private_license_key@) ==> match rsa_decrypt_of(private_license_key@, encrypted_key@) {
            Some(k) => if k.len() == 16 {
                rebuild_owed_under(encrypted_resource@, k) ==> r is Ok
            } else {
                r matches Err(DedrmError::KeyLength(n)) && n == k.len()
            },
            None => r matches Err(DedrmError::Crypto(CryptoError::Decrypt)),
        },
        r matches Ok(out) ==> exists|k: Seq<u8>|
            rsa_decrypt_of(private_license_key@, encrypted_key@) == Some(k) && k.len() == 16 && rebuilds(
                encrypted_resource@,
                out@,
                k,
            ),
{
    let key = match decrypt_adept_encryption_key(encrypted_key, private_license_key) {
        Ok(k) => k,
        Err(e) => return Err(e),
    };
    match resource_type {
        ResourceType::Epub => {
            let r = dedrm_epub_resource(key, encrypted_resource);
            proof {
                if r is Ok {
                    assert(key.bytes().len() == 16);
                }
            }
            r
        },
    }
}

} // verus!
