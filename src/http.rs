use vstd::prelude::*;
use vstd::string::StringExecFns;
use vstd::utf8::{decode_utf8, encode_utf8, valid_utf8};
use crate::writer::string_from_chars;
use crate::xml::{attribute_list, chars_of, is_white_space, parse_xml, same_text, xml_parse_of};

verus! {

pub const USERAGENT: &'static str = "book2png";

pub const CONTENT_TYPE: &'static str = "application/vnd.adobe.adept+xml";

pub const ADEPT_XMLNS: &'static str = "http://ns.adobe.com/adept";

#[derive(Debug, Clone, Copy, PartialEq, Eq, Structural)]
pub enum HttpMethod {
    Get,
    Post,
}

pub struct HttpContent {
    pub content_type: String,
    pub content: Vec<u8>,
}

/// What the transport is asked to send.
pub struct HttpRequest {
    pub method: HttpMethod,
    pub url: String,
    pub useragent: String,
    pub content: Option<HttpContent>,
}

/// What the transport received.
pub struct HttpResponse {
    pub response_code: u16,
    pub content_type: String,
    pub body: Vec<u8>,
}

/// An error that the ADEPT server reported as `<error data="NAME ARG ..."/>`.
pub struct AdeptError {
    pub name: String,
    pub args: Vec<String>,
}

/// Why a response was not accepted.
pub enum ResponseError {
    /// The HTTP status was not 200.
    Status(u16),
    /// The content type was not the ADEPT one; it holds what came.
    ContentType(String),
    /// The body is not UTF-8.
    NotUtf8,
    /// The body is not a well-formed XML document.
    MalformedXml,
    /// The server reported an error.
    Adept(AdeptError),
}

pub fn make_url(base: &str, path: &str) -> (r: String)
    ensures
        r@ == base@ + path@,
{
    let mut url = String::from_str(base);
    url.append(path);
    url
}

/// A GET of `base + path`.
pub fn make_get(base: &str, path: &str) -> (r: HttpRequest)
    ensures
        r.method == HttpMethod::Get,
        r.url@ == base@ + path@,
        r.useragent@ == USERAGENT@,
        r.content is None,
{
    HttpRequest {
        method: HttpMethod::Get,
        url: make_url(base, path),
        useragent: String::from_str(USERAGENT),
        content: None,
    }
}

/// A POST of an ADEPT document to `base + path`.
pub fn make_post_serialized(base: &str, path: &str, content: &str) -> (r: HttpRequest)
    ensures
        r.method == HttpMethod::Post,
        r.url@ == base@ + path@,
        r.useragent@ == USERAGENT@,
        r.content matches Some(c) && c.content_type@ == CONTENT_TYPE@ && c.content@ == encode_utf8(
            content@,
        ),
{
    let bytes = crate::crypto::copy_bytes(content.as_bytes());
    HttpRequest {
        method: HttpMethod::Post,
        url: make_url(base, path),
        useragent: String::from_str(USERAGENT),
        content: Some(HttpContent { content_type: String::from_str(CONTENT_TYPE), content: bytes }),
    }
}

/// Relies on std's `String::from_utf8`: it accepts exactly the valid UTF-8 byte strings.
#[verifier::external_body]
pub(crate) fn utf8_text(bytes: Vec<u8>) -> (r: Option<String>)
    ensures
        r is Some <==> valid_utf8(bytes@),
        r matches Some(s) ==> encode_utf8(s@) == bytes@,
{
    String::from_utf8(bytes).ok()
}

/// Checks status and content type, and decodes the body.
pub fn parse_response_inner(response: HttpResponse) -> (r: Result<String, ResponseError>)
    ensures
        response.response_code != 200 ==> (r matches Err(ResponseError::Status(c)) && c
            == response.response_code),
        response.response_code == 200 && response.content_type@ != CONTENT_TYPE@ ==> (r matches Err(
            ResponseError::ContentType(t),
        ) && t@ == response.content_type@),
        response.response_code == 200 && response.content_type@ == CONTENT_TYPE@ ==> {
            &&& (r matches Err(ResponseError::NotUtf8) <==> !valid_utf8(response.body@))
            &&& (r matches Ok(s) ==> encode_utf8(s@) == response.body@)
            &&& (r is Ok || r matches Err(ResponseError::NotUtf8))
        },
{
    if response.response_code != 200 {
        return Err(ResponseError::Status(response.response_code));
    }
    if !same_text(response.content_type.as_str(), CONTENT_TYPE) {
        return Err(ResponseError::ContentType(response.content_type));
    }
    match utf8_text(response.body) {
        Some(s) => Ok(s),
        None => Err(ResponseError::NotUtf8),
    }
}

/// The value of the attribute with this local name.
pub fn attribute_value(e: &xmltree::Element, name: &str) -> (r: Option<String>)
    ensures
        r matches Some(v) ==> exists|k: String|
            #[trigger] e.attributes@.contains_key(k) && k@ == name@ && e.attributes@[k] == v,
        r matches Some(v) ==> forall|k: String|
            #[trigger] e.attributes@.contains_key(k) && k@ == name@ ==> e.attributes@[k] == v,
        r is None ==> forall|k: String| #[trigger] e.attributes@.contains_key(k) ==> k@ != name@,
{
    let all = attribute_list(e);
    let mut i: usize = 0;
    while i < all.len()
        invariant
            i <= all@.len(),
            forall|j: int| 0 <= j < i ==> (#[trigger] all@[j]).0@ != name@,
            forall|j: int|
                0 <= j < all@.len() ==> e.attributes@.contains_key(#[trigger] all@[j].0)
                    && e.attributes@[all@[j].0] == all@[j].1,
            forall|k: String|
                #[trigger] e.attributes@.contains_key(k) ==> exists|j: int|
                    0 <= j < all@.len() && #[trigger] all@[j].0 == k,
            forall|a: int, b: int| 0 <= a < b < all@.len() ==> (#[trigger] all@[a]).0@ != (#[trigger] all@[b]).0@,
        decreases all@.len() - i,
    {
        if same_text(all[i].0.as_str(), name) {
            proof {
                assert forall|k: String| #[trigger] e.attributes@.contains_key(k) && k@ == name@ implies e.attributes@[k]
                    == all@[i as int].1 by {
                    let j = choose|j: int| 0 <= j < all@.len() && #[trigger] all@[j].0 == k;
                    if j != i {
                        if j < i {
                            assert(all@[j].0@ != all@[i as int].0@);
                        } else {
                            assert(all@[i as int].0@ != all@[j].0@);
                        }
                    }
                }
            }
            return Some(all[i].1.clone());
        }
        i += 1;
    }
    None
}

/// The tokens of a text: the maximal runs of characters that are not white space.
pub open spec fn split_whitespace(s: Seq<char>) -> Seq<Seq<char>>
    decreases s.len(),
{
    if s.len() == 0 {
        Seq::empty()
    } else {
        let t = split_whitespace(s.drop_last());
        let c = s.last();
        if is_white_space(c) {
            t
        } else if s.len() >= 2 && !is_white_space(s[s.len() - 2]) {
            t.update(t.len() - 1, t.last().push(c))
        } else {
            t.push(seq![c])
        }
    }
}

/// The name of an ADEPT error: the first token of its data, or the whole data where it
/// holds no token.
pub open spec fn error_name(data: Seq<char>) -> Seq<char> {
    if split_whitespace(data).len() == 0 {
        data
    } else {
        split_whitespace(data)[0]
    }
}

/// The arguments of an ADEPT error: the tokens after the first.
pub open spec fn error_args(data: Seq<char>) -> Seq<Seq<char>> {
    if split_whitespace(data).len() == 0 {
        Seq::empty()
    } else {
        split_whitespace(data).drop_first()
    }
}

pub open spec fn string_views(v: Seq<String>) -> Seq<Seq<char>> {
    Seq::new(v.len(), |i: int| v[i]@)
}

/// Whether a character is Unicode white space.
pub fn is_space(c: char) -> (r: bool)
    ensures
        r == is_white_space(c),
{
    let u = c as u32;
    (9 <= u && u <= 13) || u == 32 || u == 0x85 || u == 0xa0 || u == 0x1680 || (0x2000 <= u && u <= 0x200a)
        || u == 0x2028 || u == 0x2029 || u == 0x202f || u == 0x205f || u == 0x3000
}

/// The first whitespace-separated token of `data` is the error's name, the others its
/// arguments.
pub fn parse_adept_error(data: &str) -> (r: AdeptError)
    ensures
        r.name@ == error_name(data@),
        string_views(r.args@) == error_args(data@),
{
    let cs = chars_of(data);
    let mut pieces: Vec<String> = Vec::new();
    let mut current: Vec<char> = Vec::new();
    let mut in_token = false;
    let mut i: usize = 0;
    proof {
        assert(data@.subrange(0, 0) =~= Seq::<char>::empty());
        assert(string_views(pieces@) =~= Seq::<Seq<char>>::empty());
    }
    while i < cs.len()
        invariant
            cs@ == data@,
            i <= cs@.len(),
            in_token ==> i >= 1 && !is_white_space(data@[i - 1]) && string_views(pieces@).push(current@)
                == split_whitespace(data@.subrange(0, i as int)),
            !in_token ==> (i == 0 || is_white_space(data@[i - 1])) && string_views(pieces@)
                == split_whitespace(data@.subrange(0, i as int)),
        decreases cs@.len() - i,
    {
        let c = cs[i];
        let ghost sub = data@.subrange(0, i + 1);
        proof {
            assert(sub.drop_last() =~= data@.subrange(0, i as int));
            assert(sub.last() == c);
            if i >= 1 {
                assert(sub[sub.len() - 2] == data@[i - 1]);
            }
        }
        if is_space(c) {
            if in_token {
                let piece = string_from_chars(current.as_slice());
                pieces.push(piece);
                current = Vec::new();
                in_token = false;
            }
            proof {
                assert(string_views(pieces@) =~= split_whitespace(sub));
            }
        } else {
            if in_token {
                current.push(c);
                proof {
                    assert(string_views(pieces@).push(current@) =~= split_whitespace(sub));
                }
            } else {
                current = Vec::new();
                current.push(c);
                in_token = true;
                proof {
                    assert(current@ =~= seq![c]);
                    assert(string_views(pieces@).push(current@) =~= split_whitespace(sub));
                }
            }
        }
        i += 1;
    }
    proof {
        assert(data@.subrange(0, data@.len() as int) =~= data@);
    }
    if in_token {
        let last = string_from_chars(current.as_slice());
        pieces.push(last);
        proof {
            assert(string_views(pieces@) =~= split_whitespace(data@));
        }
    }
    if pieces.len() == 0 {
        return AdeptError { name: String::from_str(data), args: pieces };
    }
    let name = pieces.remove(0);
    proof {
        assert(string_views(pieces@) =~= split_whitespace(data@).drop_first());
    }
    AdeptError { name, args: pieces }
}

/// The error that a document reports, if its root element carries a `data` attribute
/// (the shape `<error data="..."/>`).
pub fn try_parse_as_error(root: &xmltree::Element) -> (r: Option<AdeptError>)
    ensures
        r is Some <==> exists|k: String| #[trigger] root.attributes@.contains_key(k) && k@ == "data"@,
        r matches Some(err) ==> exists|k: String|
            #[trigger] root.attributes@.contains_key(k) && k@ == "data"@ && err.name@ == error_name(
                root.attributes@[k]@,
            ) && string_views(err.args@) == error_args(root.attributes@[k]@),
{
    match attribute_value(root, "data") {
        Some(data) => Some(parse_adept_error(data.as_str())),
        None => None,
    }
}

/// The root element carries a `data` attribute.
pub open spec fn has_data_attribute(root: xmltree::Element) -> bool {
    exists|k: String| #[trigger] root.attributes@.contains_key(k) && k@ == "data"@
}

/// The error is the one that the root's `data` attribute reports.
pub open spec fn reports(root: xmltree::Element, err: AdeptError) -> bool {
    exists|k: String|
        #[trigger] root.attributes@.contains_key(k) && k@ == "data"@ && err.name@ == error_name(
            root.attributes@[k]@,
        ) && string_views(err.args@) == error_args(root.attributes@[k]@)
}

/// The root element of an accepted response: status 200, the ADEPT content type, UTF-8
/// text that parses, and no error report.
pub open spec fn accepted_root(response: HttpResponse) -> Option<xmltree::Element> {
    if response.response_code == 200 && response.content_type@ == CONTENT_TYPE@ && valid_utf8(response.body@) {
        match xml_parse_of(decode_utf8(response.body@)) {
            Some(root) => if has_data_attribute(root) {
                None
            } else {
                Some(root)
            },
            None => None,
        }
    } else {
        None
    }
}

/// Accepts a response: status 200, the ADEPT content type, a UTF-8 body that is a
/// well-formed document, and no error report. The error report is looked for first, so a
/// body that also has the shape of the expected answer is still taken as an error.
pub fn parse_response(response: HttpResponse) -> (r: Result<xmltree::Element, ResponseError>)
    ensures
        response.response_code != 200 ==> (r matches Err(ResponseError::Status(c)) && c
            == response.response_code),
        response.response_code == 200 && response.content_type@ != CONTENT_TYPE@ ==> r matches Err(
            ResponseError::ContentType(_),
        ),
        response.response_code == 200 && response.content_type@ == CONTENT_TYPE@ && !valid_utf8(
            response.body@,
        ) ==> r matches Err(ResponseError::NotUtf8),
        response.response_code == 200 && response.content_type@ == CONTENT_TYPE@ && valid_utf8(
            response.body@,
        ) ==> match xml_parse_of(decode_utf8(response.body@)) {
            None => r matches Err(ResponseError::MalformedXml),
            Some(root) => if has_data_attribute(root) {
                r matches Err(ResponseError::Adept(e)) && reports(root, e)
            } else {
                r == Ok::<xmltree::Element, ResponseError>(root)
            },
        },
        match accepted_root(response) {
            Some(root) => r == Ok::<xmltree::Element, ResponseError>(root),
            None => r is Err,
        },
{
    let ghost body = response.body@;
    let text = match parse_response_inner(response) {
        Ok(t) => t,
        Err(e) => return Err(e),
    };
    proof {
        vstd::utf8::encode_utf8_decode_utf8(text@);
        assert(decode_utf8(body) == text@);
    }
    let root = match parse_xml(text.as_str()) {
        Some(root) => root,
        None => return Err(ResponseError::MalformedXml),
    };
    match try_parse_as_error(&root) {
        Some(err) => Err(ResponseError::Adept(err)),
        None => Ok(root),
    }
}

} // verus!
