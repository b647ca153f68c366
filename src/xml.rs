use vstd::prelude::*;
use vstd::string::{StrSliceExecFns, StringExecFns};

verus! {

#[verifier::external_type_specification]
#[verifier::external_body]
pub struct ExNamespace(xmltree::Namespace);

/// A parsed element: its namespace URI, local name, attributes keyed by local name
/// (namespace declarations are not attributes), and children in document order.
#[verifier::external_type_specification]
pub struct ExElement(xmltree::Element);

#[verifier::external_type_specification]
pub struct ExXMLNode(xmltree::XMLNode);

/// Unicode `White_Space`, the set that `char::is_whitespace` and `str::trim` use.
pub open spec fn is_white_space(c: char) -> bool {
    let u = c as u32;
    (9 <= u <= 13) || u == 32 || u == 0x85 || u == 0xa0 || u == 0x1680 || (0x2000 <= u <= 0x200a)
        || u == 0x2028 || u == 0x2029 || u == 0x202f || u == 0x205f || u == 0x3000
}

pub open spec fn trim_start(s: Seq<char>) -> Seq<char>
    decreases s.len(),
{
    if s.len() > 0 && is_white_space(s[0]) {
        trim_start(s.drop_first())
    } else {
        s
    }
}

pub open spec fn trim_end(s: Seq<char>) -> Seq<char>
    decreases s.len(),
{
    if s.len() > 0 && is_white_space(s.last()) {
        trim_end(s.drop_last())
    } else {
        s
    }
}

/// The text without its leading and trailing white space.
pub open spec fn trim(s: Seq<char>) -> Seq<char> {
    trim_end(trim_start(s))
}

/// Relies on std's `str::trim`: leading and trailing `White_Space` removed.
#[verifier::external_body]
pub(crate) fn trim_text(s: &str) -> (r: &str)
    ensures
        r@ == trim(s@),
{
    s.trim()
}

/// Relies on std's `BTreeMap::iter`, which visits each entry of the map once; the keys
/// of a map of strings are distinct strings.
#[verifier::external_body]
pub(crate) fn attribute_list(e: &xmltree::Element) -> (r: Vec<(String, String)>)
    ensures
        forall|i: int|
            0 <= i < r@.len() ==> e.attributes@.contains_key(#[trigger] r@[i].0) && e.attributes@[r@[i].0]
                == r@[i].1,
        forall|k: String|
            #[trigger] e.attributes@.contains_key(k) ==> exists|i: int|
                0 <= i < r@.len() && #[trigger] r@[i].0 == k,
        forall|i: int, j: int|
            0 <= i < j < r@.len() ==> (#[trigger] r@[i]).0@ != (#[trigger] r@[j]).0@,
{
    e.attributes.iter().map(|(k, v)| (k.clone(), v.clone())).collect()
}

/// The root element that xmltree's parser makes of a document, `None` where the text is
/// not well-formed. (Attributes are kept in a `BTreeMap`, so the tree is a function of the
/// text alone.)
pub uninterp spec fn xml_parse_of(text: Seq<char>) -> Option<xmltree::Element>;

/// Relies on xmltree's `Element::parse`: the root element of a well-formed document.
#[verifier::external_body]
pub(crate) fn parse_xml(text: &str) -> (r: Option<xmltree::Element>)
    ensures
        r == xml_parse_of(text@),
{
    xmltree::Element::parse(text.as_bytes()).ok()
}

/// The characters of a text, in order.
pub fn chars_of(s: &str) -> (r: Vec<char>)
    ensures
        r@ == s@,
{
    let mut out: Vec<char> = Vec::new();
    let n = s.unicode_len();
    let mut i: usize = 0;
    while i < n
        invariant
            n == s@.len(),
            i <= n,
            out@ == s@.subrange(0, i as int),
        decreases n - i,
    {
        out.push(s.get_char(i));
        i += 1;
    }
    proof {
        assert(out@ =~= s@);
    }
    out
}

/// Whether two texts are the same characters.
pub fn same_text(a: &str, b: &str) -> (r: bool)
    ensures
        r == (a@ == b@),
{
    let x = chars_of(a);
    let y = chars_of(b);
    if x.len() != y.len() {
        return false;
    }
    let mut i: usize = 0;
    while i < x.len()
        invariant
            x@ == a@,
            y@ == b@,
            x@.len() == y@.len(),
            i <= x@.len(),
            forall|j: int| 0 <= j < i ==> x@[j] == y@[j],
        decreases x@.len() - i,
    {
        if x[i] != y[i] {
            return false;
        }
        i += 1;
    }
    proof {
        assert(a@ =~= b@);
    }
    true
}

/// Whether `s` begins with `prefix`.
pub fn text_starts_with(s: &str, prefix: &str) -> (r: bool)
    ensures
        r == (prefix@.len() <= s@.len() && s@.subrange(0, prefix@.len() as int) == prefix@),
{
    let x = chars_of(s);
    let p = chars_of(prefix);
    if p.len() > x.len() {
        return false;
    }
    let mut i: usize = 0;
    while i < p.len()
        invariant
            x@ == s@,
            p@ == prefix@,
            p@.len() <= x@.len(),
            i <= p@.len(),
            forall|j: int| 0 <= j < i ==> x@[j] == p@[j],
        decreases p@.len() - i,
    {
        if x[i] != p[i] {
            proof {
                assert(s@.subrange(0, prefix@.len() as int)[i as int] != prefix@[i as int]);
            }
            return false;
        }
        i += 1;
    }
    proof {
        assert(s@.subrange(0, prefix@.len() as int) =~= prefix@);
    }
    true
}

} // verus!

verus! {

/// The text children of an element, joined in document order.
pub open spec fn text_content(cs: Seq<xmltree::XMLNode>) -> Seq<char>
    decreases cs.len(),
{
    if cs.len() == 0 {
        Seq::empty()
    } else {
        text_content(cs.drop_last()) + match cs.last() {
            xmltree::XMLNode::Text(t) => t@,
            _ => Seq::empty(),
        }
    }
}

/// The element that a node is, if it is one.
pub open spec fn node_element(n: xmltree::XMLNode) -> Option<xmltree::Element> {
    match n {
        xmltree::XMLNode::Element(c) => Some(c),
        _ => None,
    }
}

/// Child node `i` is an element with this local name.
pub open spec fn is_named_child(cs: Seq<xmltree::XMLNode>, i: int, name: Seq<char>) -> bool {
    &&& 0 <= i < cs.len()
    &&& cs[i] matches xmltree::XMLNode::Element(c) && c.name@ == name
}

/// The first child element with this local name.
pub closed spec fn first_named_child(e: xmltree::Element, name: Seq<char>) -> Option<xmltree::Element> {
    let cs = e.children@;
    if exists|i: int| is_named_child(cs, i, name) {
        let i = choose|i: int|
            is_named_child(cs, i, name) && forall|j: int| 0 <= j < i ==> !is_named_child(cs, j, name);
        node_element(cs[i])
    } else {
        None
    }
}

/// The trimmed text of the first child element with this local name.
pub closed spec fn child_text_of(e: xmltree::Element, name: Seq<char>) -> Option<Seq<char>> {
    match first_named_child(e, name) {
        Some(c) => Some(trim(text_content(c.children@))),
        None => None,
    }
}

proof fn lemma_first_named(e: xmltree::Element, name: Seq<char>, i: int)
    requires
        is_named_child(e.children@, i, name),
        forall|j: int| 0 <= j < i ==> !is_named_child(e.children@, j, name),
    ensures
        first_named_child(e, name) == node_element(e.children@[i]),
{
    let cs = e.children@;
    let k = choose|k: int| is_named_child(cs, k, name) && forall|j: int| 0 <= j < k ==> !is_named_child(cs, j, name);
    if k < i {
        assert(!is_named_child(cs, k, name));
    } else if k > i {
        assert(!is_named_child(cs, i, name));
    }
}

/// The first child element with this local name.
pub fn find_child<'a>(e: &'a xmltree::Element, name: &str) -> (r: Option<&'a xmltree::Element>)
    ensures
        match first_named_child(*e, name@) {
            Some(c) => r matches Some(x) && *x == c,
            None => r is None,
        },
{
    let mut i: usize = 0;
    while i < e.children.len()
        invariant
            i <= e.children@.len(),
            forall|j: int| 0 <= j < i ==> !is_named_child(e.children@, j, name@),
        decreases e.children@.len() - i,
    {
        match &e.children[i] {
            xmltree::XMLNode::Element(c) => {
                if same_text(c.name.as_str(), name) {
                    proof {
                        lemma_first_named(*e, name@, i as int);
                    }
                    return Some(c);
                }
            },
            _ => {},
        }
        i += 1;
    }
    None
}

/// The trimmed text of an element.
pub fn element_text(e: &xmltree::Element) -> (r: String)
    ensures
        r@ == trim(text_content(e.children@)),
{
    let mut joined = String::new();
    let mut i: usize = 0;
    proof {
        assert(e.children@.subrange(0, 0) =~= Seq::<xmltree::XMLNode>::empty());
    }
    while i < e.children.len()
        invariant
            i <= e.children@.len(),
            joined@ == text_content(e.children@.subrange(0, i as int)),
        decreases e.children@.len() - i,
    {
        proof {
            assert(e.children@.subrange(0, i + 1).drop_last() =~= e.children@.subrange(0, i as int));
        }
        match &e.children[i] {
            xmltree::XMLNode::Text(t) => {
                joined.append(t.as_str());
            },
            _ => {},
        }
        proof {
            assert(joined@ =~= text_content(e.children@.subrange(0, i + 1)));
        }
        i += 1;
    }
    proof {
        assert(e.children@.subrange(0, e.children@.len() as int) =~= e.children@);
    }
    String::from_str(trim_text(joined.as_str()))
}

/// A field that a response lacks.
pub struct MissingField {
    pub name: String,
}

/// The trimmed text of the first child element with this local name.
pub fn child_text(e: &xmltree::Element, name: &str) -> (r: Result<String, MissingField>)
    ensures
        match child_text_of(*e, name@) {
            Some(t) => r matches Ok(s) && s@ == t,
            None => r matches Err(m) && m.name@ == name@,
        },
{
    match find_child(e, name) {
        Some(c) => Ok(element_text(c)),
        None => Err(MissingField { name: String::from_str(name) }),
    }
}

} // verus!
