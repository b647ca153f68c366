use vstd::prelude::*;
use vstd::string::StringExecFns;
use crate::xml::chars_of;

verus! {

/// An element of an outgoing ADEPT document. Names are written as they stand, prefix
/// included (`adept:user`); namespace declarations are ordinary attributes here.
pub struct XmlOut {
    pub name: String,
    pub attributes: Vec<(String, String)>,
    pub body: XmlBody,
}

pub enum XmlBody {
    Empty,
    Text(String),
    Children(Vec<XmlOut>),
}

pub open spec fn escape_char(c: char) -> Seq<char> {
    if c == '&' {
        seq!['&', 'a', 'm', 'p', ';']
    } else if c == '<' {
        seq!['&', 'l', 't', ';']
    } else if c == '>' {
        seq!['&', 'g', 't', ';']
    } else if c == '"' {
        seq!['&', 'q', 'u', 'o', 't', ';']
    } else {
        seq![c]
    }
}

/// Text with the characters that XML reserves written as entity references.
pub open spec fn escape(s: Seq<char>) -> Seq<char>
    decreases s.len(),
{
    if s.len() == 0 {
        Seq::empty()
    } else {
        escape(s.drop_last()) + escape_char(s.last())
    }
}

pub open spec fn attribute_text(a: (String, String)) -> Seq<char> {
    seq![' '] + a.0@ + seq!['=', '"'] + escape(a.1@) + seq!['"']
}

pub open spec fn attributes_text(a: Seq<(String, String)>) -> Seq<char>
    decreases a.len(),
{
    if a.len() == 0 {
        Seq::empty()
    } else {
        attributes_text(a.drop_last()) + attribute_text(a.last())
    }
}

pub open spec fn end_tag(name: Seq<char>) -> Seq<char> {
    seq!['<', '/'] + name + seq!['>']
}

/// The text of an element: start tag with its attributes in order, then the escaped
/// text or the children, then the end tag; an empty element closes itself.
pub open spec fn xml_text(e: XmlOut) -> Seq<char>
    decreases e,
{
    seq!['<'] + e.name@ + attributes_text(e.attributes@) + match e.body {
        XmlBody::Empty => seq!['/', '>'],
        XmlBody::Text(t) => seq!['>'] + escape(t@) + end_tag(e.name@),
        XmlBody::Children(cs) => seq!['>'] + children_text(cs@) + end_tag(e.name@),
    }
}

pub open spec fn children_text(cs: Seq<XmlOut>) -> Seq<char>
    decreases cs,
{
    if cs.len() == 0 {
        Seq::empty()
    } else {
        children_text(cs.drop_last()) + xml_text(cs.last())
    }
}

/// Relies on std's `String::push`: the character is appended.
#[verifier::external_body]
pub(crate) fn push_char(s: &mut String, c: char)
    ensures
        final(s)@ == old(s)@.push(c),
{
    s.push(c);
}

/// A string of these characters.
pub fn string_from_chars(cs: &[char]) -> (r: String)
    ensures
        r@ == cs@,
{
    let mut out = String::new();
    let mut i: usize = 0;
    while i < cs.len()
        invariant
            i <= cs@.len(),
            out@ == cs@.subrange(0, i as int),
        decreases cs@.len() - i,
    {
        push_char(&mut out, cs[i]);
        proof {
            assert(out@ =~= cs@.subrange(0, i + 1));
        }
        i += 1;
    }
    proof {
        assert(cs@.subrange(0, cs@.len() as int) =~= cs@);
    }
    out
}

fn push_escaped(out: &mut String, s: &str)
    ensures
        final(out)@ == old(out)@ + escape(s@),
{
    let cs = chars_of(s);
    let ghost start = out@;
    let mut i: usize = 0;
    proof {
        assert(s@.subrange(0, 0) =~= Seq::<char>::empty());
    }
    while i < cs.len()
        invariant
            cs@ == s@,
            i <= cs@.len(),
            out@ == start + escape(s@.subrange(0, i as int)),
        decreases cs@.len() - i,
    {
        let c = cs[i];
        let ghost before = out@;
        if c == '&' {
            push_char(out, '&');
            push_char(out, 'a');
            push_char(out, 'm');
            push_char(out, 'p');
            push_char(out, ';');
        } else if c == '<' {
            push_char(out, '&');
            push_char(out, 'l');
            push_char(out, 't');
            push_char(out, ';');
        } else if c == '>' {
            push_char(out, '&');
            push_char(out, 'g');
            push_char(out, 't');
            push_char(out, ';');
        } else if c == '"' {
            push_char(out, '&');
            push_char(out, 'q');
            push_char(out, 'u');
            push_char(out, 'o');
            push_char(out, 't');
            push_char(out, ';');
        } else {
            push_char(out, c);
        }
        proof {
            assert(out@ =~= before + escape_char(c));
            assert(s@.subrange(0, i + 1).drop_last() =~= s@.subrange(0, i as int));
            assert(out@ =~= start + escape(s@.subrange(0, i + 1)));
        }
        i += 1;
    }
    proof {
        assert(s@.subrange(0, s@.len() as int) =~= s@);
    }
}

fn push_str(out: &mut String, s: &str)
    ensures
        final(out)@ == old(out)@ + s@,
{
    out.append(s);
}

fn write_element(out: &mut String, e: &XmlOut)
    ensures
        final(out)@ == old(out)@ + xml_text(*e),
    decreases e,
{
    let ghost start = out@;
    push_char(out, '<');
    push_str(out, e.name.as_str());
    let ghost after_name = out@;
    let mut i: usize = 0;
    proof {
        assert(e.attributes@.subrange(0, 0) =~= Seq::<(String, String)>::empty());
    }
    while i < e.attributes.len()
        invariant
            i <= e.attributes@.len(),
            out@ == after_name + attributes_text(e.attributes@.subrange(0, i as int)),
        decreases e.attributes@.len() - i,
    {
        let ghost before = out@;
        push_char(out, ' ');
        push_str(out, e.attributes[i].0.as_str());
        push_char(out, '=');
        push_char(out, '"');
        push_escaped(out, e.attributes[i].1.as_str());
        push_char(out, '"');
        proof {
            assert(out@ =~= before + attribute_text(e.attributes@[i as int]));
            assert(e.attributes@.subrange(0, i + 1).drop_last() =~= e.attributes@.subrange(0, i as int));
        }
        i += 1;
    }
    proof {
        assert(e.attributes@.subrange(0, e.attributes@.len() as int) =~= e.attributes@);
    }
    let ghost after_attrs = out@;
    match &e.body {
        XmlBody::Empty => {
            push_char(out, '/');
            push_char(out, '>');
        },
        XmlBody::Text(t) => {
            push_char(out, '>');
            push_escaped(out, t.as_str());
            push_char(out, '<');
            push_char(out, '/');
            push_str(out, e.name.as_str());
            push_char(out, '>');
        },
        XmlBody::Children(cs) => {
            push_char(out, '>');
            let ghost open = out@;
            let mut j: usize = 0;
            proof {
                assert(cs@.subrange(0, 0) =~= Seq::<XmlOut>::empty());
            }
            while j < cs.len()
                invariant
                    j <= cs@.len(),
                    out@ == open + children_text(cs@.subrange(0, j as int)),
                    e.body is Children,
                    e.body->Children_0 == *cs,
                decreases cs@.len() - j,
            {
                proof {
                    assert(decreases_to!(*e => e.body));
                    assert(e.body->Children_0 == *cs);
                    assert(decreases_to!(e.body => e.body->Children_0));
                    assert(decreases_to!(*cs => cs@));
                    assert(decreases_to!(cs@ => cs@[j as int]));
                }
                write_element(out, &cs[j]);
                proof {
                    assert(cs@.subrange(0, j + 1).drop_last() =~= cs@.subrange(0, j as int));
                    assert(out@ =~= open + children_text(cs@.subrange(0, j + 1)));
                }
                j += 1;
            }
            proof {
                assert(cs@.subrange(0, cs@.len() as int) =~= cs@);
            }
            push_char(out, '<');
            push_char(out, '/');
            push_str(out, e.name.as_str());
            push_char(out, '>');
        },
    }
    proof {
        assert(out@ =~= start + xml_text(*e));
    }
}

/// The text of an outgoing document.
pub fn serialize_xml(e: &XmlOut) -> (r: String)
    ensures
        r@ == xml_text(*e),
{
    let mut out = String::new();
    write_element(&mut out, e);
    proof {
        assert(out@ =~= xml_text(*e));
    }
    out
}

/// An element that holds text.
pub fn text_element(name: &str, text: &str) -> (r: XmlOut)
    ensures
        r.name@ == name@,
        r.attributes@.len() == 0,
        r.body matches XmlBody::Text(t) && t@ == text@,
{
    XmlOut { name: String::from_str(name), attributes: Vec::new(), body: XmlBody::Text(String::from_str(text)) }
}

} // verus!

verus! {

/// Child `i` of `x` is `<name>text</name>` without attributes.
pub open spec fn is_text_child(x: XmlOut, i: int, name: Seq<char>, text: Seq<char>) -> bool {
    &&& x.body is Children
    &&& 0 <= i < x.body->Children_0@.len()
    &&& x.body->Children_0@[i].name@ == name
    &&& x.body->Children_0@[i].attributes@.len() == 0
    &&& x.body->Children_0@[i].body matches XmlBody::Text(t) && t@ == text
}

/// `x` has this many children.
pub open spec fn child_count(x: XmlOut) -> int {
    match x.body {
        XmlBody::Children(cs) => cs@.len() as int,
        _ => 0,
    }
}

/// An element with children.
pub fn parent_element(name: &str, attributes: Vec<(String, String)>, children: Vec<XmlOut>) -> (r: XmlOut)
    ensures
        r.name@ == name@,
        r.attributes == attributes,
        r.body == XmlBody::Children(children),
{
    XmlOut { name: String::from_str(name), attributes, body: XmlBody::Children(children) }
}

/// The attribute that declares the `adept` prefix.
pub fn adept_namespace_attribute() -> (r: (String, String))
    ensures
        r.0@ == "xmlns:adept"@,
        r.1@ == crate::http::ADEPT_XMLNS@,
{
    (String::from_str("xmlns:adept"), String::from_str(crate::http::ADEPT_XMLNS))
}

} // verus!

verus! {

/// The text of some children is the text of a first part followed by that of the rest.
pub proof fn lemma_children_text_split(cs: Seq<XmlOut>, k: int)
    requires
        0 <= k <= cs.len(),
    ensures
        children_text(cs) == children_text(cs.subrange(0, k)) + children_text(cs.subrange(k, cs.len() as int)),
    decreases cs.len(),
{
    if k == cs.len() {
        assert(cs.subrange(0, k) =~= cs);
        assert(cs.subrange(k, cs.len() as int) =~= Seq::<XmlOut>::empty());
        assert(children_text(cs) + Seq::<char>::empty() =~= children_text(cs));
    } else {
        lemma_children_text_split(cs.drop_last(), k);
        assert(cs.drop_last().subrange(0, k) =~= cs.subrange(0, k));
        assert(cs.subrange(k, cs.len() as int).drop_last() =~= cs.drop_last().subrange(k, cs.len() - 1));
        assert(cs.subrange(k, cs.len() as int).last() == cs.last());
        assert(children_text(cs) =~= children_text(cs.subrange(0, k)) + children_text(
            cs.subrange(k, cs.len() as int),
        ));
    }
}

} // verus!
