use vstd::prelude::*;
use vstd::utf8::encode_utf8;
use xmltree::{Element, XMLNode};
use crate::xml::{attribute_list, text_starts_with, trim, trim_text, chars_of, same_text, xml_parse_of};

verus! {

/// The record tags of the ADEPT canonical stream.
#[derive(Debug, Clone, Copy, PartialEq, Eq)]
pub enum AsnTag {
    /// Reserved; never emitted.
    Reserved,
    NsTag,
    Child,
    EndTag,
    Text,
    Attribute,
}

impl AsnTag {
    pub open spec fn spec_byte(self) -> u8 {
        match self {
            AsnTag::Reserved => 0,
            AsnTag::NsTag => 1,
            AsnTag::Child => 2,
            AsnTag::EndTag => 3,
            AsnTag::Text => 4,
            AsnTag::Attribute => 5,
        }
    }

    /// The byte that stands for the tag in the stream.
    pub fn byte(self) -> (r: u8)
        ensures
            r == self.spec_byte(),
    {
        match self {
            AsnTag::Reserved => 0,
            AsnTag::NsTag => 1,
            AsnTag::Child => 2,
            AsnTag::EndTag => 3,
            AsnTag::Text => 4,
            AsnTag::Attribute => 5,
        }
    }
}

/// A string in the stream: its UTF-8 length as two big-endian bytes, then the bytes.
pub open spec fn string_record(s: Seq<char>) -> Seq<u8> {
    let b = encode_utf8(s);
    seq![((b.len() / 256) % 256) as u8, (b.len() % 256) as u8] + b
}

/// Lexicographic order by code point, which is the byte order of UTF-8 text.
pub open spec fn char_less(a: Seq<char>, b: Seq<char>) -> bool
    decreases a.len(),
{
    if a.len() == 0 {
        b.len() > 0
    } else if b.len() == 0 {
        false
    } else if a[0] != b[0] {
        a[0] < b[0]
    } else {
        char_less(a.drop_first(), b.drop_first())
    }
}

/// Attribute names that declare namespaces take no part in the stream.
pub open spec fn is_xmlns(name: Seq<char>) -> bool {
    "xmlns"@.len() <= name.len() && name.subrange(0, "xmlns"@.len() as int) == "xmlns"@
}

/// Elements with these local names are left out, whatever their namespace.
pub open spec fn is_skipped(name: Seq<char>) -> bool {
    name == "hmac"@ || name == "signature"@
}

/// The (name, value) pairs of the attributes that are hashed.
pub open spec fn hashed_attributes(m: Map<String, String>) -> Set<(Seq<char>, Seq<char>)> {
    Set::new(
        |p: (Seq<char>, Seq<char>)|
            exists|k: String| #[trigger] m.contains_key(k) && !is_xmlns(k@) && p == (k@, m[k]@),
    )
}

pub open spec fn strictly_sorted(s: Seq<(Seq<char>, Seq<char>)>) -> bool {
    forall|i: int, j: int| 0 <= i < j < s.len() ==> char_less(#[trigger] s[i].0, #[trigger] s[j].0)
}

/// The pairs of a set in ascending order of name.
pub open spec fn sorted_pairs(h: Set<(Seq<char>, Seq<char>)>) -> Seq<(Seq<char>, Seq<char>)> {
    choose|s: Seq<(Seq<char>, Seq<char>)>| strictly_sorted(s) && s.to_set() == h
}

pub open spec fn attribute_record(p: (Seq<char>, Seq<char>)) -> Seq<u8> {
    seq![AsnTag::Attribute.spec_byte()] + string_record(Seq::empty()) + string_record(p.0)
        + string_record(p.1)
}

pub open spec fn attribute_records(s: Seq<(Seq<char>, Seq<char>)>) -> Seq<u8>
    decreases s.len(),
{
    if s.len() == 0 {
        Seq::empty()
    } else {
        attribute_records(s.drop_last()) + attribute_record(s.last())
    }
}

pub open spec fn namespace_record(ns: Option<String>) -> Seq<u8> {
    match ns {
        Some(u) => seq![AsnTag::NsTag.spec_byte()] + string_record(u@),
        None => Seq::empty(),
    }
}

/// Text counts once trimmed, and only when something is left.
pub open spec fn text_record(t: Seq<char>) -> Seq<u8> {
    if trim(t).len() == 0 {
        Seq::empty()
    } else {
        seq![AsnTag::Text.spec_byte()] + string_record(trim(t))
    }
}

/// The canonical stream of an element.
pub open spec fn element_stream(e: Element) -> Seq<u8>
    decreases e,
{
    if is_skipped(e.name@) {
        Seq::empty()
    } else {
        namespace_record(e.namespace) + string_record(e.name@) + attribute_records(
            sorted_pairs(hashed_attributes(e.attributes@)),
        ) + seq![AsnTag::Child.spec_byte()] + children_stream(e.children@)
            + seq![AsnTag::EndTag.spec_byte()]
    }
}

/// The canonical stream of children in document order; comments, CDATA and processing
/// instructions count for nothing.
pub open spec fn children_stream(cs: Seq<XMLNode>) -> Seq<u8>
    decreases cs,
{
    if cs.len() == 0 {
        Seq::empty()
    } else {
        children_stream(cs.drop_last()) + match cs.last() {
            XMLNode::Element(c) => element_stream(c),
            XMLNode::Text(t) => text_record(t@),
            _ => Seq::empty(),
        }
    }
}

proof fn lemma_less_irreflexive(a: Seq<char>)
    ensures
        !char_less(a, a),
    decreases a.len(),
{
    if a.len() > 0 {
        lemma_less_irreflexive(a.drop_first());
    }
}

proof fn lemma_less_asymmetric(a: Seq<char>, b: Seq<char>)
    ensures
        !(char_less(a, b) && char_less(b, a)),
    decreases a.len(),
{
    if a.len() > 0 && b.len() > 0 && a[0] == b[0] {
        lemma_less_asymmetric(a.drop_first(), b.drop_first());
    }
}

proof fn lemma_less_total(a: Seq<char>, b: Seq<char>)
    requires
        a != b,
    ensures
        char_less(a, b) || char_less(b, a),
    decreases a.len(),
{
    if a.len() == 0 {
        assert(b.len() > 0) by {
            if b.len() == 0 {
                assert(a =~= b);
            }
        }
    } else if b.len() > 0 && a[0] == b[0] {
        if a.drop_first() == b.drop_first() {
            assert(a =~= seq![a[0]] + a.drop_first());
            assert(b =~= seq![b[0]] + b.drop_first());
        }
        lemma_less_total(a.drop_first(), b.drop_first());
    }
}

proof fn lemma_less_transitive(a: Seq<char>, b: Seq<char>, c: Seq<char>)
    requires
        char_less(a, b),
        char_less(b, c),
    ensures
        char_less(a, c),
    decreases a.len(),
{
    if a.len() > 0 && b.len() > 0 && c.len() > 0 && a[0] == b[0] && b[0] == c[0] {
        lemma_less_transitive(a.drop_first(), b.drop_first(), c.drop_first());
    }
}

/// Whether `a` comes before `b` in code-point order.
fn name_less(a: &Vec<char>, b: &Vec<char>) -> (r: bool)
    ensures
        r == char_less(a@, b@),
{
    let mut i: usize = 0;
    proof {
        assert(a@.skip(0) =~= a@);
        assert(b@.skip(0) =~= b@);
    }
    while i < a.len() && i < b.len()
        invariant
            i <= a@.len(),
            i <= b@.len(),
            char_less(a@, b@) == char_less(a@.skip(i as int), b@.skip(i as int)),
        decreases a@.len() - i,
    {
        if a[i] != b[i] {
            return a[i] < b[i];
        }
        proof {
            assert(a@.skip(i as int).drop_first() =~= a@.skip(i + 1));
            assert(b@.skip(i as int).drop_first() =~= b@.skip(i + 1));
        }
        i += 1;
    }
    i < b.len()
}

/// Appends a string record.
fn push_string(out: &mut Vec<u8>, s: &str)
    ensures
        final(out)@ == old(out)@ + string_record(s@),
{
    let b = s.as_bytes();
    let n = b.len();
    out.push(((n / 256) % 256) as u8);
    out.push((n % 256) as u8);
    out.extend_from_slice(b);
    proof {
        assert(final(out)@ =~= old(out)@ + string_record(s@));
    }
}

pub open spec fn view_pair(p: (String, String)) -> (Seq<char>, Seq<char>) {
    (p.0@, p.1@)
}

pub open spec fn pair_views(v: Seq<(String, String)>) -> Seq<(Seq<char>, Seq<char>)> {
    Seq::new(v.len(), |i: int| view_pair(v[i]))
}

/// Inserts a pair whose name is new, keeping the names in ascending order.
fn insert_sorted(v: &mut Vec<(String, String)>, k: String, val: String)
    requires
        strictly_sorted(pair_views(old(v)@)),
        forall|i: int| 0 <= i < old(v)@.len() ==> (#[trigger] old(v)@[i]).0@ != k@,
    ensures
        strictly_sorted(pair_views(final(v)@)),
        pair_views(final(v)@).to_set() == pair_views(old(v)@).to_set().insert((k@, val@)),
{
    let key = chars_of(k.as_str());
    let mut p: usize = 0;
    while p < v.len()
        invariant
            key@ == k@,
            p <= v@.len(),
            v@ == old(v)@,
            strictly_sorted(pair_views(v@)),
            forall|i: int| 0 <= i < old(v)@.len() ==> (#[trigger] old(v)@[i]).0@ != k@,
            forall|j: int| 0 <= j < p ==> char_less((#[trigger] v@[j]).0@, k@),
        ensures
            p <= v@.len(),
            v@ == old(v)@,
            forall|j: int| 0 <= j < p ==> char_less((#[trigger] v@[j]).0@, k@),
            p < v@.len() ==> char_less(k@, v@[p as int].0@),
        decreases v@.len() - p,
    {
        let other = chars_of(v[p].0.as_str());
        if name_less(&key, &other) {
            break;
        }
        proof {
            assert(old(v)@[p as int] == v@[p as int]);
            assert(v@[p as int].0@ != k@);
            lemma_less_total(v@[p as int].0@, k@);
        }
        p += 1;
    }
    let ghost before = v@;
    proof {
        assert forall|j: int| p <= j < before.len() implies char_less(k@, (#[trigger] before[j]).0@) by {
            if j > p {
                assert(char_less(pair_views(before)[p as int].0, pair_views(before)[j].0));
                lemma_less_transitive(k@, before[p as int].0@, before[j].0@);
            }
        }
    }
    v.insert(p, (k, val));
    proof {
        let nv = pair_views(v@);
        let ov = pair_views(before);
        assert(nv =~= ov.insert(p as int, (k@, val@)));
        assert forall|i: int, j: int| 0 <= i < j < nv.len() implies char_less(
            #[trigger] nv[i].0,
            #[trigger] nv[j].0,
        ) by {
            if j < p {
                assert(char_less(ov[i].0, ov[j].0));
            } else if j == p {
                assert(char_less(before[i].0@, k@));
            } else if i == p {
                assert(char_less(k@, before[j - 1].0@));
            } else if i < p {
                assert(char_less(ov[i].0, ov[j - 1].0));
            } else {
                assert(char_less(ov[i - 1].0, ov[j - 1].0));
            }
        }
        assert forall|x| #[trigger] nv.to_set().contains(x) <==> ov.to_set().insert((k@, val@)).contains(x) by {
            if nv.to_set().contains(x) {
                let i = choose|i: int| 0 <= i < nv.len() && nv[i] == x;
                if i < p {
                    assert(ov[i] == x);
                } else if i > p {
                    assert(ov[i - 1] == x);
                }
            }
            if ov.to_set().contains(x) {
                let i = choose|i: int| 0 <= i < ov.len() && ov[i] == x;
                if i < p {
                    assert(nv[i] == x);
                } else {
                    assert(nv[i + 1] == x);
                }
            }
            if x == (k@, val@) {
                assert(nv[p as int] == x);
            }
        }
        assert(nv.to_set() =~= ov.to_set().insert((k@, val@)));
    }
}

/// Two sequences in strictly ascending order of name that hold the same pairs are equal.
proof fn lemma_sorted_unique(s1: Seq<(Seq<char>, Seq<char>)>, s2: Seq<(Seq<char>, Seq<char>)>)
    requires
        strictly_sorted(s1),
        strictly_sorted(s2),
        s1.to_set() == s2.to_set(),
    ensures
        s1 == s2,
    decreases s1.len(),
{
    if s1.len() == 0 {
        if s2.len() > 0 {
            assert(s2.to_set().contains(s2[0]));
        }
        assert(s1 =~= s2);
    } else {
        assert(s1.to_set().contains(s1[0]));
        assert(s2.len() > 0);
        assert(s2.to_set().contains(s2[0]));
        let j = choose|j: int| 0 <= j < s2.len() && s2[j] == s1[0];
        let i = choose|i: int| 0 <= i < s1.len() && s1[i] == s2[0];
        if j > 0 {
            assert(char_less(s2[0].0, s2[j].0));
            if i > 0 {
                assert(char_less(s1[0].0, s1[i].0));
                lemma_less_asymmetric(s1[0].0, s1[i].0);
            } else {
                lemma_less_irreflexive(s2[0].0);
            }
        }
        assert(s1[0] == s2[0]);
        let t1 = s1.drop_first();
        let t2 = s2.drop_first();
        assert forall|x| #[trigger] t1.to_set().contains(x) <==> t2.to_set().contains(x) by {
            if t1.to_set().contains(x) {
                let a = choose|a: int| 0 <= a < t1.len() && t1[a] == x;
                assert(s1[a + 1] == x);
                assert(char_less(s1[0].0, s1[a + 1].0));
                lemma_less_irreflexive(x.0);
                assert(s2.to_set().contains(x));
                let b = choose|b: int| 0 <= b < s2.len() && s2[b] == x;
                assert(b != 0);
                assert(t2[b - 1] == x);
            }
            if t2.to_set().contains(x) {
                let a = choose|a: int| 0 <= a < t2.len() && t2[a] == x;
                assert(s2[a + 1] == x);
                assert(char_less(s2[0].0, s2[a + 1].0));
                lemma_less_irreflexive(x.0);
                assert(s1.to_set().contains(x));
                let b = choose|b: int| 0 <= b < s1.len() && s1[b] == x;
                assert(b != 0);
                assert(t1[b - 1] == x);
            }
        }
        assert(t1.to_set() =~= t2.to_set());
        assert(strictly_sorted(t1)) by {
            assert forall|a: int, b: int| 0 <= a < b < t1.len() implies char_less(
                #[trigger] t1[a].0,
                #[trigger] t1[b].0,
            ) by {
                assert(char_less(s1[a + 1].0, s1[b + 1].0));
            }
        }
        assert(strictly_sorted(t2)) by {
            assert forall|a: int, b: int| 0 <= a < b < t2.len() implies char_less(
                #[trigger] t2[a].0,
                #[trigger] t2[b].0,
            ) by {
                assert(char_less(s2[a + 1].0, s2[b + 1].0));
            }
        }
        lemma_sorted_unique(t1, t2);
        assert(s1 =~= seq![s1[0]] + t1);
        assert(s2 =~= seq![s2[0]] + t2);
    }
}

/// The pairs, among the first `i` listed, whose names are hashed.
pub open spec fn listed_hashed(all: Seq<(String, String)>, i: int) -> Set<(Seq<char>, Seq<char>)> {
    Set::new(
        |p: (Seq<char>, Seq<char>)|
            exists|j: int| 0 <= j < i && !is_xmlns(all[j].0@) && p == #[trigger] view_pair(all[j]),
    )
}

/// Appends the attribute records in ascending order of name.
fn push_attributes(out: &mut Vec<u8>, e: &Element)
    ensures
        final(out)@ == old(out)@ + attribute_records(sorted_pairs(hashed_attributes(e.attributes@))),
{
    let all = attribute_list(e);
    let mut sorted: Vec<(String, String)> = Vec::new();
    let mut i: usize = 0;
    proof {
        assert(pair_views(sorted@).to_set() =~= listed_hashed(all@, 0));
    }
    while i < all.len()
        invariant
            i <= all@.len(),
            strictly_sorted(pair_views(sorted@)),
            forall|a: int, b: int|
                0 <= a < b < all@.len() ==> (#[trigger] all@[a]).0@ != (#[trigger] all@[b]).0@,
            pair_views(sorted@).to_set() == listed_hashed(all@, i as int),
        decreases all@.len() - i,
    {
        let name = all[i].0.clone();
        let value = all[i].1.clone();
        let ghost before = sorted@;
        if !text_starts_with(name.as_str(), "xmlns") {
            proof {
                assert forall|a: int| 0 <= a < sorted@.len() implies (#[trigger] sorted@[a]).0@ != name@ by {
                    assert(pair_views(sorted@).to_set().contains(pair_views(sorted@)[a]));
                    let j = choose|j: int|
                        0 <= j < i && !is_xmlns(all@[j].0@) && pair_views(sorted@)[a] == #[trigger] view_pair(all@[j]);
                    assert(all@[j].0@ != all@[i as int].0@);
                }
            }
            insert_sorted(&mut sorted, name, value);
            proof {
                assert forall|p| #[trigger] listed_hashed(all@, i + 1).contains(p) <==> pair_views(
                    sorted@,
                ).to_set().contains(p) by {
                    if listed_hashed(all@, i + 1).contains(p) {
                        let j = choose|j: int|
                            0 <= j < i + 1 && !is_xmlns(all@[j].0@) && p == #[trigger] view_pair(all@[j]);
                        if j < i {
                            assert(listed_hashed(all@, i as int).contains(p));
                        } else {
                            assert(p == (name@, value@));
                        }
                    }
                    if p == (name@, value@) {
                        assert(view_pair(all@[i as int]) == p);
                        assert(listed_hashed(all@, i + 1).contains(p));
                    }
                    if pair_views(before).to_set().contains(p) {
                        assert(listed_hashed(all@, i as int).contains(p));
                        let j = choose|j: int|
                            0 <= j < i && !is_xmlns(all@[j].0@) && p == #[trigger] view_pair(all@[j]);
                        assert(listed_hashed(all@, i + 1).contains(p));
                    }
                }
                assert(listed_hashed(all@, i + 1) =~= pair_views(sorted@).to_set());
            }
        } else {
            proof {
                assert forall|p| #[trigger] listed_hashed(all@, i + 1).contains(p) <==> listed_hashed(
                    all@,
                    i as int,
                ).contains(p) by {
                    if listed_hashed(all@, i + 1).contains(p) {
                        let j = choose|j: int|
                            0 <= j < i + 1 && !is_xmlns(all@[j].0@) && p == #[trigger] view_pair(all@[j]);
                        assert(j != i);
                    }
                    if listed_hashed(all@, i as int).contains(p) {
                        let j = choose|j: int|
                            0 <= j < i && !is_xmlns(all@[j].0@) && p == #[trigger] view_pair(all@[j]);
                        assert(listed_hashed(all@, i + 1).contains(p));
                    }
                }
                assert(listed_hashed(all@, i + 1) =~= listed_hashed(all@, i as int));
            }
        }
        i += 1;
    }
    proof {
        let m = e.attributes@;
        let h = hashed_attributes(m);
        assert forall|p| #[trigger] h.contains(p) <==> listed_hashed(all@, all@.len() as int).contains(p) by {
            if h.contains(p) {
                let k = choose|k: String| #[trigger] m.contains_key(k) && !is_xmlns(k@) && p == (k@, m[k]@);
                let j = choose|j: int| 0 <= j < all@.len() && #[trigger] all@[j].0 == k;
                assert(p == view_pair(all@[j]));
            }
            if listed_hashed(all@, all@.len() as int).contains(p) {
                let j = choose|j: int|
                    0 <= j < all@.len() && !is_xmlns(all@[j].0@) && p == #[trigger] view_pair(all@[j]);
                let k = all@[j].0;
                assert(m.contains_key(k));
            }
        }
        assert(h =~= pair_views(sorted@).to_set());
        let chosen = sorted_pairs(h);
        assert(strictly_sorted(chosen) && chosen.to_set() == h);
        lemma_sorted_unique(pair_views(sorted@), chosen);
    }
    let ghost start = out@;
    let mut j: usize = 0;
    proof {
        reveal_strlit("");
        assert(pair_views(sorted@).subrange(0, 0) =~= Seq::<(Seq<char>, Seq<char>)>::empty());
    }
    while j < sorted.len()
        invariant
            j <= sorted@.len(),
            out@ == start + attribute_records(pair_views(sorted@).subrange(0, j as int)),
        decreases sorted@.len() - j,
    {
        out.push(AsnTag::Attribute.byte());
        push_string(out, "");
        push_string(out, sorted[j].0.as_str());
        push_string(out, sorted[j].1.as_str());
        proof {
            reveal_strlit("");
            let pv = pair_views(sorted@);
            assert(pv.subrange(0, j + 1).drop_last() =~= pv.subrange(0, j as int));
            assert(pv.subrange(0, j + 1).last() == pv[j as int]);
            assert(out@ =~= start + attribute_records(pv.subrange(0, j + 1)));
        }
        j += 1;
    }
    proof {
        assert(pair_views(sorted@).subrange(0, sorted@.len() as int) =~= pair_views(sorted@));
    }
}

fn hash_element_inner(out: &mut Vec<u8>, e: &Element)
    ensures
        final(out)@ == old(out)@ + element_stream(*e),
    decreases e,
{
    if same_text(e.name.as_str(), "hmac") || same_text(e.name.as_str(), "signature") {
        proof {
            assert(final(out)@ =~= old(out)@ + element_stream(*e));
        }
        return;
    }
    match &e.namespace {
        Some(ns) => {
            out.push(AsnTag::NsTag.byte());
            push_string(out, ns.as_str());
        },
        None => {},
    }
    push_string(out, e.name.as_str());
    push_attributes(out, e);
    out.push(AsnTag::Child.byte());
    let ghost start = out@;
    let n = e.children.len();
    let mut i: usize = 0;
    proof {
        assert(e.children@.subrange(0, 0) =~= Seq::<XMLNode>::empty());
    }
    while i < n
        invariant
            n == e.children@.len(),
            i <= n,
            out@ == start + children_stream(e.children@.subrange(0, i as int)),
        decreases n - i,
    {
        proof {
            assert(e.children@.subrange(0, i + 1).drop_last() =~= e.children@.subrange(0, i as int));
            assert(e.children@.subrange(0, i + 1).last() == e.children@[i as int]);
        }
        match &e.children[i] {
            XMLNode::Element(c) => {
                proof {
                    assert(decreases_to!(e.children => e.children@));
                }
                hash_element_inner(out, c);
            },
            XMLNode::Text(t) => {
                let tr = trim_text(t.as_str());
                if !tr.is_empty() {
                    out.push(AsnTag::Text.byte());
                    push_string(out, tr);
                }
            },
            _ => {},
        }
        proof {
            assert(out@ =~= start + children_stream(e.children@.subrange(0, i + 1)));
        }
        i += 1;
    }
    out.push(AsnTag::EndTag.byte());
    proof {
        assert(e.children@.subrange(0, n as int) =~= e.children@);
        assert(final(out)@ =~= old(out)@ + element_stream(*e));
    }
}

/// The canonical stream of an element, which is what the signature digest covers.
pub fn hash_element(e: &Element) -> (r: Vec<u8>)
    ensures
        r@ == element_stream(*e),
{
    let mut out: Vec<u8> = Vec::new();
    hash_element_inner(&mut out, e);
    proof {
        assert(out@ =~= element_stream(*e));
    }
    out
}

/// Whether a child adds nothing to the stream.
pub open spec fn is_silent(x: XMLNode) -> bool {
    match x {
        XMLNode::Element(c) => is_skipped(c.name@),
        XMLNode::Text(t) => trim(t@).len() == 0,
        _ => true,
    }
}

proof fn lemma_silent_insert(cs: Seq<XMLNode>, i: int, x: XMLNode)
    requires
        0 <= i <= cs.len(),
        is_silent(x),
    ensures
        children_stream(cs.insert(i, x)) == children_stream(cs),
    decreases cs.len(),
{
    let ins = cs.insert(i, x);
    if i == cs.len() {
        assert(ins.drop_last() =~= cs);
        assert(ins.last() == x);
        match x {
            XMLNode::Element(c) => {
                assert(element_stream(c) =~= Seq::<u8>::empty());
            },
            _ => {},
        }
        assert(children_stream(ins) =~= children_stream(cs));
    } else {
        assert(ins.drop_last() =~= cs.drop_last().insert(i, x));
        assert(ins.last() == cs.last());
        lemma_silent_insert(cs.drop_last(), i, x);
    }
}

/// Whitespace-only text is not hashed: an element and the same element with one more
/// whitespace-only text child, at any position, have the same stream.
pub proof fn lemma_whitespace_text_ignored(e1: Element, e2: Element, i: int, t: String)
    requires
        e1.name == e2.name,
        e1.namespace == e2.namespace,
        e1.attributes@ == e2.attributes@,
        0 <= i <= e1.children@.len(),
        e2.children@ == e1.children@.insert(i, XMLNode::Text(t)),
        trim(t@).len() == 0,
    ensures
        element_stream(e1) == element_stream(e2),
{
    lemma_silent_insert(e1.children@, i, XMLNode::Text(t));
}

/// Signature excision: an element and the same element with one more `signature` (or
/// `hmac`) child, at any position and with any content, have the same stream.
pub proof fn lemma_signature_excised(e1: Element, e2: Element, i: int, sig: Element)
    requires
        e1.name == e2.name,
        e1.namespace == e2.namespace,
        e1.attributes@ == e2.attributes@,
        0 <= i <= e1.children@.len(),
        e2.children@ == e1.children@.insert(i, XMLNode::Element(sig)),
        is_skipped(sig.name@),
    ensures
        element_stream(e1) == element_stream(e2),
{
    lemma_silent_insert(e1.children@, i, XMLNode::Element(sig));
}

/// Namespace declarations are not hashed: adding an attribute whose name starts with
/// `xmlns` leaves the stream as it was.
pub proof fn lemma_xmlns_attributes_ignored(e1: Element, e2: Element, k: String, v: String)
    requires
        e1.name == e2.name,
        e1.namespace == e2.namespace,
        e1.children@ == e2.children@,
        e2.attributes@ == e1.attributes@.insert(k, v),
        is_xmlns(k@),
    ensures
        element_stream(e1) == element_stream(e2),
{
    let m1 = e1.attributes@;
    let m2 = e2.attributes@;
    assert forall|p| #[trigger] hashed_attributes(m1).contains(p) <==> hashed_attributes(m2).contains(p) by {
        if hashed_attributes(m1).contains(p) {
            let a = choose|a: String| #[trigger] m1.contains_key(a) && !is_xmlns(a@) && p == (a@, m1[a]@);
            assert(a != k);
            assert(m2.contains_key(a) && m2[a] == m1[a]);
        }
        if hashed_attributes(m2).contains(p) {
            let a = choose|a: String| #[trigger] m2.contains_key(a) && !is_xmlns(a@) && p == (a@, m2[a]@);
            assert(a != k);
            assert(m1.contains_key(a) && m2[a] == m1[a]);
        }
    }
    assert(hashed_attributes(m1) =~= hashed_attributes(m2));
}

/// Attribute order is not hashed: attributes are taken in ascending order of name, so
/// two elements whose hashed attributes are the same (name, value) pairs, in whatever
/// order they were written or are listed, have the same stream.
pub proof fn lemma_attribute_order_ignored(e1: Element, e2: Element)
    requires
        e1.name == e2.name,
        e1.namespace == e2.namespace,
        e1.children@ == e2.children@,
        hashed_attributes(e1.attributes@) == hashed_attributes(e2.attributes@),
    ensures
        element_stream(e1) == element_stream(e2),
{
}

/// Why a text could not be hashed.
#[derive(Debug, Clone, Copy, PartialEq, Eq)]
pub enum HashError {
    /// The text is not a well-formed XML document.
    MalformedXml,
}

/// The canonical stream of the root element of a document, `None` where the text is not
/// well-formed.
pub closed spec fn canonical_stream_of(text: Seq<char>) -> Option<Seq<u8>> {
    match xml_parse_of(text) {
        Some(root) => Some(element_stream(root)),
        None => None,
    }
}

/// Parses a document and returns the canonical stream of its root element.
pub fn hash_xml(xml: &str) -> (r: Result<Vec<u8>, HashError>)
    ensures
        match xml_parse_of(xml@) {
            Some(root) => r matches Ok(b) && b@ == element_stream(root),
            None => r == Err::<Vec<u8>, HashError>(HashError::MalformedXml),
        },
        match canonical_stream_of(xml@) {
            Some(c) => r matches Ok(b) && b@ == c,
            None => r is Err,
        },
{
    match crate::xml::parse_xml(xml) {
        Some(root) => Ok(hash_element(&root)),
        None => Err(HashError::MalformedXml),
    }
}

proof fn lemma_children_update_same(cs: Seq<XMLNode>, i: int, c1: Element, c2: Element)
    requires
        0 <= i < cs.len(),
        cs[i] == XMLNode::Element(c1),
        element_stream(c1) == element_stream(c2),
    ensures
        children_stream(cs.update(i, XMLNode::Element(c2))) == children_stream(cs),
    decreases cs.len(),
{
    let up = cs.update(i, XMLNode::Element(c2));
    if i == cs.len() - 1 {
        assert(up.drop_last() =~= cs.drop_last());
    } else {
        assert(up.drop_last() =~= cs.drop_last().update(i, XMLNode::Element(c2)));
        assert(up.last() == cs.last());
        lemma_children_update_same(cs.drop_last(), i, c1, c2);
    }
}

/// A change deep inside an element: replacing a child element by one with the same stream
/// leaves the stream unchanged. With the laws above, attribute order, whitespace-only text,
/// namespace declarations and signature or hmac elements count for nothing at any depth.
pub proof fn lemma_child_replaced(e1: Element, e2: Element, i: int, c1: Element, c2: Element)
    requires
        e1.name == e2.name,
        e1.namespace == e2.namespace,
        e1.attributes@ == e2.attributes@,
        0 <= i < e1.children@.len(),
        e1.children@[i] == XMLNode::Element(c1),
        e2.children@ == e1.children@.update(i, XMLNode::Element(c2)),
        element_stream(c1) == element_stream(c2),
    ensures
        element_stream(e1) == element_stream(e2),
{
    lemma_children_update_same(e1.children@, i, c1, c2);
}

/// The canonical stream of a document depends only on its root element: two documents
/// whose roots have the same stream hash alike.
pub proof fn lemma_documents_hash_alike(t1: Seq<char>, t2: Seq<char>)
    requires
        xml_parse_of(t1) matches Some(r1) && xml_parse_of(t2) matches Some(r2) && element_stream(r1)
            == element_stream(r2),
    ensures
        canonical_stream_of(t1) == canonical_stream_of(t2),
{
}

} // verus!
