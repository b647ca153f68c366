use vstd::prelude::*;
use vstd::string::StringExecFns;
use vstd::utf8::encode_utf8;
use crate::writer::string_from_chars;
use crate::xml::chars_of;

verus! {

/// The element that marks where the fulfillment token goes.
pub const PLACEHOLDER_ELEMENT: &'static str = "<fulfillment_token_placeholder/>";

pub open spec fn occurs_at(s: Seq<char>, p: Seq<char>, i: int) -> bool {
    0 <= i && i + p.len() <= s.len() && s.subrange(i, i + p.len()) == p
}

/// Where `p` first occurs in `s`.
pub open spec fn first_occurrence(s: Seq<char>, p: Seq<char>) -> Option<int> {
    if exists|i: int| occurs_at(s, p, i) {
        Some(choose|i: int| occurs_at(s, p, i) && forall|j: int| 0 <= j < i ==> !occurs_at(s, p, j))
    } else {
        None
    }
}

/// `s` with its first occurrence of `p` replaced by `t`; `s` itself where `p` does not occur.
pub open spec fn replace_first(s: Seq<char>, p: Seq<char>, t: Seq<char>) -> Seq<char> {
    match first_occurrence(s, p) {
        Some(i) => s.subrange(0, i) + t + s.subrange(i + p.len(), s.len() as int),
        None => s,
    }
}

proof fn lemma_first_occurrence(s: Seq<char>, p: Seq<char>, i: int)
    requires
        occurs_at(s, p, i),
        forall|j: int| 0 <= j < i ==> !occurs_at(s, p, j),
    ensures
        first_occurrence(s, p) == Some(i),
{
    let k = choose|k: int| occurs_at(s, p, k) && forall|j: int| 0 <= j < k ==> !occurs_at(s, p, j);
    if k < i {
        assert(!occurs_at(s, p, k));
    } else if k > i {
        assert(!occurs_at(s, p, i));
    }
}

fn matches_at(s: &Vec<char>, p: &Vec<char>, i: usize) -> (r: bool)
    requires
        i <= s@.len(),
    ensures
        r == occurs_at(s@, p@, i as int),
{
    if p.len() > s.len() - i {
        return false;
    }
    let n = s.len();
    let mut j: usize = 0;
    while j < p.len()
        invariant
            n == s@.len(),
            i + p@.len() <= s@.len(),
            i <= s@.len(),
            j <= p@.len(),
            forall|k: int| 0 <= k < j ==> s@[i + k] == p@[k],
        decreases p@.len() - j,
    {
        if s[i + j] != p[j] {
            proof {
                assert(s@.subrange(i as int, i + p@.len())[j as int] != p@[j as int]);
            }
            return false;
        }
        j += 1;
    }
    proof {
        assert(s@.subrange(i as int, i + p@.len()) =~= p@);
    }
    true
}




/// Puts the raw token text in place of the placeholder's first occurrence; the token is
/// copied as it is, character for character.
pub fn substitute_fulfillment_token(s: &str, token: &str) -> (r: String)
    ensures
        r@ == replace_first(s@, PLACEHOLDER_ELEMENT@, token@),
{
    let cs = chars_of(s);
    let p = chars_of(PLACEHOLDER_ELEMENT);
    let mut i: usize = 0;
    while i < cs.len()
        invariant
            cs@ == s@,
            p@ == PLACEHOLDER_ELEMENT@,
            i <= cs@.len(),
            forall|j: int| 0 <= j < i ==> !occurs_at(s@, PLACEHOLDER_ELEMENT@, j),
        decreases cs@.len() - i,
    {
        if matches_at(&cs, &p, i) {
            proof {
                lemma_first_occurrence(s@, p@, i as int);
            }
            let mut out = string_from_chars(vstd::slice::slice_subrange(cs.as_slice(), 0, i));
            out.append(token);
            let rest = string_from_chars(vstd::slice::slice_subrange(cs.as_slice(), i + p.len(), cs.len()));
            out.append(rest.as_str());
            return out;
        }
        i += 1;
    }
    proof {
        reveal_strlit("<fulfillment_token_placeholder/>");
        assert(PLACEHOLDER_ELEMENT@.len() > 0);
        assert forall|j: int| !occurs_at(s@, PLACEHOLDER_ELEMENT@, j) by {
            if 0 <= j && j + PLACEHOLDER_ELEMENT@.len() <= s@.len() {
                assert(j < i);
            }
        }
    }
    String::from_str(s)
}

/// The text holds the token, character for character, between a prefix and a suffix.
pub open spec fn embeds(text: Seq<char>, token: Seq<char>) -> bool {
    exists|before: Seq<char>, after: Seq<char>| text == before + token + after
}

proof fn lemma_encode_utf8_concat(a: Seq<char>, b: Seq<char>)
    ensures
        encode_utf8(a + b) == encode_utf8(a) + encode_utf8(b),
    decreases a.len(),
{
    if a.len() == 0 {
        assert(a + b =~= b);
    } else {
        assert((a + b).drop_first() =~= a.drop_first() + b);
        lemma_encode_utf8_concat(a.drop_first(), b);
        assert(encode_utf8(a + b) =~= encode_utf8(a) + encode_utf8(b));
    }
}

/// Raw-token preservation: where the placeholder occurs, the text after substitution is
/// the text before it, the token's exact characters, and the text after it; the encoded
/// bytes hold the token's UTF-8 bytes unchanged in that range.
pub proof fn lemma_token_preserved(s: Seq<char>, token: Seq<char>)
    requires
        exists|i: int| occurs_at(s, PLACEHOLDER_ELEMENT@, i),
    ensures
        ({
            let i = first_occurrence(s, PLACEHOLDER_ELEMENT@)->0;
            let before = s.subrange(0, i);
            let after = s.subrange(i + PLACEHOLDER_ELEMENT@.len(), s.len() as int);
            &&& replace_first(s, PLACEHOLDER_ELEMENT@, token) == before + token + after
            &&& encode_utf8(replace_first(s, PLACEHOLDER_ELEMENT@, token)) == encode_utf8(before)
                + encode_utf8(token) + encode_utf8(after)
        }),
        embeds(replace_first(s, PLACEHOLDER_ELEMENT@, token), token),
{
    let i = first_occurrence(s, PLACEHOLDER_ELEMENT@)->0;
    let before = s.subrange(0, i);
    let after = s.subrange(i + PLACEHOLDER_ELEMENT@.len(), s.len() as int);
    lemma_encode_utf8_concat(before + token, after);
    lemma_encode_utf8_concat(before, token);
    assert(embeds(replace_first(s, PLACEHOLDER_ELEMENT@, token), token));
}

} // verus!
