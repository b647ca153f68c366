use vstd::prelude::*;
use base64::Engine;

verus! {

/// The symbol of a 6-bit value in the standard base64 alphabet (RFC 4648, table 1).
pub open spec fn b64_symbol(v: u8) -> char {
    if v < 26 {
        (v + 65) as char
    } else if v < 52 {
        (v - 26 + 97) as char
    } else if v < 62 {
        (v - 52 + 48) as char
    } else if v == 62 {
        '+'
    } else {
        '/'
    }
}

/// The four symbols that encode three bytes.
pub open spec fn b64_quad(b0: u8, b1: u8, b2: u8) -> Seq<char> {
    seq![
        b64_symbol(b0 >> 2u8),
        b64_symbol(((b0 & 3u8) << 4u8) | (b1 >> 4u8)),
        b64_symbol(((b1 & 15u8) << 2u8) | (b2 >> 6u8)),
        b64_symbol(b2 & 63u8),
    ]
}

/// Standard base64 with `=` padding: each group of three bytes becomes four symbols,
/// a final group of one or two bytes is padded to four symbols.
pub open spec fn base64_encode(b: Seq<u8>) -> Seq<char>
    decreases b.len(),
{
    if b.len() == 0 {
        Seq::empty()
    } else if b.len() == 1 {
        seq![b64_symbol(b[0] >> 2u8), b64_symbol((b[0] & 3u8) << 4u8), '=', '=']
    } else if b.len() == 2 {
        seq![
            b64_symbol(b[0] >> 2u8),
            b64_symbol(((b[0] & 3u8) << 4u8) | (b[1] >> 4u8)),
            b64_symbol((b[1] & 15u8) << 2u8),
            '=',
        ]
    } else {
        b64_quad(b[0], b[1], b[2]) + base64_encode(b.subrange(3, b.len() as int))
    }
}

/// Relies on base64's `STANDARD` engine: the padded standard alphabet of RFC 4648.
#[verifier::external_body]
pub fn b64(v: &[u8]) -> (r: String)
    ensures
        r@ == base64_encode(v@),
{
    base64::engine::general_purpose::STANDARD.encode(v)
}

/// Relies on base64's `STANDARD` engine, which only accepts the canonical padded
/// encoding: a text decodes exactly when it is the encoding of some bytes.
#[verifier::external_body]
fn decode_standard(s: &str) -> (r: Option<Vec<u8>>)
    ensures
        r matches Some(b) ==> base64_encode(b@) == s@,
        (exists|b: Seq<u8>| base64_encode(b) == s@) ==> r is Some,
{
    base64::engine::general_purpose::STANDARD.decode(s).ok()
}

/// Why a text is not base64.
#[derive(Debug, Clone, Copy, PartialEq, Eq)]
pub enum Base64Error {
    NotBase64,
}

/// Decodes standard padded base64.
pub fn unb64(v: &str) -> (r: Result<Vec<u8>, Base64Error>)
    ensures
        r matches Ok(b) ==> base64_encode(b@) == v@,
        r is Ok <==> exists|b: Seq<u8>| base64_encode(b) == v@,
{
    match decode_standard(v) {
        Some(b) => Ok(b),
        None => Err(Base64Error::NotBase64),
    }
}

proof fn lemma_symbol_injective(x: u8, y: u8)
    requires
        x < 64,
        y < 64,
        b64_symbol(x) == b64_symbol(y),
    ensures
        x == y,
{
}

proof fn lemma_symbol_not_pad(x: u8)
    requires
        x < 64,
    ensures
        b64_symbol(x) != '=',
{
}

proof fn lemma_quad_injective(a0: u8, a1: u8, a2: u8, b0: u8, b1: u8, b2: u8)
    requires
        b64_quad(a0, a1, a2) == b64_quad(b0, b1, b2),
    ensures
        a0 == b0 && a1 == b1 && a2 == b2,
{
    let qa = b64_quad(a0, a1, a2);
    let qb = b64_quad(b0, b1, b2);
    assert(qa[0] == qb[0] && qa[1] == qb[1] && qa[2] == qb[2] && qa[3] == qb[3]);
    assert(a0 >> 2u8 < 64 && b0 >> 2u8 < 64) by (bit_vector);
    assert(((a0 & 3u8) << 4u8) | (a1 >> 4u8) < 64 && ((b0 & 3u8) << 4u8) | (b1 >> 4u8) < 64)
        by (bit_vector);
    assert(((a1 & 15u8) << 2u8) | (a2 >> 6u8) < 64 && ((b1 & 15u8) << 2u8) | (b2 >> 6u8) < 64)
        by (bit_vector);
    assert(a2 & 63u8 < 64 && b2 & 63u8 < 64) by (bit_vector);
    lemma_symbol_injective(a0 >> 2u8, b0 >> 2u8);
    lemma_symbol_injective(((a0 & 3u8) << 4u8) | (a1 >> 4u8), ((b0 & 3u8) << 4u8) | (b1 >> 4u8));
    lemma_symbol_injective(((a1 & 15u8) << 2u8) | (a2 >> 6u8), ((b1 & 15u8) << 2u8) | (b2 >> 6u8));
    lemma_symbol_injective(a2 & 63u8, b2 & 63u8);
    assert(a0 == b0 && a1 == b1 && a2 == b2) by (bit_vector)
        requires
            a0 >> 2u8 == b0 >> 2u8,
            ((a0 & 3u8) << 4u8) | (a1 >> 4u8) == ((b0 & 3u8) << 4u8) | (b1 >> 4u8),
            ((a1 & 15u8) << 2u8) | (a2 >> 6u8) == ((b1 & 15u8) << 2u8) | (b2 >> 6u8),
            a2 & 63u8 == b2 & 63u8,
    ;
}

/// The shape of an encoding: four symbols per started group of three bytes, where the
/// third symbol is padding exactly for one trailing byte and the fourth exactly for
/// one or two.
proof fn lemma_encode_shape(b: Seq<u8>)
    ensures
        base64_encode(b).len() == 4 * ((b.len() + 2) / 3),
        b.len() >= 1 ==> (base64_encode(b)[2] == '=' <==> b.len() == 1),
        b.len() >= 1 ==> (base64_encode(b)[3] == '=' <==> b.len() <= 2),
    decreases b.len(),
{
    if b.len() == 1 {
        let x = b[0];
        assert((x >> 2u8) < 64 && ((x & 3u8) << 4u8) < 64) by (bit_vector);
        lemma_symbol_not_pad(x >> 2u8);
    } else if b.len() == 2 {
        let x = b[1];
        assert((x & 15u8) << 2u8 < 64) by (bit_vector);
        lemma_symbol_not_pad((x & 15u8) << 2u8);
    } else if b.len() >= 3 {
        let (b0, b1, b2) = (b[0], b[1], b[2]);
        assert(((b1 & 15u8) << 2u8) | (b2 >> 6u8) < 64 && b2 & 63u8 < 64) by (bit_vector);
        lemma_symbol_not_pad(((b1 & 15u8) << 2u8) | (b2 >> 6u8));
        lemma_symbol_not_pad(b2 & 63u8);
        lemma_encode_shape(b.subrange(3, b.len() as int));
    }
}

/// Distinct byte sequences have distinct encodings.
pub proof fn lemma_encode_injective(a: Seq<u8>, b: Seq<u8>)
    requires
        base64_encode(a) == base64_encode(b),
    ensures
        a == b,
    decreases a.len(),
{
    lemma_encode_shape(a);
    lemma_encode_shape(b);
    let e = base64_encode(a);
    if a.len() == 0 || b.len() == 0 {
        assert(a.len() == 0 && b.len() == 0);
        assert(a =~= b);
    } else {
        assert(e[2] == base64_encode(b)[2] && e[3] == base64_encode(b)[3]);
        if a.len() == 1 {
            assert(b.len() == 1);
            let (x, y) = (a[0], b[0]);
            assert(x >> 2u8 < 64 && (x & 3u8) << 4u8 < 64 && y >> 2u8 < 64 && (y & 3u8) << 4u8 < 64)
                by (bit_vector);
            lemma_symbol_injective(x >> 2u8, y >> 2u8);
            lemma_symbol_injective((x & 3u8) << 4u8, (y & 3u8) << 4u8);
            assert(x == y) by (bit_vector)
                requires
                    x >> 2u8 == y >> 2u8,
                    (x & 3u8) << 4u8 == (y & 3u8) << 4u8,
            ;
            assert(a =~= b);
        } else if a.len() == 2 {
            assert(b.len() == 2);
            let (x0, x1, y0, y1) = (a[0], a[1], b[0], b[1]);
            assert(x0 >> 2u8 < 64 && ((x0 & 3u8) << 4u8) | (x1 >> 4u8) < 64 && (x1 & 15u8) << 2u8
                < 64) by (bit_vector);
            assert(y0 >> 2u8 < 64 && ((y0 & 3u8) << 4u8) | (y1 >> 4u8) < 64 && (y1 & 15u8) << 2u8
                < 64) by (bit_vector);
            lemma_symbol_injective(x0 >> 2u8, y0 >> 2u8);
            lemma_symbol_injective(
                ((x0 & 3u8) << 4u8) | (x1 >> 4u8),
                ((y0 & 3u8) << 4u8) | (y1 >> 4u8),
            );
            lemma_symbol_injective((x1 & 15u8) << 2u8, (y1 & 15u8) << 2u8);
            assert(x0 == y0 && x1 == y1) by (bit_vector)
                requires
                    x0 >> 2u8 == y0 >> 2u8,
                    ((x0 & 3u8) << 4u8) | (x1 >> 4u8) == ((y0 & 3u8) << 4u8) | (y1 >> 4u8),
                    (x1 & 15u8) << 2u8 == (y1 & 15u8) << 2u8,
            ;
            assert(a =~= b);
        } else {
            assert(b.len() >= 3);
            let ta = a.subrange(3, a.len() as int);
            let tb = b.subrange(3, b.len() as int);
            let qa = b64_quad(a[0], a[1], a[2]);
            let qb = b64_quad(b[0], b[1], b[2]);
            assert(e == qa + base64_encode(ta));
            assert(base64_encode(b) == qb + base64_encode(tb));
            assert(qa =~= e.subrange(0, 4));
            assert(qb =~= e.subrange(0, 4));
            assert(base64_encode(ta) =~= e.subrange(4, e.len() as int));
            assert(base64_encode(tb) =~= e.subrange(4, e.len() as int));
            lemma_quad_injective(a[0], a[1], a[2], b[0], b[1], b[2]);
            lemma_encode_injective(ta, tb);
            assert(a =~= b.subrange(0, 3) + tb);
            assert(b =~= b.subrange(0, 3) + tb);
        }
    }
}

/// Decoding the encoding of any bytes succeeds (`unb64` returns `Ok` on the encodings of
/// byte sequences) and gives exactly those bytes back.
pub proof fn lemma_base64_round_trip(x: Seq<u8>)
    ensures
        exists|d: Seq<u8>| #[trigger] base64_encode(d) == base64_encode(x),
        forall|d: Seq<u8>| #[trigger] base64_encode(d) == base64_encode(x) ==> d == x,
{
    assert forall|d: Seq<u8>| #[trigger] base64_encode(d) == base64_encode(x) implies d == x by {
        lemma_encode_injective(d, x);
    }
    assert(base64_encode(x) == base64_encode(x));
}

} // verus!
