//! Padded Base64 with the standard alphabet (RFC 4648, section 4): what the
//! encoding of a byte sequence is, and that it can be undone.

use base64::engine::general_purpose;
use base64::Engine;
use vstd::prelude::*;

verus! {

/// The character of the standard alphabet for a 6-bit value:
/// `A-Z`, `a-z`, `0-9`, `+`, `/`.
pub open spec fn b64_char(v: int) -> char {
    if v < 26 {
        ((65 + v) as u32) as char
    } else if v < 52 {
        ((97 + v - 26) as u32) as char
    } else if v < 62 {
        ((48 + v - 52) as u32) as char
    } else if v == 62 {
        '+'
    } else {
        '/'
    }
}

/// The 6-bit value made of the high six bits of `b0`.
pub open spec fn sextet0(b0: int) -> int {
    b0 / 4
}

/// The 6-bit value made of the low two bits of `b0` and the high four of `b1`.
pub open spec fn sextet1(b0: int, b1: int) -> int {
    (b0 % 4) * 16 + b1 / 16
}

/// The 6-bit value made of the low four bits of `b1` and the high two of `b2`.
pub open spec fn sextet2(b1: int, b2: int) -> int {
    (b1 % 16) * 4 + b2 / 64
}

/// The 6-bit value made of the low six bits of `b2`.
pub open spec fn sextet3(b2: int) -> int {
    b2 % 64
}

/// The padded Base64 text of `b`: each group of three bytes becomes four
/// characters; a last group of one byte becomes two characters and `==`, one of
/// two bytes three characters and `=`.
pub open spec fn base64_encoded(b: Seq<u8>) -> Seq<char>
    decreases b.len(),
{
    if b.len() == 0 {
        Seq::empty()
    } else if b.len() == 1 {
        seq![b64_char(sextet0(b[0] as int)), b64_char(sextet1(b[0] as int, 0)), '=', '=']
    } else if b.len() == 2 {
        seq![
            b64_char(sextet0(b[0] as int)),
            b64_char(sextet1(b[0] as int, b[1] as int)),
            b64_char(sextet2(b[1] as int, 0)),
            '=',
        ]
    } else {
        seq![
            b64_char(sextet0(b[0] as int)),
            b64_char(sextet1(b[0] as int, b[1] as int)),
            b64_char(sextet2(b[1] as int, b[2] as int)),
            b64_char(sextet3(b[2] as int)),
        ] + base64_encoded(b.skip(3))
    }
}

/// Calls `general_purpose::STANDARD.encode` on the bytes. Claimed: the result is
/// their padded Base64 text. The length bound keeps the size of the output,
/// which the crate computes with an overflow check that panics, in range.
#[verifier::external_body]
pub(crate) fn encode_base64(bytes: &[u8]) -> (r: String)
    requires
        bytes@.len() <= usize::MAX / 2,
    ensures
        r@ == base64_encoded(bytes@),
{
    general_purpose::STANDARD.encode(bytes)
}

/// Calls `general_purpose::STANDARD.decode` on the text (whose engine requires
/// canonical padding and no trailing bits). Claimed: it gives back bytes whose
/// padded Base64 text is the input, and fails only where no bytes have that text.
#[verifier::external_body]
pub(crate) fn decode_base64(text: &str) -> (r: Option<Vec<u8>>)
    ensures
        r matches Some(v) ==> base64_encoded(v@) == text@,
        r is None ==> forall|b: Seq<u8>| base64_encoded(b) != text@,
{
    general_purpose::STANDARD.decode(text).ok()
}

/// Different 6-bit values have different characters, and none of them is `=`.
pub proof fn lemma_b64_char_injective(v: int, w: int)
    requires
        0 <= v < 64,
        0 <= w < 64,
    ensures
        b64_char(v) != '=',
        b64_char(v) == b64_char(w) ==> v == w,
{
    let cv = b64_char(v) as u32;
    let cw = b64_char(w) as u32;
    if v < 26 {
        assert(cv == 65 + v);
    } else if v < 52 {
        assert(cv == 97 + v - 26);
    } else if v < 62 {
        assert(cv == 48 + v - 52);
    }
    if w < 26 {
        assert(cw == 65 + w);
    } else if w < 52 {
        assert(cw == 97 + w - 26);
    } else if w < 62 {
        assert(cw == 48 + w - 52);
    }
}

/// The four 6-bit values of three bytes are in range and give the bytes back.
pub proof fn lemma_sextets(b0: int, b1: int, b2: int)
    requires
        0 <= b0 < 256,
        0 <= b1 < 256,
        0 <= b2 < 256,
    ensures
        0 <= sextet0(b0) < 64,
        0 <= sextet1(b0, b1) < 64,
        0 <= sextet2(b1, b2) < 64,
        0 <= sextet3(b2) < 64,
        b0 == sextet0(b0) * 4 + sextet1(b0, b1) / 16,
        b1 == (sextet1(b0, b1) % 16) * 16 + sextet2(b1, b2) / 4,
        b2 == (sextet2(b1, b2) % 4) * 64 + sextet3(b2),
{
}

/// The length of a padded Base64 text: four characters per started group of three bytes.
pub proof fn lemma_base64_len(b: Seq<u8>)
    ensures
        base64_encoded(b).len() == 4 * ((b.len() + 2) / 3),
        b.len() % 3 == 1 ==> base64_encoded(b).last() == '=' && base64_encoded(b)[
            base64_encoded(b).len() - 2] == '=',
        b.len() % 3 == 2 ==> base64_encoded(b).last() == '=',
    decreases b.len(),
{
    if b.len() >= 3 {
        lemma_base64_len(b.skip(3));
    }
}

/// Padded Base64 is one-to-one: a text is the encoding of at most one byte sequence.
pub proof fn lemma_base64_injective(a: Seq<u8>, b: Seq<u8>)
    requires
        base64_encoded(a) == base64_encoded(b),
    ensures
        a == b,
    decreases a.len(),
{
    let ea = base64_encoded(a);
    let eb = base64_encoded(b);
    lemma_base64_len(a);
    lemma_base64_len(b);
    if a.len() == 0 || b.len() == 0 {
        assert(a.len() == 0 && b.len() == 0);
        assert(a =~= b);
    } else {
        let a0 = a[0] as int;
        let b0 = b[0] as int;
        let a1 = if a.len() >= 2 { a[1] as int } else { 0 };
        let b1 = if b.len() >= 2 { b[1] as int } else { 0 };
        let a2 = if a.len() >= 3 { a[2] as int } else { 0 };
        let b2 = if b.len() >= 3 { b[2] as int } else { 0 };
        lemma_sextets(a0, a1, a2);
        lemma_sextets(b0, b1, b2);
        lemma_b64_char_injective(sextet0(a0), sextet0(b0));
        lemma_b64_char_injective(sextet1(a0, a1), sextet1(b0, b1));
        lemma_b64_char_injective(sextet2(a1, a2), sextet2(b1, b2));
        lemma_b64_char_injective(sextet3(a2), sextet3(b2));
        assert(ea[0] == b64_char(sextet0(a0)) && ea[1] == b64_char(sextet1(a0, a1)));
        assert(eb[0] == b64_char(sextet0(b0)) && eb[1] == b64_char(sextet1(b0, b1)));
        assert(a.len() >= 2 ==> ea[2] == b64_char(sextet2(a1, a2)));
        assert(b.len() >= 2 ==> eb[2] == b64_char(sextet2(b1, b2)));
        assert(a.len() >= 3 ==> ea[3] == b64_char(sextet3(a2)));
        assert(b.len() >= 3 ==> eb[3] == b64_char(sextet3(b2)));
        assert(ea[0] == eb[0]);
        assert(ea[1] == eb[1]);
        assert(ea[2] == eb[2]);
        assert(ea[3] == eb[3]);
        // the padding tells the length of the last group
        assert((a.len() == 1) == (b.len() == 1));
        assert((a.len() == 2) == (b.len() == 2));
        assert(sextet0(a0) == sextet0(b0));
        assert(sextet1(a0, a1) == sextet1(b0, b1));
        assert(a0 == b0);
        if a.len() >= 2 {
            assert(sextet2(a1, a2) == sextet2(b1, b2));
            assert(a1 == b1);
        }
        if a.len() >= 3 {
            assert(sextet3(a2) == sextet3(b2));
            assert(a2 == b2);
        }
        if a.len() >= 3 {
            assert(ea.skip(4) =~= base64_encoded(a.skip(3)));
            assert(eb.skip(4) =~= base64_encoded(b.skip(3)));
            lemma_base64_injective(a.skip(3), b.skip(3));
            assert(a =~= seq![a[0], a[1], a[2]] + a.skip(3));
            assert(b =~= seq![b[0], b[1], b[2]] + b.skip(3));
        } else {
            assert(a =~= b);
        }
    }
}

} // verus!
