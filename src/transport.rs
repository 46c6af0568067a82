use vstd::prelude::*;

verus! {

/// The base64 alphabet (standard, RFC 4648): the character for a 6-bit digit.
pub open spec fn b64_char(d: u8) -> char {
    (if d < 26 {
        d + 65
    } else if d < 52 {
        d + 71
    } else if d < 62 {
        d - 4
    } else if d == 62 {
        43
    } else {
        47
    }) as u8 as char
}

/// The 6-bit digit that a base64 character stands for.
pub open spec fn b64_digit(ch: char) -> u8 {
    let x = ch as u32;
    (if 65 <= x <= 90 {
        x - 65
    } else if 97 <= x <= 122 {
        x - 71
    } else if 48 <= x <= 57 {
        x + 4
    } else if x == 43 {
        62
    } else {
        63
    }) as u8
}

pub open spec fn digit0(a: u8) -> u8 {
    a >> 2
}

pub open spec fn digit1(a: u8, b: u8) -> u8 {
    ((a & 3) << 4) | (b >> 4)
}

pub open spec fn digit2(b: u8, c: u8) -> u8 {
    ((b & 15) << 2) | (c >> 6)
}

pub open spec fn digit3(c: u8) -> u8 {
    c & 63
}

/// Standard base64 with `=` padding and no line breaks: each group of three
/// bytes becomes four characters; a last group of one or two bytes is padded.
pub open spec fn base64_of(s: Seq<u8>) -> Seq<char>
    decreases s.len(),
{
    if s.len() == 0 {
        Seq::empty()
    } else if s.len() == 1 {
        seq![b64_char(digit0(s[0])), b64_char(digit1(s[0], 0)), '=', '=']
    } else if s.len() == 2 {
        seq![b64_char(digit0(s[0])), b64_char(digit1(s[0], s[1])), b64_char(digit2(s[1], 0)), '=']
    } else {
        seq![
            b64_char(digit0(s[0])),
            b64_char(digit1(s[0], s[1])),
            b64_char(digit2(s[1], s[2])),
            b64_char(digit3(s[2])),
        ] + base64_of(s.subrange(3, s.len() as int))
    }
}

pub open spec fn byte0(d0: u8, d1: u8) -> u8 {
    (d0 << 2) | (d1 >> 4)
}

pub open spec fn byte1(d1: u8, d2: u8) -> u8 {
    ((d1 & 15) << 4) | (d2 >> 2)
}

pub open spec fn byte2(d2: u8, d3: u8) -> u8 {
    ((d2 & 3) << 6) | d3
}

/// Reading base64 text back: four characters at a time, `=` ending the data.
pub open spec fn base64_decode(t: Seq<char>) -> Seq<u8>
    decreases t.len(),
{
    if t.len() < 4 {
        Seq::empty()
    } else {
        let d0 = b64_digit(t[0]);
        let d1 = b64_digit(t[1]);
        let d2 = b64_digit(t[2]);
        let d3 = b64_digit(t[3]);
        if t[2] == '=' {
            seq![byte0(d0, d1)]
        } else if t[3] == '=' {
            seq![byte0(d0, d1), byte1(d1, d2)]
        } else {
            seq![byte0(d0, d1), byte1(d1, d2), byte2(d2, d3)] + base64_decode(
                t.subrange(4, t.len() as int),
            )
        }
    }
}

proof fn lemma_digit_round_trip(d: u8)
    requires
        d < 64,
    ensures
        b64_digit(b64_char(d)) == d,
        b64_char(d) != '=',
{
}

proof fn lemma_group_bits(a: u8, b: u8, c: u8)
    ensures
        digit0(a) < 64,
        digit1(a, b) < 64,
        digit2(b, c) < 64,
        digit3(c) < 64,
        byte0(digit0(a), digit1(a, b)) == a,
        byte1(digit1(a, b), digit2(b, c)) == b,
        byte2(digit2(b, c), digit3(c)) == c,
{
    assert(a >> 2 < 64) by (bit_vector);
    assert(((a & 3) << 4) | (b >> 4) < 64) by (bit_vector);
    assert(((b & 15) << 2) | (c >> 6) < 64) by (bit_vector);
    assert(c & 63 < 64) by (bit_vector);
    assert((((a >> 2) << 2) | ((((a & 3) << 4) | (b >> 4)) >> 4)) == a) by (bit_vector);
    assert((((((a & 3) << 4) | (b >> 4)) & 15) << 4) | ((((b & 15) << 2) | (c >> 6)) >> 2) == b)
        by (bit_vector);
    assert((((((b & 15) << 2) | (c >> 6)) & 3) << 6) | (c & 63) == c) by (bit_vector);
}

/// Decoding the base64 text of any byte sequence gives that sequence back.
pub proof fn lemma_base64_round_trip(s: Seq<u8>)
    ensures
        base64_decode(base64_of(s)) == s,
    decreases s.len(),
{
    if s.len() == 0 {
        return;
    }
    let a = s[0];
    let b = if s.len() > 1 { s[1] } else { 0u8 };
    let c = if s.len() > 2 { s[2] } else { 0u8 };
    lemma_group_bits(a, b, c);
    lemma_digit_round_trip(digit0(a));
    lemma_digit_round_trip(digit1(a, b));
    lemma_digit_round_trip(digit2(b, c));
    lemma_digit_round_trip(digit3(c));
    let t = base64_of(s);
    if s.len() == 1 {
        assert(base64_decode(t) =~= s);
    } else if s.len() == 2 {
        assert(base64_decode(t) =~= s);
    } else {
        let rest = s.subrange(3, s.len() as int);
        lemma_base64_round_trip(rest);
        assert(t.subrange(4, t.len() as int) =~= base64_of(rest));
        assert(base64_decode(t) =~= s);
    }
}

/// Relies on base64::encode (standard alphabet, padded): it panics only when
/// the length of its output would overflow `usize`.
#[verifier::external_body]
fn base64_encode(b: &[u8]) -> (r: String)
    requires
        4 * ((b@.len() + 2) / 3) <= usize::MAX,
    ensures
        r@ == base64_of(b@),
{
    base64::encode(b)
}

/// Renders a sealed record as base64 text for channels that carry text only.
pub fn transport_encode(sealed: &Vec<u8>) -> (r: String)
    requires
        4 * ((sealed@.len() + 2) / 3) <= usize::MAX,
    ensures
        r@ == base64_of(sealed@),
{
    base64_encode(sealed.as_slice())
}

} // verus!
