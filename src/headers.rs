use vstd::prelude::*;
use vstd::utf8::*;

verus! {

/// One request header as it arrived: its (lower-case) name and its raw value bytes.
pub struct Header {
    pub name: String,
    pub value: Vec<u8>,
}

/// A header value byte is text when it is visible ASCII or a horizontal tab.
pub open spec fn is_text_byte(b: u8) -> bool {
    (32 <= b && b < 127) || b == 9
}

pub open spec fn is_header_text(v: Seq<u8>) -> bool {
    forall|i: int| 0 <= i < v.len() ==> is_text_byte(#[trigger] v[i])
}

/// The characters of a text header value: one per byte.
pub open spec fn text_chars(v: Seq<u8>) -> Seq<char> {
    v.map_values(|b: u8| b as char)
}

/// What decoding a header value as text gives: its characters, or nothing when
/// some byte is not text.
pub open spec fn decoded(v: Seq<u8>) -> Option<Seq<char>> {
    if is_header_text(v) {
        Some(text_chars(v))
    } else {
        None
    }
}

/// The value of the first header named `name`, if any.
pub open spec fn lookup(hs: Seq<Header>, name: Seq<char>) -> Option<Seq<u8>>
    decreases hs.len(),
{
    if hs.len() == 0 {
        None
    } else if hs[0].name@ == name {
        Some(hs[0].value@)
    } else {
        lookup(hs.drop_first(), name)
    }
}

/// Relies on String::from_utf8: it succeeds exactly on valid UTF-8 and then
/// holds the characters those bytes encode.
#[verifier::external_body]
fn utf8_text(v: Vec<u8>) -> (r: Option<String>)
    ensures
        r is Some <==> valid_utf8(v@),
        r is Some ==> r->0@ == decode_utf8(v@),
{
    String::from_utf8(v).ok()
}

proof fn lemma_text_is_utf8(v: Seq<u8>)
    requires
        is_header_text(v),
    ensures
        valid_utf8(v),
        decode_utf8(v) == text_chars(v),
{
    let c = text_chars(v);
    assert(is_ascii_chars(c));
    is_ascii_chars_encode_utf8(c);
    assert(encode_utf8(c) =~= v);
    encode_utf8_valid_utf8(c);
    encode_utf8_decode_utf8(c);
}

/// Decodes a header value as text: `None` when a byte is neither visible ASCII
/// nor a tab.
pub fn header_text(v: &Vec<u8>) -> (r: Option<String>)
    ensures
        r matches Some(s) ==> decoded(v@) == Some(s@),
        r is None ==> decoded(v@) is None,
{
    let mut i: usize = 0;
    while i < v.len()
        invariant
            i <= v@.len(),
            forall|j: int| 0 <= j < i ==> is_text_byte(#[trigger] v@[j]),
        decreases v@.len() - i,
    {
        let b = v[i];
        if !((32 <= b && b < 127) || b == 9) {
            return None;
        }
        i = i + 1;
    }
    proof {
        lemma_text_is_utf8(v@);
    }
    utf8_text(v.clone())
}

/// Position of the first header named `name`.
pub fn find_header(hs: &Vec<Header>, name: &String) -> (r: Option<usize>)
    ensures
        match r {
            Some(i) => i < hs@.len() && hs@[i as int].name@ == name@ && lookup(hs@, name@)
                == Some(hs@[i as int].value@),
            None => lookup(hs@, name@) is None,
        },
{
    let mut i: usize = 0;
    assert(hs@.subrange(0, hs@.len() as int) =~= hs@);
    while i < hs.len()
        invariant
            i <= hs@.len(),
            lookup(hs@, name@) == lookup(hs@.subrange(i as int, hs@.len() as int), name@),
        decreases hs@.len() - i,
    {
        proof {
            let rest = hs@.subrange(i as int, hs@.len() as int);
            assert(rest.drop_first() =~= hs@.subrange(i + 1, hs@.len() as int));
            assert(rest[0] == hs@[i as int]);
        }
        if hs[i].name == *name {
            return Some(i);
        }
        i = i + 1;
    }
    None
}

} // verus!
