//! Trusted conversions between byte vectors and `String`, used where the
//! library builds or consumes text at its byte level.
use vstd::prelude::*;

verus! {

/// The UTF-8 bytes of a text, the view under which this library states
/// every contract about strings.
pub open spec fn text_bytes(s: Seq<char>) -> Seq<u8> {
    vstd::utf8::encode_utf8(s)
}

/// Text equality, decided on the UTF-8 bytes.
pub fn str_eq(a: &str, b: &str) -> (r: bool)
    ensures
        r == (a@ == b@),
{
    proof {
        vstd::utf8::encode_utf8_decode_utf8(a@);
        vstd::utf8::encode_utf8_decode_utf8(b@);
    }
    crate::bytesutil::bytes_eq(a.as_bytes(), b.as_bytes())
}

/// Relies on `String::push`: appends the character.
#[verifier::external_body]
pub fn string_push_char(s: &mut String, c: char)
    ensures
        final(s)@ == old(s)@.push(c),
{
    s.push(c);
}

/// Relies on `String::pop`: removes and returns the last character, or
/// does nothing on an empty text.
#[verifier::external_body]
pub fn string_pop_char(s: &mut String) -> (r: Option<char>)
    ensures
        match r {
            Some(c) => old(s)@.len() > 0 && c == old(s)@.last() && final(s)@ == old(
                s,
            )@.drop_last(),
            None => old(s)@.len() == 0 && final(s)@ == old(s)@,
        },
{
    s.pop()
}

/// Relies on `String::clear`: the text is empty afterwards.
#[verifier::external_body]
pub fn string_clear(s: &mut String)
    ensures
        final(s)@ == Seq::<char>::empty(),
{
    s.clear();
}

/// Relies on `String::from_utf8`, which succeeds on every ASCII input and
/// keeps the bytes unchanged.
#[verifier::external_body]
pub fn string_from_ascii(b: Vec<u8>) -> (r: String)
    requires
        forall|i: int| 0 <= i < b@.len() ==> b@[i] < 128,
    ensures
        text_bytes(r@) == b@,
{
    match String::from_utf8(b) {
        Ok(s) => s,
        Err(_) => String::new(),
    }
}

/// Relies on `String::from_utf8`: it succeeds exactly on valid UTF-8 input
/// and keeps the bytes unchanged.
#[verifier::external_body]
pub fn string_from_utf8_opt(b: Vec<u8>) -> (r: Option<String>)
    ensures
        match r {
            Some(s) => text_bytes(s@) == b@,
            None => !vstd::utf8::valid_utf8(b@),
        },
{
    match String::from_utf8(b) {
        Ok(s) => Some(s),
        Err(_) => None,
    }
}

} // verus!
