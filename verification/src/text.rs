//! Small helpers for building `String` values: appending single characters,
//! decimal rendering, and recovering text from response bytes.

use vstd::prelude::*;
use vstd::string::StringExecFns;
use vstd::utf8::{encode_utf8, valid_utf8};

verus! {

/// Relies on `String::push`: appends the given character to the end of the string.
#[verifier::external_body]
pub fn push_char(s: &mut String, c: char)
    ensures
        final(s)@ == old(s)@ + seq![c],
{
    s.push(c);
}

/// Relies on `core::str::from_utf8`: succeeds exactly on valid UTF-8 input
/// and re-interprets the bytes unchanged as text.
#[verifier::external_body]
pub fn utf8_text(v: &[u8]) -> (r: Option<String>)
    ensures
        r is Some <==> valid_utf8(v@),
        r matches Some(s) ==> encode_utf8(s@) == v@,
{
    match core::str::from_utf8(v) {
        Ok(s) => Some(s.to_string()),
        Err(_) => None,
    }
}

/// The text recovered from response bytes: the bytes read as UTF-8, or empty
/// text when they are not valid UTF-8.
pub open spec fn text_of_bytes(b: Seq<u8>) -> Seq<char> {
    if valid_utf8(b) {
        vstd::utf8::decode_utf8(b)
    } else {
        Seq::<char>::empty()
    }
}

/// Decodes bytes as UTF-8 text, falling back to the empty string.
pub fn bytes_to_text(v: &[u8]) -> (r: String)
    ensures
        r@ == text_of_bytes(v@),
{
    match utf8_text(v) {
        Some(s) => {
            proof {
                vstd::utf8::decode_utf8_encode_utf8(v@);
                vstd::utf8::encode_utf8_decode_utf8(s@);
            }
            s
        },
        None => String::new(),
    }
}

/// The canonical decimal digit characters of a number.
pub open spec fn dec_chars(n: int) -> Seq<char>
    decreases n,
{
    if n < 10 {
        seq![((48 + if n >= 0 { n } else { 0 }) as u8) as char]
    } else {
        dec_chars(n / 10).push(((48 + n % 10) as u8) as char)
    }
}

/// Formats a number as a decimal string.
pub fn u64_to_dec_string(n: u64) -> (r: String)
    ensures
        r@ == dec_chars(n as int),
    decreases n,
{
    if n < 10 {
        let mut s = String::new();
        push_char(&mut s, (48 + (n as u8)) as char);
        s
    } else {
        let mut s = u64_to_dec_string(n / 10);
        push_char(&mut s, (48 + ((n % 10) as u8)) as char);
        s
    }
}

} // verus!
