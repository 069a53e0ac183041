//! JSON support in two halves: a verified emitter for the exact request
//! bodies the engine API takes, and trusted read access to fields of the
//! JSON documents the engine sends back.

use vstd::prelude::*;
use vstd::string::StringSliceAdditionalSpecFns;
use crate::ascii::append_bytes;

verus! {

/// The lowercase hex digit for a value below 16.
pub open spec fn hex_digit_byte(d: int) -> u8 {
    if d < 10 {
        (48 + d) as u8
    } else {
        (87 + d) as u8
    }
}

/// How one byte appears inside a JSON string literal: quote and backslash
/// are escaped, control bytes become `\u00XX`, everything else — including
/// UTF-8 continuation bytes — passes through.
pub open spec fn escape_byte(b: u8) -> Seq<u8> {
    if b == 34 {
        seq![92u8, 34u8]
    } else if b == 92 {
        seq![92u8, 92u8]
    } else if b < 32 {
        seq![92u8, 117u8, 48u8, 48u8, hex_digit_byte(b as int / 16), hex_digit_byte(b as int % 16)]
    } else {
        seq![b]
    }
}

/// A byte string escaped for use inside a JSON string literal.
pub open spec fn spec_escape(s: Seq<u8>) -> Seq<u8>
    decreases s.len(),
{
    if s.len() == 0 {
        Seq::empty()
    } else {
        spec_escape(s.drop_last()) + escape_byte(s.last())
    }
}

/// A JSON string literal: quotes around the escaped bytes.
pub open spec fn spec_json_string(s: Seq<u8>) -> Seq<u8> {
    seq![34u8] + spec_escape(s) + seq![34u8]
}

/// Appends the escaped form of `s` to `out`.
pub fn escape_into(out: &mut Vec<u8>, s: &[u8])
    ensures
        final(out)@ == old(out)@ + spec_escape(s@),
{
    proof {
        assert(old(out)@ + spec_escape(s@.take(0)) =~= old(out)@);
    }
    let mut i: usize = 0;
    while i < s.len()
        invariant
            0 <= i <= s@.len(),
            out@ == old(out)@ + spec_escape(s@.take(i as int)),
        decreases s@.len() - i,
    {
        let b = s[i];
        proof {
            assert(s@.take(i + 1).drop_last() =~= s@.take(i as int));
            assert(s@.take(i + 1).last() == s@[i as int]);
        }
        if b == 34 {
            out.push(92);
            out.push(34);
        } else if b == 92 {
            out.push(92);
            out.push(92);
        } else if b < 32 {
            out.push(92);
            out.push(117);
            out.push(48);
            out.push(48);
            let hi = b / 16;
            let lo = b % 16;
            out.push(if hi < 10 {
                48 + hi
            } else {
                87 + hi
            });
            out.push(if lo < 10 {
                48 + lo
            } else {
                87 + lo
            });
        } else {
            out.push(b);
        }
        proof {
            assert(out@ =~= old(out)@ + spec_escape(s@.take(i + 1)));
        }
        i += 1;
    }
    proof {
        assert(s@.take(s@.len() as int) =~= s@);
    }
}

/// Appends the JSON string literal for the byte string `s` to `out`.
pub fn push_json_bytes(out: &mut Vec<u8>, s: &[u8])
    ensures
        final(out)@ == old(out)@ + spec_json_string(s@),
{
    out.push(34);
    escape_into(out, s);
    out.push(34);
    proof {
        assert(out@ =~= old(out)@ + spec_json_string(s@));
    }
}

/// Appends the JSON string literal for `s` to `out`.
pub fn push_json_string(out: &mut Vec<u8>, s: &str)
    ensures
        final(out)@ == old(out)@ + spec_json_string(s.spec_bytes()),
{
    push_json_bytes(out, s.as_bytes());
}

/// The JSON rendering of a boolean.
pub open spec fn spec_json_bool(b: bool) -> Seq<u8> {
    if b {
        "true".spec_bytes()
    } else {
        "false".spec_bytes()
    }
}

/// Appends `true` or `false` to `out`.
pub fn push_json_bool(out: &mut Vec<u8>, b: bool)
    ensures
        final(out)@ == old(out)@ + spec_json_bool(b),
{
    if b {
        append_bytes(out, "true".as_bytes());
    } else {
        append_bytes(out, "false".as_bytes());
    }
}

/// The comma-separated JSON string literals of a list.
pub open spec fn spec_string_items(items: Seq<Seq<u8>>) -> Seq<u8>
    decreases items.len(),
{
    if items.len() == 0 {
        Seq::empty()
    } else if items.len() == 1 {
        spec_json_string(items[0])
    } else {
        spec_string_items(items.drop_last()) + seq![44u8] + spec_json_string(items.last())
    }
}

/// A JSON array of string literals.
pub open spec fn spec_json_string_array(items: Seq<Seq<u8>>) -> Seq<u8> {
    seq![91u8] + spec_string_items(items) + seq![93u8]
}

/// The byte strings of a list of text values.
pub open spec fn strings_bytes(ss: Seq<String>) -> Seq<Seq<u8>> {
    ss.map(|i: int, s: String| vstd::utf8::encode_utf8(s@))
}

/// Appends the JSON array of string literals for `items` to `out`.
pub fn push_json_string_array(out: &mut Vec<u8>, items: &Vec<String>)
    ensures
        final(out)@ == old(out)@ + spec_json_string_array(strings_bytes(items@)),
{
    out.push(91);
    let ghost base = out@;
    let mut i: usize = 0;
    proof {
        assert(base + spec_string_items(strings_bytes(items@).take(0)) =~= base);
    }
    while i < items.len()
        invariant
            0 <= i <= items@.len(),
            out@ == base + spec_string_items(strings_bytes(items@).take(i as int)),
        decreases items@.len() - i,
    {
        if i > 0 {
            out.push(44);
        }
        let s: &String = &items[i];
        push_json_string(out, s.as_str());
        proof {
            let sb = strings_bytes(items@);
            assert(sb.take(i + 1).drop_last() =~= sb.take(i as int));
            assert(sb.take(i + 1).last() == sb[i as int]);
            assert(sb[i as int] == vstd::utf8::encode_utf8(items@[i as int]@));
            if i == 0 {
                assert(out@ =~= base + spec_string_items(sb.take(1)));
            } else {
                assert(out@ =~= base + spec_string_items(sb.take(i + 1)));
            }
        }
        i += 1;
    }
    out.push(93);
    proof {
        assert(strings_bytes(items@).take(items@.len() as int) =~= strings_bytes(items@));
        assert(out@ =~= old(out)@ + spec_json_string_array(strings_bytes(items@)));
    }
}

/// Whether a byte string is a well-formed JSON document, as the JSON parser
/// in use accepts it. Depends on the bytes alone.
pub uninterp spec fn json_well_formed(body: Seq<u8>) -> bool;

/// The string value at a top-level key of a JSON document, when the document
/// is a well-formed object and that key holds a string. Depends on the bytes
/// and the key alone.
pub uninterp spec fn json_string_field(body: Seq<u8>, key: Seq<char>) -> Option<Seq<char>>;

/// The unsigned integer value at a top-level key of a JSON document, when
/// the document is a well-formed object and that key holds such a number.
/// Depends on the bytes and the key alone.
pub uninterp spec fn json_u64_field(body: Seq<u8>, key: Seq<char>) -> Option<u64>;

/// Relies on `serde_json::from_slice::<Value>`: whether the bytes parse as a
/// JSON document is a function of the bytes alone.
#[verifier::external_body]
pub fn json_is_valid(body: &[u8]) -> (r: bool)
    ensures
        r == json_well_formed(body@),
{
    serde_json::from_slice::<serde_json::Value>(body).is_ok()
}

/// Relies on `serde_json::from_slice::<Value>`, `Value::get` and
/// `Value::as_str`: the string at a top-level key is a function of the
/// document bytes and the key alone.
#[verifier::external_body]
pub fn json_str_field(body: &[u8], key: &str) -> (r: Option<String>)
    ensures
        r is Some <==> json_string_field(body@, key@) is Some,
        r matches Some(s) ==> json_string_field(body@, key@) == Some(s@),
{
    match serde_json::from_slice::<serde_json::Value>(body) {
        Ok(v) => match v.get(key) {
            Some(f) => f.as_str().map(|s| s.to_string()),
            None => None,
        },
        Err(_) => None,
    }
}

/// Relies on `serde_json::from_slice::<Value>`, `Value::get` and
/// `Value::as_u64`: the unsigned number at a top-level key is a function of
/// the document bytes and the key alone.
#[verifier::external_body]
pub fn json_u64_field_get(body: &[u8], key: &str) -> (r: Option<u64>)
    ensures
        r is Some <==> json_u64_field(body@, key@) is Some,
        r matches Some(n) ==> json_u64_field(body@, key@) == Some(n),
{
    match serde_json::from_slice::<serde_json::Value>(body) {
        Ok(v) => match v.get(key) {
            Some(f) => f.as_u64(),
            None => None,
        },
        Err(_) => None,
    }
}

} // verus!
