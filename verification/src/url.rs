//! Percent-encoding of URL path segments.
use vstd::prelude::*;
use vstd::utf8::encode_utf8;

use crate::text::{append, chars_of, string_from};

verus! {

/// The bytes a path segment keeps as they are: ASCII letters, digits and
/// `-`, `.`, `_`, `~` (RFC 3986's unreserved characters).
pub open spec fn is_unreserved(b: u8) -> bool {
    (65 <= b <= 90) || (97 <= b <= 122) || (48 <= b <= 57) || b == 45 || b == 46 || b == 95
        || b == 126
}

/// The upper-case hexadecimal digit for `d < 16`.
pub open spec fn upper_hex(d: u8) -> char {
    if d < 10 {
        ((48 + d) as u8) as char
    } else {
        ((55 + d) as u8) as char
    }
}

/// How one byte of a segment is written in a URL.
pub open spec fn encoded_byte(b: u8) -> Seq<char> {
    if is_unreserved(b) {
        seq![b as char]
    } else {
        seq!['%', upper_hex(b / 16), upper_hex(b % 16)]
    }
}

/// The bytes `b` written in a URL.
pub open spec fn encoded_bytes(b: Seq<u8>) -> Seq<char>
    decreases b.len(),
{
    if b.len() == 0 {
        Seq::empty()
    } else {
        encoded_bytes(b.drop_last()) + encoded_byte(b.last())
    }
}

fn upper_hex_exec(d: u8) -> (r: char)
    requires
        d < 16,
    ensures
        r == upper_hex(d),
{
    if d < 10 {
        (48 + d) as char
    } else {
        (55 + d) as char
    }
}

/// Percent-encodes one path segment: every byte of its UTF-8 encoding but
/// the unreserved ones becomes `%XX`.
pub fn encode_path_segment(segment: &str) -> (r: String)
    ensures
        r@ == encoded_bytes(encode_utf8(segment@)),
{
    let bytes = segment.as_bytes();
    let ghost b = encode_utf8(segment@);
    let mut out: Vec<char> = Vec::new();
    let mut i: usize = 0;
    while i < bytes.len()
        invariant
            bytes@ == b,
            i <= b.len(),
            out@ == encoded_bytes(b.take(i as int)),
        decreases b.len() - i,
    {
        assert(b.take(i + 1).drop_last() =~= b.take(i as int));
        let x = bytes[i];
        if (65 <= x && x <= 90) || (97 <= x && x <= 122) || (48 <= x && x <= 57) || x == 45 || x
            == 46 || x == 95 || x == 126 {
            out.push(x as char);
        } else {
            out.push('%');
            out.push(upper_hex_exec(x / 16));
            out.push(upper_hex_exec(x % 16));
        }
        assert(out@ =~= encoded_bytes(b.take(i + 1)));
        i = i + 1;
    }
    assert(b.take(b.len() as int) =~= b);
    string_from(out.as_slice())
}

} // verus!
