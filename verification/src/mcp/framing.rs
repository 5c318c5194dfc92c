//! The framing of MCP's stdio transport: a block of `\r\n`-ended header
//! lines closed by an empty line, whose `Content-Length` header gives the
//! size of the JSON body that follows.
use vstd::prelude::*;

use crate::text::{
    append, chars_of, decimal, decimal_chars, is_digit, is_white_space, lemma_decimal_digits,
    parse_usize, parse_usize_spec, string_from, strip_prefix, stripped_prefix, trim, trim_end,
    trim_start, trimmed, usize_body, CharClass,
};

verus! {

/// What one header line does to the message being read.
#[derive(Debug, Clone, Copy, PartialEq, Eq, Structural)]
pub enum HeaderLine {
    /// The empty line that ends the header block.
    End,
    /// Another header; the body length known after it.
    Header(Option<usize>),
}

pub open spec fn opt_nat(o: Option<usize>) -> Option<nat> {
    match o {
        Some(n) => Some(n as nat),
        None => None,
    }
}

/// What one header line does (white space around it ignored), with
/// `current` the body length known so far: `None` for the empty line that
/// ends the block; otherwise the length known after it: a
/// `Content-Length:` header sets it to its value, or to none when that is
/// not a number, and any other header leaves it as it was.
pub open spec fn header_effect(current: Option<nat>, line: Seq<char>) -> Option<Option<nat>> {
    let t = trim(line, CharClass::WhiteSpace);
    if t.len() == 0 {
        None
    } else {
        match strip_prefix(t, "Content-Length:"@) {
            Some(rest) => Some(parse_usize_spec(trim(rest, CharClass::WhiteSpace))),
            None => Some(current),
        }
    }
}

/// Reads one header line; see [`header_effect`].
pub fn header_step(current: Option<usize>, line: &str) -> (r: HeaderLine)
    ensures
        match header_effect(opt_nat(current), line@) {
            None => r == HeaderLine::End,
            Some(l) => r matches HeaderLine::Header(n) && opt_nat(n) == l,
        },
{
    let t = trimmed(chars_of(line).as_slice(), &CharClass::WhiteSpace);
    if t.len() == 0 {
        return HeaderLine::End;
    }
    match stripped_prefix(t.as_slice(), chars_of("Content-Length:").as_slice()) {
        Some(rest) => {
            let v = trimmed(rest.as_slice(), &CharClass::WhiteSpace);
            HeaderLine::Header(parse_usize(v.as_slice()))
        },
        None => HeaderLine::Header(current),
    }
}

/// The header line that announces a body of `len` bytes.
pub open spec fn length_line(len: nat) -> Seq<char> {
    "Content-Length: "@ + decimal(len)
}

/// The header block that precedes a body of `len` bytes.
pub fn frame_header(len: usize) -> (r: String)
    ensures
        r@ == length_line(len as nat) + "\r\n"@ + "\r\n"@,
{
    let mut h = chars_of("Content-Length: ");
    append(&mut h, decimal_chars(len).as_slice());
    append(&mut h, chars_of("\r\n").as_slice());
    append(&mut h, chars_of("\r\n").as_slice());
    string_from(h.as_slice())
}

proof fn lemma_trim_keeps(s: Seq<char>)
    requires
        s.len() > 0,
        !is_white_space(s[0]),
        !is_white_space(s.last()),
    ensures
        trim(s, CharClass::WhiteSpace) == s,
{
}

/// A length framed by [`frame_header`] reads back: the frame is two lines,
/// the first setting the body length to `len` whatever was known before,
/// the second ending the header block.
pub proof fn framed_length_reads_back(current: Option<nat>, len: nat)
    requires
        len <= usize::MAX,
    ensures
        header_effect(current, length_line(len) + "\r\n"@) == Some(Some(len)),
        header_effect(Some(len), "\r\n"@) == None::<Option<nat>>,
{
    reveal_strlit("Content-Length: ");
    reveal_strlit("Content-Length:");
    reveal_strlit("\r\n");
    lemma_decimal_digits(len);
    let d = decimal(len);
    let line = length_line(len) + "\r\n"@;
    let core = length_line(len);
    assert(is_digit(d.last()));
    assert(core.last() == d.last());
    assert(line.drop_last().drop_last() =~= core);
    assert(line.last() == '\n');
    assert(line.drop_last().last() == '\r');
    assert(trim_end(line.drop_last(), CharClass::WhiteSpace) == trim_end(core, CharClass::WhiteSpace));
    assert(trim_end(line, CharClass::WhiteSpace) == trim_end(core, CharClass::WhiteSpace));
    assert(trim_start(line, CharClass::WhiteSpace) == line);
    lemma_trim_keeps(core);
    assert(trim(line, CharClass::WhiteSpace) == core);
    let rest = core.skip(15);
    assert(core.take(15) =~= "Content-Length:"@);
    assert(rest =~= seq![' '] + d);
    assert(rest.drop_first() =~= d);
    assert(is_digit(d[0]));
    assert(trim_start(rest, CharClass::WhiteSpace) == trim_start(d, CharClass::WhiteSpace));
    lemma_trim_keeps(d);
    assert(trim(rest, CharClass::WhiteSpace) == d);
    assert(usize_body(d) == d);
    let e: Seq<char> = "\r\n"@;
    assert(e.drop_last().drop_last() =~= Seq::<char>::empty());
    assert(e[0] == '\r' && e[1] == '\n');
    assert(e.drop_first().drop_first() =~= Seq::<char>::empty());
    assert(trim_start(e.drop_first(), CharClass::WhiteSpace) == trim_start(
        e.drop_first().drop_first(),
        CharClass::WhiteSpace,
    ));
    assert(trim_start(e, CharClass::WhiteSpace) =~= Seq::<char>::empty());
}

} // verus!
