//! The short-term buffer (`now.md`): stamped with the day it was started,
//! appended to during that day, and rolled into that day's daily file once
//! a later day begins.
use vstd::prelude::*;

use crate::memory::rollup::{iso_date, parse_iso_date};
use crate::text::{
    append, chars_of, chars_views, join, lines, lines_of, string_from, strip_prefix,
    strip_suffix, stripped_prefix, stripped_suffix, trim, trimmed, CharClass,
};

verus! {

/// The header a new buffer starts with.
pub fn buffer_header(date_text: &str) -> (r: String)
    ensures
        r@ == "<!-- buffer-date: "@ + date_text@ + " -->\n\n"@,
{
    let mut m = chars_of("<!-- buffer-date: ");
    append(&mut m, chars_of(date_text).as_slice());
    append(&mut m, chars_of(" -->\n\n").as_slice());
    string_from(m.as_slice())
}

/// A dated or timed entry: a heading, the text trimmed, a blank line. The
/// buffer heads entries with the time, core memories with the date.
pub fn memory_entry(heading: &str, text: &str) -> (r: String)
    ensures
        r@ == "## "@ + heading@ + "\n"@ + trim(text@, CharClass::WhiteSpace) + "\n\n"@,
{
    let mut m = chars_of("## ");
    append(&mut m, chars_of(heading).as_slice());
    append(&mut m, chars_of("\n").as_slice());
    append(&mut m, trimmed(chars_of(text).as_slice(), &CharClass::WhiteSpace).as_slice());
    append(&mut m, chars_of("\n\n").as_slice());
    string_from(m.as_slice())
}

/// The date text in a buffer's header line.
pub open spec fn buffer_date_text(contents: Seq<char>) -> Option<Seq<char>> {
    let ls = lines(contents);
    if ls.len() == 0 {
        None
    } else {
        match strip_prefix(ls[0], "<!-- buffer-date: "@) {
            Some(rest) => strip_suffix(rest, " -->"@),
            None => None,
        }
    }
}

/// A buffer's body: every line after the header, each followed by a line
/// break.
pub open spec fn buffer_body(contents: Seq<char>) -> Seq<char> {
    join(lines(contents).skip(1), "\n"@) + "\n"@
}

/// A buffer to roll into its day's daily file.
#[derive(Debug)]
pub struct Rollover {
    pub day: i32,
    pub date_text: String,
    pub body: String,
}

/// Whether the buffer with `contents` is rolled over on `today` (a day
/// number): only when its header names an earlier day; its body then goes
/// to that day's daily file.
pub fn rollover(contents: &str, today: i32) -> (r: Option<Rollover>)
    ensures
        match buffer_date_text(contents@) {
            None => r is None,
            Some(t) => match iso_date(t) {
                None => r is None,
                Some((day, text)) => if day >= today {
                    r is None
                } else {
                    r matches Some(x) && x.day == day && x.date_text@ == text && x.body@
                        == buffer_body(contents@)
                },
            },
        },
{
    let ls = lines_of(chars_of(contents).as_slice());
    if ls.len() == 0 {
        return None;
    }
    let rest = match stripped_prefix(ls[0].as_slice(), chars_of("<!-- buffer-date: ").as_slice()) {
        Some(r) => r,
        None => {
            return None;
        },
    };
    let t = match stripped_suffix(rest.as_slice(), chars_of(" -->").as_slice()) {
        Some(t) => t,
        None => {
            return None;
        },
    };
    let (day, text) = match parse_iso_date(string_from(t.as_slice()).as_str()) {
        Some(x) => x,
        None => {
            return None;
        },
    };
    if day >= today {
        return None;
    }
    let ghost lv = chars_views(ls@);
    let mut body_lines: Vec<Vec<char>> = Vec::new();
    let mut i: usize = 1;
    while i < ls.len()
        invariant
            1 <= i <= ls@.len(),
            lv == chars_views(ls@),
            chars_views(body_lines@) == lv.subrange(1, i as int),
        decreases ls@.len() - i,
    {
        let mut l: Vec<char> = Vec::new();
        append(&mut l, ls[i].as_slice());
        let ghost bb = chars_views(body_lines@);
        body_lines.push(l);
        assert(chars_views(body_lines@) =~= lv.subrange(1, i + 1)) by {
            assert(lv.subrange(1, i + 1) =~= bb.push(lv[i as int]));
        }
        i = i + 1;
    }
    assert(lv.subrange(1, lv.len() as int) =~= lv.skip(1));
    let mut body = crate::text::join_chars(&body_lines, chars_of("\n").as_slice());
    body.push('\n');
    assert(body@ == buffer_body(contents@)) by {
        reveal_strlit("\n");
    }
    Some(Rollover { day, date_text: text, body: string_from(body.as_slice()) })
}

} // verus!
