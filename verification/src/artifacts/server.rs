//! The decisions of the artifact server: which requests are answered and
//! how, which paths under the served directory a request may name, the
//! content type of a file, and the escaping and decoding it relies on.
//! Sockets and the file system are the caller's.
use vstd::prelude::*;
use vstd::utf8::{decode_utf8, encode_scalar, encode_utf8, valid_utf8};

use crate::config::layering::Named;
use crate::sorting::{keys_of, sort_by_key, sorted};
use crate::text::{
    after_last, append, ascii_lower, chars_of, decimal, decimal_chars, ends_with, has_prefix,
    has_suffix, is_white_space, lowered, rsplit_once, rsplit_once_at, same, split_once,
    split_once_at, starts_with, string_from, strip_prefix, stripped_prefix, trim, trim_end,
    trim_start, trimmed, trimmed_end, trimmed_start, white_space, CharClass,
};
use crate::url::{encode_path_segment, encoded_bytes};

verus! {

/// Compares two tokens without stopping at the first difference, so the
/// time a refusal takes does not tell how much of a guess was right.
pub fn token_eq(a: &str, b: &str) -> (r: bool)
    ensures
        r == (a@ == b@),
{
    let x = chars_of(a);
    let y = chars_of(b);
    if x.len() != y.len() {
        return false;
    }
    let n = x.len();
    let mut diff: u32 = 0;
    let mut i: usize = 0;
    while i < n
        invariant
            n == x@.len(),
            n == y@.len(),
            i <= n,
            (diff == 0) == (forall|j: int| 0 <= j < i ==> x@[j] == y@[j]),
        decreases n - i,
    {
        let p = x[i] as u32;
        let q = y[i] as u32;
        let d = p ^ q;
        assert((p ^ q == 0) == (p == q)) by (bit_vector);
        assert((diff | d == 0) == (diff == 0 && d == 0)) by (bit_vector);
        proof {
            vstd::utf8::char_u32_cast(x@[i as int], p);
            vstd::utf8::char_u32_cast(y@[i as int], q);
        }
        assert(p == q <==> x@[i as int] == y@[i as int]);
        diff = diff | d;
        i = i + 1;
    }
    if diff == 0 {
        assert(x@ =~= y@);
    }
    diff == 0
}

pub open spec fn is_hex_byte(b: u8) -> bool {
    (48 <= b <= 57) || (97 <= b <= 102) || (65 <= b <= 70)
}

pub open spec fn hex_value(b: u8) -> int {
    if 48 <= b <= 57 {
        b - 48
    } else if 97 <= b <= 102 {
        b - 87
    } else {
        b - 55
    }
}

/// The byte two characters after a `%` stand for, as `u8::from_str_radix`
/// reads them in base 16 (a leading `+` is allowed).
pub open spec fn percent_pair(b1: u8, b2: u8) -> Option<u8> {
    if is_hex_byte(b1) && is_hex_byte(b2) {
        Some((hex_value(b1) * 16 + hex_value(b2)) as u8)
    } else if b1 == 43 && is_hex_byte(b2) {
        Some(hex_value(b2) as u8)
    } else {
        None
    }
}

/// The bytes of `b[i..]` with every `%XX` replaced by the byte it encodes;
/// `None` at a `%` not followed by two such characters.
pub open spec fn percent_decoded(b: Seq<u8>, i: int) -> Option<Seq<u8>>
    decreases b.len() - i,
{
    if i < 0 || i >= b.len() {
        Some(Seq::empty())
    } else if b[i] == 37 {
        if i + 3 <= b.len() {
            match percent_pair(b[i + 1], b[i + 2]) {
                Some(v) => match percent_decoded(b, i + 3) {
                    Some(rest) => Some(seq![v] + rest),
                    None => None,
                },
                None => None,
            }
        } else {
            None
        }
    } else {
        match percent_decoded(b, i + 1) {
            Some(rest) => Some(seq![b[i]] + rest),
            None => None,
        }
    }
}

/// The string `input` decodes to: its bytes percent-decoded, when they are
/// valid UTF-8.
pub open spec fn percent_decode_spec(input: Seq<char>) -> Option<Seq<char>> {
    match percent_decoded(encode_utf8(input), 0) {
        Some(bytes) => if valid_utf8(bytes) {
            Some(decode_utf8(bytes))
        } else {
            None
        },
        None => None,
    }
}

/// Converts bytes to a string with `String::from_utf8`, which succeeds
/// exactly on valid UTF-8; the contract states that, and that the string
/// holds the characters the bytes encode.
#[verifier::external_body]
fn utf8_string(bytes: Vec<u8>) -> (r: Option<String>)
    ensures
        match r {
            Some(s) => valid_utf8(bytes@) && s@ == decode_utf8(bytes@),
            None => !valid_utf8(bytes@),
        },
{
    String::from_utf8(bytes).ok()
}

fn hex_value_exec(b: u8) -> (r: u8)
    requires
        is_hex_byte(b),
    ensures
        r as int == hex_value(b),
{
    if 48 <= b && b <= 57 {
        b - 48
    } else if 97 <= b && b <= 102 {
        b - 87
    } else {
        b - 55
    }
}

fn percent_pair_exec(b1: u8, b2: u8) -> (r: Option<u8>)
    ensures
        r == percent_pair(b1, b2),
{
    let h1 = (48 <= b1 && b1 <= 57) || (97 <= b1 && b1 <= 102) || (65 <= b1 && b1 <= 70);
    let h2 = (48 <= b2 && b2 <= 57) || (97 <= b2 && b2 <= 102) || (65 <= b2 && b2 <= 70);
    if h1 && h2 {
        let v = hex_value_exec(b1) * 16 + hex_value_exec(b2);
        Some(v)
    } else if b1 == 43 && h2 {
        Some(hex_value_exec(b2))
    } else {
        None
    }
}

/// Percent-decodes a request path; `None` for a malformed `%` sequence or
/// a result that is not valid UTF-8.
pub fn percent_decode(input: &str) -> (r: Option<String>)
    ensures
        match r {
            Some(s) => percent_decode_spec(input@) == Some(s@),
            None => percent_decode_spec(input@) is None,
        },
{
    let bytes = input.as_bytes();
    let ghost b = encode_utf8(input@);
    let n = bytes.len();
    let mut out: Vec<u8> = Vec::new();
    let mut i: usize = 0;
    while i < n
        invariant
            bytes@ == b,
            b == encode_utf8(input@),
            n == b.len(),
            i <= n,
            percent_decoded(b, 0) == match percent_decoded(b, i as int) {
                Some(rest) => Some(out@ + rest),
                None => None::<Seq<u8>>,
            },
        decreases n - i,
    {
        if bytes[i] == 37 {
            if n - i < 3 {
                assert(percent_decoded(b, i as int) is None);
                return None;
            }
            match percent_pair_exec(bytes[i + 1], bytes[i + 2]) {
                Some(v) => {
                    let ghost ob = out@;
                    out.push(v);
                    proof {
                        match percent_decoded(b, i + 3) {
                            Some(rest) => {
                                assert(ob + (seq![v] + rest) =~= out@ + rest);
                            },
                            None => {},
                        }
                    }
                    i = i + 3;
                },
                None => {
                    assert(percent_decoded(b, i as int) is None);
                    return None;
                },
            }
        } else {
            let ghost ob = out@;
            out.push(bytes[i]);
            proof {
                match percent_decoded(b, i + 1) {
                    Some(rest) => {
                        assert(ob + (seq![b[i as int]] + rest) =~= out@ + rest);
                    },
                    None => {},
                }
            }
            i = i + 1;
        }
    }
    assert(out@ + Seq::<u8>::empty() =~= out@);
    utf8_string(out)
}

/// The HTML escape of a character.
pub open spec fn escaped_char(c: char) -> Seq<char> {
    if c == '&' {
        "&amp;"@
    } else if c == '<' {
        "&lt;"@
    } else if c == '>' {
        "&gt;"@
    } else if c == '"' {
        "&quot;"@
    } else {
        seq![c]
    }
}

/// `text` with `&`, `<`, `>` and `"` escaped for HTML.
pub open spec fn html_escaped(text: Seq<char>) -> Seq<char>
    decreases text.len(),
{
    if text.len() == 0 {
        Seq::empty()
    } else {
        html_escaped(text.drop_last()) + escaped_char(text.last())
    }
}

/// Escapes `&`, `<`, `>` and `"` for HTML.
pub fn html_escape(text: &str) -> (r: String)
    ensures
        r@ == html_escaped(text@),
{
    let cs = chars_of(text);
    let mut out: Vec<char> = Vec::new();
    let mut i: usize = 0;
    while i < cs.len()
        invariant
            i <= cs@.len(),
            cs@ == text@,
            out@ == html_escaped(cs@.take(i as int)),
        decreases cs@.len() - i,
    {
        assert(cs@.take(i + 1).drop_last() =~= cs@.take(i as int));
        let c = cs[i];
        if c == '&' {
            append(&mut out, chars_of("&amp;").as_slice());
        } else if c == '<' {
            append(&mut out, chars_of("&lt;").as_slice());
        } else if c == '>' {
            append(&mut out, chars_of("&gt;").as_slice());
        } else if c == '"' {
            append(&mut out, chars_of("&quot;").as_slice());
        } else {
            out.push(c);
        }
        i = i + 1;
    }
    assert(cs@.take(cs@.len() as int) =~= cs@);
    string_from(out.as_slice())
}

/// The extension of a path's file name: after its last `.`, if the name
/// has one that is not its first character.
pub open spec fn extension_of(path: Seq<char>) -> Option<Seq<char>> {
    let name = after_last(trim_end(path, CharClass::Exactly('/')), '/');
    match rsplit_once(name, '.') {
        Some((stem, ext)) => if stem.len() > 0 {
            Some(ext)
        } else {
            None
        },
        None => None,
    }
}

/// The content type of a lower-cased extension.
pub open spec fn content_type_of(e: Seq<char>) -> Seq<char> {
    if e == "html"@ || e == "htm"@ {
        "text/html; charset=utf-8"@
    } else if e == "css"@ {
        "text/css; charset=utf-8"@
    } else if e == "js"@ || e == "mjs"@ {
        "text/javascript; charset=utf-8"@
    } else if e == "json"@ {
        "application/json"@
    } else if e == "map"@ {
        "application/json"@
    } else if e == "png"@ {
        "image/png"@
    } else if e == "jpg"@ || e == "jpeg"@ {
        "image/jpeg"@
    } else if e == "gif"@ {
        "image/gif"@
    } else if e == "svg"@ {
        "image/svg+xml"@
    } else if e == "webp"@ {
        "image/webp"@
    } else if e == "ico"@ {
        "image/x-icon"@
    } else if e == "txt"@ || e == "log"@ {
        "text/plain; charset=utf-8"@
    } else if e == "md"@ {
        "text/markdown; charset=utf-8"@
    } else if e == "csv"@ {
        "text/csv; charset=utf-8"@
    } else if e == "xml"@ {
        "application/xml"@
    } else if e == "pdf"@ {
        "application/pdf"@
    } else if e == "wasm"@ {
        "application/wasm"@
    } else if e == "woff"@ {
        "font/woff"@
    } else if e == "woff2"@ {
        "font/woff2"@
    } else if e == "ttf"@ {
        "font/ttf"@
    } else if e == "mp4"@ {
        "video/mp4"@
    } else if e == "webm"@ {
        "video/webm"@
    } else {
        "application/octet-stream"@
    }
}

fn content_type_exec(e: &Vec<char>) -> (r: &'static str)
    ensures
        r@ == content_type_of(e@),
{
    if same(e.as_slice(), chars_of("html").as_slice()) || same(e.as_slice(), chars_of("htm").as_slice()) {
        "text/html; charset=utf-8"
    } else if same(e.as_slice(), chars_of("css").as_slice()) {
        "text/css; charset=utf-8"
    } else if same(e.as_slice(), chars_of("js").as_slice()) || same(e.as_slice(), chars_of("mjs").as_slice()) {
        "text/javascript; charset=utf-8"
    } else if same(e.as_slice(), chars_of("json").as_slice()) {
        "application/json"
    } else if same(e.as_slice(), chars_of("map").as_slice()) {
        "application/json"
    } else if same(e.as_slice(), chars_of("png").as_slice()) {
        "image/png"
    } else if same(e.as_slice(), chars_of("jpg").as_slice()) || same(e.as_slice(), chars_of("jpeg").as_slice()) {
        "image/jpeg"
    } else if same(e.as_slice(), chars_of("gif").as_slice()) {
        "image/gif"
    } else if same(e.as_slice(), chars_of("svg").as_slice()) {
        "image/svg+xml"
    } else if same(e.as_slice(), chars_of("webp").as_slice()) {
        "image/webp"
    } else if same(e.as_slice(), chars_of("ico").as_slice()) {
        "image/x-icon"
    } else if same(e.as_slice(), chars_of("txt").as_slice()) || same(e.as_slice(), chars_of("log").as_slice()) {
        "text/plain; charset=utf-8"
    } else if same(e.as_slice(), chars_of("md").as_slice()) {
        "text/markdown; charset=utf-8"
    } else if same(e.as_slice(), chars_of("csv").as_slice()) {
        "text/csv; charset=utf-8"
    } else if same(e.as_slice(), chars_of("xml").as_slice()) {
        "application/xml"
    } else if same(e.as_slice(), chars_of("pdf").as_slice()) {
        "application/pdf"
    } else if same(e.as_slice(), chars_of("wasm").as_slice()) {
        "application/wasm"
    } else if same(e.as_slice(), chars_of("woff").as_slice()) {
        "font/woff"
    } else if same(e.as_slice(), chars_of("woff2").as_slice()) {
        "font/woff2"
    } else if same(e.as_slice(), chars_of("ttf").as_slice()) {
        "font/ttf"
    } else if same(e.as_slice(), chars_of("mp4").as_slice()) {
        "video/mp4"
    } else if same(e.as_slice(), chars_of("webm").as_slice()) {
        "video/webm"
    } else {
        "application/octet-stream"
    }
}

/// The content type a file is served with, by its extension (compared
/// case-insensitively); `application/octet-stream` for any other.
pub fn content_type_for(path: &str) -> (r: &'static str)
    ensures
        r@ == match extension_of(path@) {
            Some(e) => content_type_of(ascii_lower(e)),
            None => "application/octet-stream"@,
        },
{
    let t = trimmed_end(chars_of(path).as_slice(), &CharClass::Exactly('/'));
    let name = match rsplit_once_at(t.as_slice(), '/') {
        Some((_, last)) => last,
        None => t,
    };
    match rsplit_once_at(name.as_slice(), '.') {
        Some((stem, ext)) => if stem.len() > 0 {
            let e = lowered(ext.as_slice());
            content_type_exec(&e)
        } else {
            "application/octet-stream"
        },
        None => "application/octet-stream",
    }
}

/// One path component pushed onto `base`: empty and `.` components are
/// skipped; `..` and every other name starting with `.` are refused.
pub open spec fn push_component(base: Seq<char>, seg: Seq<char>) -> Option<Seq<char>> {
    if seg.len() == 0 || seg == "."@ {
        Some(base)
    } else if seg[0] == '.' {
        None
    } else {
        Some(crate::text::join_path(base, seg))
    }
}

/// `base` with the components of `rest` pushed in order.
pub open spec fn push_components(base: Seq<char>, rest: Seq<char>) -> Option<Seq<char>>
    decreases rest.len(),
{
    match split_once(rest, '/') {
        Some((seg, tail)) => {
            proof {
                crate::text::lemma_split_once_parts(rest, '/');
            }
            match push_component(base, seg) {
                Some(b) => push_components(b, tail),
                None => None,
            }
        },
        None => push_component(base, rest),
    }
}

proof fn lemma_join_path_extends(base: Seq<char>, seg: Seq<char>)
    ensures
        has_prefix(crate::text::join_path(base, seg), base),
{
    let j = crate::text::join_path(base, seg);
    assert(j.take(base.len() as int) =~= base);
}

proof fn lemma_prefix_trans(p: Seq<char>, b: Seq<char>, base: Seq<char>)
    requires
        has_prefix(p, b),
        has_prefix(b, base),
    ensures
        has_prefix(p, base),
{
    assert(p.take(base.len() as int) =~= p.take(b.len() as int).take(base.len() as int));
}

/// A requested path never leaves the served directory: every path it
/// resolves to extends the root (no `..` is ever followed).
pub proof fn requested_paths_stay_under_root(base: Seq<char>, rest: Seq<char>)
    ensures
        push_components(base, rest) matches Some(p) ==> has_prefix(p, base),
    decreases rest.len(),
{
    match split_once(rest, '/') {
        Some((seg, tail)) => {
            crate::text::lemma_split_once_parts(rest, '/');
            match push_component(base, seg) {
                Some(b) => {
                    if seg.len() == 0 || seg == "."@ {
                        assert(b == base);
                    } else {
                        lemma_join_path_extends(base, seg);
                    }
                    requested_paths_stay_under_root(b, tail);
                    if b == base {
                        assert(base.take(base.len() as int) =~= base);
                    }
                    if let Some(p) = push_components(b, tail) {
                        lemma_prefix_trans(p, b, base);
                    }
                },
                None => {},
            }
        },
        None => {
            if let Some(p) = push_component(base, rest) {
                if !(rest.len() == 0 || rest == "."@) {
                    lemma_join_path_extends(base, rest);
                } else {
                    assert(base.take(base.len() as int) =~= base);
                }
            }
        },
    }
}

fn push_component_exec(base: Vec<char>, seg: &[char]) -> (r: Option<Vec<char>>)
    ensures
        match r {
            Some(v) => push_component(base@, seg@) == Some(v@),
            None => push_component(base@, seg@) is None,
        },
{
    proof {
        reveal_strlit(".");
    }
    if seg.len() == 0 || same(seg, chars_of(".").as_slice()) {
        Some(base)
    } else if seg[0] == '.' {
        None
    } else {
        Some(crate::text::join_path_chars(base.as_slice(), seg))
    }
}

/// The file a request for `resource` names under `root`: the resource
/// percent-decoded and its components pushed onto `root`; `None` when it
/// does not decode, or names `..` or a dot-file.
pub fn resolve_requested_path(root: &str, resource: &str) -> (r: Option<String>)
    ensures
        match percent_decode_spec(resource@) {
            None => r is None,
            Some(decoded) => match push_components(root@, decoded) {
                Some(p) => r matches Some(x) && x@ == p,
                None => r is None,
            },
        },
{
    let decoded = match percent_decode(resource) {
        Some(d) => d,
        None => {
            return None;
        },
    };
    let mut cur = chars_of(root);
    let mut rest = chars_of(decoded.as_str());
    loop
        invariant
            percent_decode_spec(resource@) == Some(decoded@),
            push_components(root@, decoded@) == push_components(cur@, rest@),
        decreases rest@.len(),
    {
        proof {
            crate::text::lemma_split_once_parts(rest@, '/');
        }
        match split_once_at(rest.as_slice(), '/') {
            Some((seg, tail)) => {
                match push_component_exec(cur, seg.as_slice()) {
                    Some(next) => {
                        cur = next;
                        rest = tail;
                    },
                    None => {
                        return None;
                    },
                }
            },
            None => {
                return match push_component_exec(cur, rest.as_slice()) {
                    Some(p) => Some(string_from(p.as_slice())),
                    None => None,
                };
            },
        }
    }
}

/// The largest request head read before the request is refused.
pub open spec fn max_head_bytes() -> int {
    32768
}

/// The value of a `Host` header line (name matched case-insensitively, both
/// parts trimmed).
pub open spec fn host_header(line: Seq<char>) -> Option<Seq<char>> {
    match split_once(line, ':') {
        Some((name, value)) => if ascii_lower(trim(name, CharClass::WhiteSpace)) == "host"@ {
            Some(trim(value, CharClass::WhiteSpace))
        } else {
            None
        },
        None => None,
    }
}

/// A request head as it is read: its text, its size in bytes, and the
/// first `Host` header seen.
pub struct HeadState {
    pub head: String,
    pub head_bytes: usize,
    pub host: Option<String>,
}

/// What reading one more line of the head leads to.
#[derive(Debug, Clone, Copy, PartialEq, Eq, Structural)]
pub enum HeadEvent {
    /// Read another line.
    More,
    /// The blank line ending the head was read.
    Complete,
    /// The head grew past its limit: the request is refused.
    TooLarge,
}

impl HeadState {
    /// Nothing read yet.
    pub fn new() -> (r: HeadState)
        ensures
            r.head@.len() == 0,
            r.head_bytes == 0,
            r.host is None,
    {
        HeadState { head: String::new(), head_bytes: 0, host: None }
    }

    /// Takes one more line of the head (with its line break): refused once
    /// the head passes its limit, complete at a blank line; the first `Host`
    /// header is kept.
    pub fn step(&mut self, line: &str) -> (r: HeadEvent)
        ensures
            final(self).head@ == old(self).head@ + line@,
            old(self).head_bytes + encode_utf8(line@).len() > max_head_bytes() ==> r
                == HeadEvent::TooLarge,
            old(self).head_bytes + encode_utf8(line@).len() <= max_head_bytes() ==> {
                &&& final(self).head_bytes == old(self).head_bytes + encode_utf8(line@).len()
                &&& (line@ == "\r\n"@ || line@ == "\n"@) ==> r == HeadEvent::Complete
                    && final(self).host == old(self).host
                &&& !(line@ == "\r\n"@ || line@ == "\n"@) ==> r == HeadEvent::More && (if old(
                    self,
                ).host is None && host_header(line@) is Some {
                    final(self).host matches Some(h) && h@ == host_header(line@)->Some_0
                } else {
                    final(self).host == old(self).host
                })
            },
    {
        let cs = chars_of(line);
        let mut h = chars_of(self.head.as_str());
        append(&mut h, cs.as_slice());
        self.head = string_from(h.as_slice());
        let n = line.as_bytes().len();
        let total = match self.head_bytes.checked_add(n) {
            Some(t) => t,
            None => {
                return HeadEvent::TooLarge;
            },
        };
        if total > 32768 {
            return HeadEvent::TooLarge;
        }
        self.head_bytes = total;
        if same(cs.as_slice(), chars_of("\r\n").as_slice()) || same(
            cs.as_slice(),
            chars_of("\n").as_slice(),
        ) {
            return HeadEvent::Complete;
        }
        if self.host.is_none() {
            match split_once_at(cs.as_slice(), ':') {
                Some((name, value)) => {
                    let nm = lowered(trimmed(name.as_slice(), &CharClass::WhiteSpace).as_slice());
                    if same(nm.as_slice(), chars_of("host").as_slice()) {
                        let v = trimmed(value.as_slice(), &CharClass::WhiteSpace);
                        self.host = Some(string_from(v.as_slice()));
                    }
                },
                None => {},
            }
        }
        HeadEvent::More
    }
}

/// The first line of `s`, as `str::lines` gives it.
pub open spec fn first_line_of(s: Seq<char>) -> Seq<char> {
    match split_once(s, '\n') {
        Some((l, _)) => if l.len() > 0 && l.last() == '\r' {
            l.drop_last()
        } else {
            l
        },
        None => s,
    }
}

/// The number of leading characters of `t` that are not white space.
pub open spec fn word_len(t: Seq<char>) -> nat
    decreases t.len(),
{
    if t.len() == 0 || is_white_space(t[0]) {
        0
    } else {
        1 + word_len(t.drop_first())
    }
}

/// The next white-space separated word of `s` and what follows it.
pub open spec fn next_word(s: Seq<char>) -> Option<(Seq<char>, Seq<char>)> {
    let t = trim_start(s, CharClass::WhiteSpace);
    if t.len() == 0 {
        None
    } else {
        Some((t.take(word_len(t) as int), t.skip(word_len(t) as int)))
    }
}

/// The method and target of a request line, when it has at least three
/// words.
pub open spec fn request_words(line: Seq<char>) -> Option<(Seq<char>, Seq<char>)> {
    match next_word(line) {
        Some((method, r1)) => match next_word(r1) {
            Some((target, r2)) => match next_word(r2) {
                Some(_) => Some((method, target)),
                None => None,
            },
            None => None,
        },
        None => None,
    }
}

/// Hosts a request may name: this server's loopback address or
/// `localhost`, with or without its port (case-insensitively).
pub open spec fn allowed_host(host: Seq<char>, port: u16) -> bool {
    let l = ascii_lower(host);
    ||| l == "127.0.0.1:"@ + decimal(port as nat)
    ||| l == "127.0.0.1"@
    ||| l == "localhost:"@ + decimal(port as nat)
    ||| l == "localhost"@
}

/// The path under `root` a resource names, if it may be served.
pub open spec fn requested_path(root: Seq<char>, resource: Seq<char>) -> Option<Seq<char>> {
    match percent_decode_spec(resource) {
        Some(decoded) => push_components(root, decoded),
        None => None,
    }
}

/// How a request is answered before the file system is consulted: at once,
/// with a plain-text status, or by looking up a path.
#[derive(Debug)]
pub enum Route {
    Plain { status: String, message: String, head_only: bool, extra_headers: String },
    Lookup { candidate: String, resource: String, head_only: bool },
}

/// The mathematical form of a [`Route`].
pub enum RouteView {
    Plain { status: Seq<char>, message: Seq<char>, head_only: bool, extra_headers: Seq<char> },
    Lookup { candidate: Seq<char>, resource: Seq<char>, head_only: bool },
}

impl View for Route {
    type V = RouteView;

    open spec fn view(&self) -> RouteView {
        match self {
            Route::Plain { status, message, head_only, extra_headers } => RouteView::Plain {
                status: status@,
                message: message@,
                head_only: *head_only,
                extra_headers: extra_headers@,
            },
            Route::Lookup { candidate, resource, head_only } => RouteView::Lookup {
                candidate: candidate@,
                resource: resource@,
                head_only: *head_only,
            },
        }
    }
}

pub open spec fn plain(status: Seq<char>, message: Seq<char>, head_only: bool) -> RouteView {
    RouteView::Plain { status, message, head_only, extra_headers: Seq::empty() }
}

/// How a complete request head is answered, given the port and token the
/// server runs with and the directory it serves: a malformed request line
/// or a missing `Host` is a 400, a foreign `Host` a 403 (against DNS
/// rebinding), another method than `GET` or `HEAD` a 405; a path without
/// the token is a 404, like a missing file; a path naming `..` or a
/// dot-file is a 400; the query string is ignored.
pub open spec fn route_spec(
    head: Seq<char>,
    host: Option<Seq<char>>,
    port: u16,
    token: Seq<char>,
    root: Seq<char>,
) -> RouteView {
    match request_words(first_line_of(head)) {
        None => plain("400 Bad Request"@, "malformed request line"@, false),
        Some((method, target)) => match host {
            None => plain("400 Bad Request"@, "missing Host header"@, false),
            Some(h) => if !allowed_host(h, port) {
                plain("403 Forbidden"@, "forbidden"@, false)
            } else if method != "GET"@ && method != "HEAD"@ {
                RouteView::Plain {
                    status: "405 Method Not Allowed"@,
                    message: "only GET and HEAD are supported"@,
                    head_only: false,
                    extra_headers: "Allow: GET, HEAD\r\n"@,
                }
            } else {
                let head_only = method == "HEAD"@;
                let raw = match split_once(target, '?') {
                    Some((p, _)) => p,
                    None => target,
                };
                match strip_prefix(raw, "/"@) {
                    None => plain("404 Not Found"@, "not found"@, head_only),
                    Some(first) => {
                        let (tok, res) = match split_once(first, '/') {
                            Some((a, b)) => (a, "/"@ + b),
                            None => (first, "/"@),
                        };
                        if tok != token {
                            plain("404 Not Found"@, "not found"@, head_only)
                        } else {
                            match requested_path(root, res) {
                                None => plain("400 Bad Request"@, "invalid request path"@, head_only),
                                Some(c) => RouteView::Lookup { candidate: c, resource: res, head_only },
                            }
                        }
                    },
                }
            }
        },
    }
}

fn next_word_exec(s: &[char]) -> (r: Option<(Vec<char>, Vec<char>)>)
    ensures
        match r {
            Some((w, rest)) => next_word(s@) == Some((w@, rest@)),
            None => next_word(s@) is None,
        },
{
    let t = trimmed_start(s, &CharClass::WhiteSpace);
    if t.len() == 0 {
        return None;
    }
    let n = t.len();
    let mut k: usize = 0;
    assert(t@.skip(0) =~= t@);
    while k < n && !white_space(t[k])
        invariant
            n == t@.len(),
            k <= n,
            word_len(t@) == k + word_len(t@.skip(k as int)),
        decreases n - k,
    {
        assert(t@.skip(k as int).drop_first() =~= t@.skip(k + 1));
        k = k + 1;
    }
    assert(word_len(t@.skip(k as int)) == 0);
    Some((crate::text::slice(t.as_slice(), 0, k), crate::text::slice(t.as_slice(), k, n)))
}

fn plain_route(status: &str, message: &str, head_only: bool) -> (r: Route)
    ensures
        r@ == plain(status@, message@, head_only),
{
    Route::Plain {
        status: status.to_owned(),
        message: message.to_owned(),
        head_only,
        extra_headers: String::new(),
    }
}

/// Decides how a complete request head is answered (see [`route_spec`]).
pub fn route_request(head: &HeadState, port: u16, token: &str, root: &str) -> (r: Route)
    ensures
        r@ == route_spec(head.head@, match head.host {
            Some(h) => Some(h@),
            None => None,
        }, port, token@, root@),
{
    proof {
        reveal_strlit("\r");
    }
    let hc = chars_of(head.head.as_str());
    let line = match split_once_at(hc.as_slice(), '\n') {
        Some((l, _)) => {
            let n = l.len();
            if n > 0 && l[n - 1] == '\r' {
                crate::text::slice(l.as_slice(), 0, n - 1)
            } else {
                l
            }
        },
        None => hc,
    };
    assert(line@ == first_line_of(head.head@)) by {
        if split_once(head.head@, '\n') is Some {
            let l = split_once(head.head@, '\n')->Some_0.0;
            if l.len() > 0 && l.last() == '\r' {
                assert(l.take(l.len() - 1) =~= l.drop_last());
            }
        }
    }
    let (method, target) = match next_word_exec(line.as_slice()) {
        Some((m, r1)) => match next_word_exec(r1.as_slice()) {
            Some((t, r2)) => match next_word_exec(r2.as_slice()) {
                Some(_) => (m, t),
                None => {
                    return plain_route("400 Bad Request", "malformed request line", false);
                },
            },
            None => {
                return plain_route("400 Bad Request", "malformed request line", false);
            },
        },
        None => {
            return plain_route("400 Bad Request", "malformed request line", false);
        },
    };
    let host = match &head.host {
        Some(h) => chars_of(h.as_str()),
        None => {
            return plain_route("400 Bad Request", "missing Host header", false);
        },
    };
    let l = lowered(host.as_slice());
    let port_digits = decimal_chars(port as usize);
    let mut a = chars_of("127.0.0.1:");
    append(&mut a, port_digits.as_slice());
    let mut b = chars_of("localhost:");
    append(&mut b, port_digits.as_slice());
    let allowed = same(l.as_slice(), a.as_slice()) || same(
        l.as_slice(),
        chars_of("127.0.0.1").as_slice(),
    ) || same(l.as_slice(), b.as_slice()) || same(l.as_slice(), chars_of("localhost").as_slice());
    if !allowed {
        return plain_route("403 Forbidden", "forbidden", false);
    }
    let is_get = same(method.as_slice(), chars_of("GET").as_slice());
    let is_head = same(method.as_slice(), chars_of("HEAD").as_slice());
    if !is_get && !is_head {
        return Route::Plain {
            status: "405 Method Not Allowed".to_owned(),
            message: "only GET and HEAD are supported".to_owned(),
            head_only: false,
            extra_headers: "Allow: GET, HEAD\r\n".to_owned(),
        };
    }
    let head_only = is_head;
    let raw = match split_once_at(target.as_slice(), '?') {
        Some((p, _)) => p,
        None => target,
    };
    let first = match stripped_prefix(raw.as_slice(), chars_of("/").as_slice()) {
        Some(f) => f,
        None => {
            return plain_route("404 Not Found", "not found", head_only);
        },
    };
    let (tok, res) = match split_once_at(first.as_slice(), '/') {
        Some((x, y)) => {
            let mut r = chars_of("/");
            append(&mut r, y.as_slice());
            (x, r)
        },
        None => (first, chars_of("/")),
    };
    let tok_s = string_from(tok.as_slice());
    if !token_eq(tok_s.as_str(), token) {
        return plain_route("404 Not Found", "not found", head_only);
    }
    let res_s = string_from(res.as_slice());
    match resolve_requested_path(root, res_s.as_str()) {
        None => plain_route("400 Bad Request", "invalid request path", head_only),
        Some(c) => Route::Lookup { candidate: c, resource: res_s, head_only },
    }
}

/// Whether the canonical path `p` lies within the canonical directory
/// `root` (component-wise, as `Path::starts_with` compares).
pub open spec fn within(p: Seq<char>, root: Seq<char>) -> bool {
    if root.len() > 0 && root.last() == '/' {
        has_prefix(p, root)
    } else {
        p == root || has_prefix(p, root + "/"@)
    }
}

/// The part of `p` below `root`.
pub open spec fn relative_to(p: Seq<char>, root: Seq<char>) -> Seq<char> {
    if p == root {
        Seq::empty()
    } else if root.len() > 0 && root.last() == '/' {
        p.skip(root.len() as int)
    } else {
        p.skip(root.len() as int + 1)
    }
}

/// Each non-empty component of `rel`, percent-encoded, after a `/`.
pub open spec fn encoded_components(rel: Seq<char>) -> Seq<char>
    decreases rel.len(),
{
    match split_once(rel, '/') {
        Some((seg, tail)) => {
            proof {
                crate::text::lemma_split_once_parts(rel, '/');
            }
            (if seg.len() == 0 {
                Seq::empty()
            } else {
                "/"@ + encoded_bytes(encode_utf8(seg))
            }) + encoded_components(tail)
        },
        None => if rel.len() == 0 {
            Seq::empty()
        } else {
            "/"@ + encoded_bytes(encode_utf8(rel))
        },
    }
}

/// What a looked-up path is.
#[derive(Debug, Clone, Copy, PartialEq, Eq, Structural)]
pub enum EntryKind {
    Dir,
    File,
    /// Anything else (a FIFO, a socket, a device): never served.
    Other,
}

/// How a looked-up request is answered.
#[derive(Debug)]
pub enum Resolution {
    NotFound,
    /// A directory named without its trailing `/`: sent to the canonical
    /// URL, rebuilt from the resolved path, never from the request.
    Redirect { location: String },
    /// A directory: its `index.html`, or else a listing.
    Directory { dir: String },
    File { path: String, content_type: &'static str },
}

fn encoded_components_exec(rel: &[char]) -> (r: Vec<char>)
    ensures
        r@ == encoded_components(rel@),
{
    let mut out: Vec<char> = Vec::new();
    let mut rest: Vec<char> = Vec::new();
    append(&mut rest, rel);
    loop
        invariant
            encoded_components(rel@) == out@ + encoded_components(rest@),
        decreases rest@.len(),
    {
        proof {
            crate::text::lemma_split_once_parts(rest@, '/');
        }
        match split_once_at(rest.as_slice(), '/') {
            Some((seg, tail)) => {
                let ghost ob = out@;
                if seg.len() > 0 {
                    append(&mut out, chars_of("/").as_slice());
                    let e = encode_path_segment(string_from(seg.as_slice()).as_str());
                    append(&mut out, chars_of(e.as_str()).as_slice());
                }
                assert(ob + encoded_components(rest@) == out@ + encoded_components(tail@));
                rest = tail;
            },
            None => {
                if rest.len() > 0 {
                    append(&mut out, chars_of("/").as_slice());
                    let e = encode_path_segment(string_from(rest.as_slice()).as_str());
                    append(&mut out, chars_of(e.as_str()).as_slice());
                }
                return out;
            },
        }
    }
}

fn within_exec(p: &[char], root: &[char]) -> (r: bool)
    ensures
        r == within(p@, root@),
{
    let n = root.len();
    if n > 0 && root[n - 1] == '/' {
        starts_with(p, root)
    } else {
        let mut pre: Vec<char> = Vec::new();
        append(&mut pre, root);
        append(&mut pre, chars_of("/").as_slice());
        same(p, root) || starts_with(p, pre.as_slice())
    }
}

/// The canonical `/`-ended URL of a directory inside the root: rebuilt from
/// the resolved directory's path below the root, never from the request, so
/// a redirect cannot be turned into one to another site.
pub fn redirect_location(root: &str, resolved_dir: &str, token: &str) -> (r: String)
    ensures
        within(resolved_dir@, root@) ==> r@ == "/"@ + token@ + encoded_components(
            relative_to(resolved_dir@, root@),
        ) + "/"@,
        !within(resolved_dir@, root@) ==> r@ == "/"@ + token@ + "/"@,
{
    let pc = chars_of(resolved_dir);
    let rc = chars_of(root);
    let n = rc.len();
    proof {
        reveal_strlit("/");
    }
    if !within_exec(pc.as_slice(), rc.as_slice()) {
        let mut loc = chars_of("/");
        append(&mut loc, chars_of(token).as_slice());
        append(&mut loc, chars_of("/").as_slice());
        return string_from(loc.as_slice());
    }
    let rel = if same(pc.as_slice(), rc.as_slice()) {
        Vec::new()
    } else if n > 0 && rc[n - 1] == '/' {
        crate::text::slice(pc.as_slice(), n, pc.len())
    } else {
        assert(has_prefix(pc@, rc@ + "/"@));
        assert((rc@ + "/"@).len() == n + 1);
        let m = pc.len();
        assert(n + 1 <= m);
        crate::text::slice(pc.as_slice(), n + 1, pc.len())
    };
    assert(rel@ == relative_to(pc@, rc@));
    let mut loc = chars_of("/");
    append(&mut loc, chars_of(token).as_slice());
    append(&mut loc, encoded_components_exec(rel.as_slice()).as_slice());
    append(&mut loc, chars_of("/").as_slice());
    string_from(loc.as_slice())
}

/// How a request is answered once its path is looked up: `resolved` is the
/// canonical path (`None` when it does not exist) and `kind` what it is. A
/// path outside the served directory (through a symlink) is not found.
pub fn route_resolved(
    root: &str,
    token: &str,
    resource: &str,
    resolved: Option<String>,
    kind: Option<EntryKind>,
) -> (r: Resolution)
    ensures
        match resolved {
            None => r is NotFound,
            Some(p) => if !within(p@, root@) {
                r is NotFound
            } else {
                match kind {
                    None => r is NotFound,
                    Some(EntryKind::Other) => r is NotFound,
                    Some(EntryKind::Dir) => if !has_suffix(resource@, "/"@) {
                        r matches Resolution::Redirect { location } && location@ == "/"@ + token@
                            + encoded_components(relative_to(p@, root@)) + "/"@
                    } else {
                        r matches Resolution::Directory { dir } && dir@ == p@
                    },
                    Some(EntryKind::File) => r matches Resolution::File { path, content_type }
                        && path@ == p@ && content_type@ == match extension_of(p@) {
                        Some(e) => content_type_of(ascii_lower(e)),
                        None => "application/octet-stream"@,
                    },
                }
            },
        },
{
    let p = match resolved {
        Some(p) => p,
        None => {
            return Resolution::NotFound;
        },
    };
    let pc = chars_of(p.as_str());
    let rc = chars_of(root);
    if !within_exec(pc.as_slice(), rc.as_slice()) {
        return Resolution::NotFound;
    }
    match kind {
        None => Resolution::NotFound,
        Some(EntryKind::Other) => Resolution::NotFound,
        Some(EntryKind::Dir) => {
            if !ends_with(chars_of(resource).as_slice(), chars_of("/").as_slice()) {
                Resolution::Redirect { location: redirect_location(root, p.as_str(), token) }
            } else {
                Resolution::Directory { dir: p }
            }
        },
        Some(EntryKind::File) => {
            let ct = content_type_for(p.as_str());
            Resolution::File { path: p, content_type: ct }
        },
    }
}

/// Whether a directory's `index.html` is served: its canonical path
/// (`None` when missing) must lie within the served directory and be a
/// file.
pub fn serves_index(root: &str, canonical_index: &Option<String>, is_file: bool) -> (r: bool)
    ensures
        r == (canonical_index matches Some(c) && within(c@, root@) && is_file),
{
    match canonical_index {
        Some(c) => is_file && within_exec(chars_of(c.as_str()).as_slice(), chars_of(root).as_slice()),
        None => false,
    }
}

/// One entry of a directory listing.
#[derive(Debug, Clone)]
pub struct ListingEntry {
    pub name: String,
    pub is_dir: bool,
}

impl Named for ListingEntry {
    open spec fn key(&self) -> Seq<char> {
        self.name@
    }

    fn key_chars(&self) -> (r: Vec<char>) {
        chars_of(self.name.as_str())
    }
}

/// The entries of `v` not named with a leading `.`, in order.
pub open spec fn visible_entries(v: Seq<ListingEntry>) -> Seq<ListingEntry>
    decreases v.len(),
{
    if v.len() == 0 {
        v
    } else {
        let rest = visible_entries(v.drop_last());
        if v.last().name@.len() > 0 && v.last().name@[0] == '.' {
            rest
        } else {
            rest.push(v.last())
        }
    }
}

/// The list items of a listing.
pub open spec fn listing_items(v: Seq<ListingEntry>) -> Seq<char>
    decreases v.len(),
{
    if v.len() == 0 {
        Seq::empty()
    } else {
        let e = v.last();
        let suffix = if e.is_dir {
            "/"@
        } else {
            Seq::empty()
        };
        listing_items(v.drop_last()) + "<li><a href=\""@ + encoded_bytes(encode_utf8(e.name@))
            + suffix + "\">"@ + html_escaped(e.name@) + suffix + "</a></li>"@
    }
}

/// The title of a listing: the decoded resource, or `/`.
pub open spec fn listing_title(resource: Seq<char>) -> Seq<char> {
    match percent_decode_spec(resource) {
        Some(t) => t,
        None => "/"@,
    }
}

/// The HTML index of a directory titled `title`, listing `v`.
pub open spec fn listing_page(title: Seq<char>, v: Seq<ListingEntry>) -> Seq<char> {
    "<!DOCTYPE html>\n<html><head><meta charset=\"utf-8\"><title>local-code artifacts — "@
        + html_escaped(title) + "</title></head><body><h1>local-code artifacts — "@
        + html_escaped(title) + "</h1><ul>"@ + listing_items(v) + "</ul></body></html>\n"@
}

fn listing_items_exec(v: &Vec<ListingEntry>) -> (r: Vec<char>)
    ensures
        r@ == listing_items(v@),
{
    let mut out: Vec<char> = Vec::new();
    let mut i: usize = 0;
    while i < v.len()
        invariant
            i <= v@.len(),
            out@ == listing_items(v@.take(i as int)),
        decreases v@.len() - i,
    {
        assert(v@.take(i + 1).drop_last() =~= v@.take(i as int));
        let e = &v[i];
        let suffix = if e.is_dir {
            chars_of("/")
        } else {
            Vec::new()
        };
        append(&mut out, chars_of("<li><a href=\"").as_slice());
        append(&mut out, chars_of(encode_path_segment(e.name.as_str()).as_str()).as_slice());
        append(&mut out, suffix.as_slice());
        append(&mut out, chars_of("\">").as_slice());
        append(&mut out, chars_of(html_escape(e.name.as_str()).as_str()).as_slice());
        append(&mut out, suffix.as_slice());
        append(&mut out, chars_of("</a></li>").as_slice());
        i = i + 1;
    }
    assert(v@.take(v@.len() as int) =~= v@);
    out
}

/// The HTML index of a directory without `index.html`: its entries except
/// dot-files, sorted by name, each linked; titled with the decoded
/// resource (`/` when it does not decode).
pub fn render_listing(entries: Vec<ListingEntry>, resource: &str) -> (r: String)
    ensures
        exists|v: Seq<ListingEntry>|
            #![trigger listing_page(listing_title(resource@), v)]
            sorted(keys_of(v)) && v.to_multiset() == visible_entries(entries@).to_multiset()
                && r@ == listing_page(listing_title(resource@), v),
{
    let mut visible: Vec<ListingEntry> = Vec::new();
    let mut rest = entries;
    let mut rev: Vec<ListingEntry> = Vec::new();
    let ghost orig = rest@;
    while rest.len() > 0
        invariant
            orig == rest@ + rev@.reverse(),
        decreases rest@.len(),
    {
        let ghost before = rest@;
        let ghost rb = rev@;
        let x = rest.pop().unwrap();
        assert(before == rest@.push(x));
        rev.push(x);
        assert(rev@.reverse() =~= seq![x] + rb.reverse());
        assert(rest@.push(x) + rb.reverse() =~= rest@ + (seq![x] + rb.reverse()));
    }
    assert(orig =~= rev@.reverse());
    let ghost n = rev@.len();
    while rev.len() > 0
        invariant
            n == orig.len(),
            rev@.len() <= n,
            forall|j: int| 0 <= j < rev@.len() ==> rev@[j] == orig[n - 1 - j],
            visible@ == visible_entries(orig.take(n - rev@.len())),
        decreases rev@.len(),
    {
        let ghost rb = rev@;
        let x = rev.pop().unwrap();
        let ghost done = n - rb.len();
        assert(x == orig[done]);
        assert(orig.take(done + 1).drop_last() =~= orig.take(done));
        let nm = chars_of(x.name.as_str());
        if !(nm.len() > 0 && nm[0] == '.') {
            visible.push(x);
        }
    }
    assert(orig.take(n as int) =~= orig);
    let ordered = sort_by_key(visible);
    let title = match percent_decode(resource) {
        Some(t) => t,
        None => "/".to_owned(),
    };
    let esc = html_escape(title.as_str());
    let mut html = chars_of(
        "<!DOCTYPE html>\n<html><head><meta charset=\"utf-8\"><title>local-code artifacts — ",
    );
    append(&mut html, chars_of(esc.as_str()).as_slice());
    append(&mut html, chars_of("</title></head><body><h1>local-code artifacts — ").as_slice());
    append(&mut html, chars_of(esc.as_str()).as_slice());
    append(&mut html, chars_of("</h1><ul>").as_slice());
    append(&mut html, listing_items_exec(&ordered).as_slice());
    append(&mut html, chars_of("</ul></body></html>\n").as_slice());
    let r = string_from(html.as_slice());
    assert(title@ == listing_title(resource@));
    assert(sorted(keys_of(ordered@)) && ordered@.to_multiset() == visible_entries(orig).to_multiset()
        && r@ == listing_page(listing_title(resource@), ordered@));
    r
}

/// The head of a response (`Cache-Control: no-store` always: an agent
/// iterating on a design must never be shown a stale copy).
pub open spec fn response_head_spec(
    status: Seq<char>,
    content_type: Seq<char>,
    len: nat,
    extra_headers: Seq<char>,
) -> Seq<char> {
    "HTTP/1.1 "@ + status + "\r\nContent-Type: "@ + content_type + "\r\nContent-Length: "@
        + decimal(len) + "\r\n"@ + extra_headers
        + "X-Content-Type-Options: nosniff\r\nCache-Control: no-store\r\nConnection: close\r\n\r\n"@
}

/// The head of a response with a body of `len` bytes.
pub fn response_head(status: &str, content_type: &str, len: usize, extra_headers: &str) -> (r:
    String)
    ensures
        r@ == response_head_spec(status@, content_type@, len as nat, extra_headers@),
{
    let mut m = chars_of("HTTP/1.1 ");
    append(&mut m, chars_of(status).as_slice());
    append(&mut m, chars_of("\r\nContent-Type: ").as_slice());
    append(&mut m, chars_of(content_type).as_slice());
    append(&mut m, chars_of("\r\nContent-Length: ").as_slice());
    append(&mut m, decimal_chars(len).as_slice());
    append(&mut m, chars_of("\r\n").as_slice());
    append(&mut m, chars_of(extra_headers).as_slice());
    append(
        &mut m,
        chars_of(
            "X-Content-Type-Options: nosniff\r\nCache-Control: no-store\r\nConnection: close\r\n\r\n",
        ).as_slice(),
    );
    string_from(m.as_slice())
}

/// The head of a redirect to `location`, with no body.
pub fn redirect_head(location: &str) -> (r: String)
    ensures
        r@ == "HTTP/1.1 301 Moved Permanently\r\nLocation: "@ + location@
            + "\r\nContent-Length: 0\r\nX-Content-Type-Options: nosniff\r\nCache-Control: no-store\r\nConnection: close\r\n\r\n"@,
{
    let mut m = chars_of("HTTP/1.1 301 Moved Permanently\r\nLocation: ");
    append(&mut m, chars_of(location).as_slice());
    append(
        &mut m,
        chars_of(
            "\r\nContent-Length: 0\r\nX-Content-Type-Options: nosniff\r\nCache-Control: no-store\r\nConnection: close\r\n\r\n",
        ).as_slice(),
    );
    string_from(m.as_slice())
}

/// The byte of the upper-case hexadecimal digit for `d < 16`.
spec fn hex_byte(d: u8) -> u8 {
    if d < 10 {
        (48 + d) as u8
    } else {
        (55 + d) as u8
    }
}

/// The bytes one byte is written as in a URL (`encoded_byte`, as bytes).
spec fn byte_tokens(b: u8) -> Seq<u8> {
    if crate::url::is_unreserved(b) {
        seq![b]
    } else {
        seq![37u8, hex_byte(b / 16), hex_byte(b % 16)]
    }
}

/// The bytes `bs` are written as in a URL, built from the front.
spec fn tokens(bs: Seq<u8>) -> Seq<u8>
    decreases bs.len(),
{
    if bs.len() == 0 {
        Seq::empty()
    } else {
        byte_tokens(bs[0]) + tokens(bs.drop_first())
    }
}

proof fn lemma_tokens_concat(a: Seq<u8>, b: Seq<u8>)
    ensures
        tokens(a + b) == tokens(a) + tokens(b),
    decreases a.len(),
{
    if a.len() == 0 {
        assert(a + b =~= b);
    } else {
        assert((a + b).drop_first() =~= a.drop_first() + b);
        lemma_tokens_concat(a.drop_first(), b);
        assert(tokens(a) + tokens(b) =~= byte_tokens(a[0]) + (tokens(a.drop_first()) + tokens(b)));
    }
}

proof fn lemma_encode_utf8_concat(a: Seq<char>, b: Seq<char>)
    ensures
        encode_utf8(a + b) == encode_utf8(a) + encode_utf8(b),
    decreases a.len(),
{
    if a.len() == 0 {
        assert(a + b =~= b);
    } else {
        assert((a + b).drop_first() =~= a.drop_first() + b);
        lemma_encode_utf8_concat(a.drop_first(), b);
        assert(encode_utf8(a) + encode_utf8(b) =~= encode_scalar(a[0] as u32) + (encode_utf8(
            a.drop_first(),
        ) + encode_utf8(b)));
    }
}

proof fn lemma_ascii_char(v: u8)
    requires
        v < 128,
    ensures
        encode_utf8(seq![v as char]) == seq![v],
{
    let c = v as char;
    let u = c as u32;
    assert(u == v as u32);
    assert((u & 0x7F) as u8 == v) by (bit_vector)
        requires
            u == v as u32,
            v < 128,
    ;
    assert(vstd::utf8::has_width_1_encoding(u));
    assert(encode_scalar(u) =~= seq![v]);
    assert(seq![c].drop_first() =~= Seq::<char>::empty());
    assert(encode_utf8(Seq::<char>::empty()) =~= Seq::<u8>::empty());
    assert(seq![c][0] == c);
    assert(encode_utf8(seq![c]) =~= encode_scalar(u) + encode_utf8(Seq::<char>::empty()));
}

proof fn lemma_byte_chars(b: u8)
    ensures
        encode_utf8(crate::url::encoded_byte(b)) == byte_tokens(b),
{
    if crate::url::is_unreserved(b) {
        lemma_ascii_char(b);
    } else {
        let h = hex_byte(b / 16);
        let l = hex_byte(b % 16);
        assert(crate::url::upper_hex(b / 16) == h as char);
        assert(crate::url::upper_hex(b % 16) == l as char);
        lemma_ascii_char(37u8);
        lemma_ascii_char(h);
        lemma_ascii_char(l);
        assert(seq!['%', h as char, l as char] =~= seq![37u8 as char] + seq![h as char] + seq![
            l as char,
        ]);
        lemma_encode_utf8_concat(seq![37u8 as char] + seq![h as char], seq![l as char]);
        lemma_encode_utf8_concat(seq![37u8 as char], seq![h as char]);
        assert(seq![37u8, h, l] =~= seq![37u8] + seq![h] + seq![l]);
    }
}

proof fn lemma_encoded_bytes_tokens(bs: Seq<u8>)
    ensures
        encode_utf8(encoded_bytes(bs)) == tokens(bs),
    decreases bs.len(),
{
    if bs.len() > 0 {
        let init = bs.drop_last();
        let last = bs.last();
        lemma_encoded_bytes_tokens(init);
        lemma_encode_utf8_concat(encoded_bytes(init), crate::url::encoded_byte(last));
        lemma_byte_chars(last);
        lemma_tokens_concat(init, seq![last]);
        assert(init + seq![last] =~= bs);
        assert(seq![last].drop_first() =~= Seq::<u8>::empty());
        assert(tokens(Seq::<u8>::empty()) =~= Seq::<u8>::empty());
        assert(seq![last][0] == last);
        assert(tokens(seq![last]) =~= byte_tokens(last) + tokens(Seq::<u8>::empty()));
    }
}

proof fn lemma_decoded_shift(x: Seq<u8>, i: int)
    requires
        0 <= i <= x.len(),
    ensures
        percent_decoded(x, i) == percent_decoded(x.skip(i), 0),
    decreases x.len() - i,
{
    let y = x.skip(i);
    if i < x.len() {
        if x[i] == 37 {
            if i + 3 <= x.len() {
                lemma_decoded_shift(x, i + 3);
                lemma_decoded_shift(y, 3);
                assert(y.skip(3) =~= x.skip(i + 3));
            }
        } else {
            lemma_decoded_shift(x, i + 1);
            lemma_decoded_shift(y, 1);
            assert(y.skip(1) =~= x.skip(i + 1));
        }
    }
}

proof fn lemma_hex_byte(d: u8)
    requires
        d < 16,
    ensures
        is_hex_byte(hex_byte(d)),
        hex_value(hex_byte(d)) == d,
{
}

proof fn lemma_decode_tokens(bs: Seq<u8>)
    ensures
        percent_decoded(tokens(bs), 0) == Some(bs),
    decreases bs.len(),
{
    if bs.len() == 0 {
        assert(tokens(bs).len() == 0);
    } else {
        let b = bs[0];
        let rest = bs.drop_first();
        let x = tokens(bs);
        lemma_decode_tokens(rest);
        if crate::url::is_unreserved(b) {
            assert(x[0] == b);
            lemma_decoded_shift(x, 1);
            assert(x.skip(1) =~= tokens(rest));
            assert(seq![b] + rest =~= bs);
        } else {
            lemma_hex_byte(b / 16);
            lemma_hex_byte(b % 16);
            assert(x[0] == 37 && x[1] == hex_byte(b / 16) && x[2] == hex_byte(b % 16));
            assert(percent_pair(x[1], x[2]) == Some(b));
            lemma_decoded_shift(x, 3);
            assert(x.skip(3) =~= tokens(rest));
            assert(seq![b] + rest =~= bs);
        }
    }
}

/// Decoding undoes encoding: a path segment written into a URL with
/// `encode_path_segment` decodes, with `percent_decode`, to the segment
/// itself.
pub proof fn percent_decode_undoes_encode(segment: Seq<char>)
    ensures
        percent_decode_spec(encoded_bytes(encode_utf8(segment))) == Some(segment),
{
    let bytes = encode_utf8(segment);
    lemma_encoded_bytes_tokens(bytes);
    lemma_decode_tokens(bytes);
    vstd::utf8::encode_utf8_valid_utf8(segment);
    vstd::utf8::encode_utf8_decode_utf8(segment);
}

} // verus!
