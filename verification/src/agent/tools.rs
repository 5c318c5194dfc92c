//! What the built-in tools decide and report: the read size limit, the
//! unique find-and-replace of `edit_file`, the report of a shell command,
//! and `grep`'s matching lines. Reading, writing, running and walking the
//! file tree happen around these.
use vstd::prelude::*;

use crate::text::{
    append, chars_of, decimal, decimal_chars, decimal_u64_chars, join, join_chars, lines,
    lines_of, signed_decimal, signed_decimal_chars, string_from, strings_view, chars_views,
};

verus! {

/// `read_file` refuses files larger than this many bytes (2 MiB): every
/// read stays in the transcript, and an unbounded one risks running out of
/// memory. `grep` skips such files for the same reason.
pub const MAX_READ_FILE_BYTES: u64 = 2097152;

/// What a tool hands back to the model: its text, and whether it reports a
/// failure.
#[derive(Debug, Clone, PartialEq, Eq)]
pub struct ToolReply {
    pub content: String,
    pub is_error: bool,
}

/// Why `read_file` refuses a file of `size` bytes, if it does.
pub fn read_refusal(path: &str, size: u64) -> (r: Option<String>)
    ensures
        size <= MAX_READ_FILE_BYTES ==> r is None,
        size > MAX_READ_FILE_BYTES ==> (r matches Some(m) && m@ == path@ + " is "@ + decimal(
            size as nat,
        ) + " bytes, which exceeds the "@ + decimal(MAX_READ_FILE_BYTES as nat)
            + "-byte read_file limit; use grep to search it or bash (e.g. head/tail) to inspect it in parts instead"@),
{
    if size <= MAX_READ_FILE_BYTES {
        return None;
    }
    let mut m = chars_of(path);
    append(&mut m, chars_of(" is ").as_slice());
    append(&mut m, decimal_u64_chars(size).as_slice());
    append(&mut m, chars_of(" bytes, which exceeds the ").as_slice());
    append(&mut m, decimal_u64_chars(MAX_READ_FILE_BYTES).as_slice());
    append(
        &mut m,
        chars_of(
            "-byte read_file limit; use grep to search it or bash (e.g. head/tail) to inspect it in parts instead",
        ).as_slice(),
    );
    Some(string_from(m.as_slice()))
}

/// `p` occurs in `s` at position `i`.
pub open spec fn occurs_at(s: Seq<char>, p: Seq<char>, i: int) -> bool {
    0 <= i && i + p.len() <= s.len() && s.subrange(i, i + p.len()) == p
}

/// The non-overlapping occurrences of a non-empty `p` in `s` from `i` on,
/// found left to right (`str::matches`).
pub open spec fn occurrences_from(s: Seq<char>, p: Seq<char>, i: int) -> nat
    decreases s.len() - i,
{
    if p.len() == 0 || i < 0 || i + p.len() > s.len() {
        0
    } else if s.subrange(i, i + p.len()) == p {
        1 + occurrences_from(s, p, i + p.len())
    } else {
        occurrences_from(s, p, i + 1)
    }
}

/// How many times `p` occurs in `s` (`s.matches(p).count()`): an empty `p`
/// matches at every character boundary.
pub open spec fn occurrences(s: Seq<char>, p: Seq<char>) -> nat {
    if p.len() == 0 {
        s.len() + 1
    } else {
        occurrences_from(s, p, 0)
    }
}

/// The first position from `i` on where a non-empty `p` occurs.
pub open spec fn first_from(s: Seq<char>, p: Seq<char>, i: int) -> Option<int>
    decreases s.len() - i,
{
    if p.len() == 0 || i < 0 || i + p.len() > s.len() {
        None
    } else if s.subrange(i, i + p.len()) == p {
        Some(i)
    } else {
        first_from(s, p, i + 1)
    }
}

/// The first position where `p` occurs (0 for an empty `p`).
pub open spec fn first_occurrence(s: Seq<char>, p: Seq<char>) -> int {
    if p.len() == 0 {
        0
    } else {
        match first_from(s, p, 0) {
            Some(i) => i,
            None => 0,
        }
    }
}

/// `s` with the first occurrence of `p` replaced by `q` (`replacen(p, q, 1)`
/// where `p` occurs).
pub open spec fn replaced_once(s: Seq<char>, p: Seq<char>, q: Seq<char>) -> Seq<char> {
    let i = first_occurrence(s, p);
    s.take(i) + q + s.skip(i + p.len())
}

fn occurs_at_exec(s: &[char], p: &[char], i: usize) -> (r: bool)
    requires
        i + p@.len() <= s@.len(),
    ensures
        r == (s@.subrange(i as int, i + p@.len()) == p@),
{
    let n = s.len();
    let mut k: usize = 0;
    while k < p.len()
        invariant
            k <= p@.len(),
            n == s@.len(),
            i + p@.len() <= s@.len(),
            forall|j: int| 0 <= j < k ==> s@[i + j] == p@[j],
        decreases p@.len() - k,
    {
        if s[i + k] != p[k] {
            assert(s@.subrange(i as int, i + p@.len())[k as int] != p@[k as int]);
            return false;
        }
        k = k + 1;
    }
    assert(s@.subrange(i as int, i + p@.len()) =~= p@);
    true
}

/// Counts the occurrences of a non-empty `p`, and finds the first.
fn count_occurrences(s: &[char], p: &[char]) -> (r: (usize, usize))
    requires
        p@.len() > 0,
    ensures
        r.0 == occurrences_from(s@, p@, 0),
        r.0 > 0 ==> first_from(s@, p@, 0) == Some(r.1 as int),
{
    let mut count: usize = 0;
    let mut first: usize = 0;
    let mut i: usize = 0;
    while p.len() <= s.len() - i
        invariant
            p@.len() > 0,
            i <= s@.len(),
            count <= i,
            count + occurrences_from(s@, p@, i as int) == occurrences_from(s@, p@, 0),
            count == 0 ==> first_from(s@, p@, i as int) == first_from(s@, p@, 0),
            count > 0 ==> first_from(s@, p@, 0) == Some(first as int),
        decreases s@.len() - i,
    {
        if occurs_at_exec(s, p, i) {
            if count == 0 {
                first = i;
            }
            count = count + 1;
            i = i + p.len();
        } else {
            i = i + 1;
        }
    }
    (count, first)
}

/// Why `edit_file` leaves a file as it is.
#[derive(Debug, Clone, Copy, PartialEq, Eq, Structural)]
pub enum EditRefusal {
    /// The text to find does not occur.
    NotFound,
    /// It occurs this many times, more than once.
    Ambiguous(usize),
}

impl EditRefusal {
    /// The message `edit_file` reports for the file at `path`.
    pub fn message(&self, path: &str) -> (r: String)
        ensures
            *self == EditRefusal::NotFound ==> r@ == "find text not found in "@ + path@,
            self matches EditRefusal::Ambiguous(n) ==> r@ == "find text is ambiguous in "@ + path@
                + ": occurs "@ + decimal(n as nat) + " times, expected exactly 1"@,
    {
        match self {
            EditRefusal::NotFound => {
                let mut m = chars_of("find text not found in ");
                append(&mut m, chars_of(path).as_slice());
                string_from(m.as_slice())
            },
            EditRefusal::Ambiguous(n) => {
                let mut m = chars_of("find text is ambiguous in ");
                append(&mut m, chars_of(path).as_slice());
                append(&mut m, chars_of(": occurs ").as_slice());
                append(&mut m, decimal_chars(*n).as_slice());
                append(&mut m, chars_of(" times, expected exactly 1").as_slice());
                string_from(m.as_slice())
            },
        }
    }
}

/// The new content of a file under `edit_file`: `find` replaced by
/// `replace` where it occurs exactly once; refused where it occurs not at
/// all or more than once.
pub fn replace_unique(content: &str, find: &str, replace: &str) -> (r: Result<String, EditRefusal>)
    requires
        content@.len() < usize::MAX,
    ensures
        occurrences(content@, find@) == 0 ==> r == Err::<String, EditRefusal>(EditRefusal::NotFound),
        occurrences(content@, find@) == 1 ==> (r matches Ok(t) && t@ == replaced_once(
            content@,
            find@,
            replace@,
        )),
        occurrences(content@, find@) > 1 ==> r == Err::<String, EditRefusal>(
            EditRefusal::Ambiguous(occurrences(content@, find@) as usize),
        ),
{
    let s = chars_of(content);
    let p = chars_of(find);
    let (count, at) = if p.len() == 0 {
        (s.len() + 1, 0)
    } else {
        count_occurrences(s.as_slice(), p.as_slice())
    };
    if count == 0 {
        return Err(EditRefusal::NotFound);
    }
    if count > 1 {
        return Err(EditRefusal::Ambiguous(count));
    }
    proof {
        if p@.len() > 0 {
            lemma_first_in_range(s@, p@, 0);
        }
    }
    let mut out: Vec<char> = Vec::new();
    let mut i: usize = 0;
    while i < at
        invariant
            i <= at <= s@.len(),
            out@ == s@.take(i as int),
        decreases at - i,
    {
        out.push(s[i]);
        assert(s@.take(i + 1) =~= s@.take(i as int).push(s@[i as int]));
        i = i + 1;
    }
    append(&mut out, chars_of(replace).as_slice());
    let mut j: usize = at + p.len();
    let ghost mid = out@;
    while j < s.len()
        invariant
            at + p@.len() <= j <= s@.len(),
            out@ == mid + s@.subrange(at + p@.len(), j as int),
        decreases s@.len() - j,
    {
        out.push(s[j]);
        assert(s@.subrange(at + p@.len(), j + 1) =~= s@.subrange(at + p@.len(), j as int).push(
            s@[j as int],
        ));
        j = j + 1;
    }
    assert(s@.subrange(at + p@.len(), s@.len() as int) =~= s@.skip(at + p@.len()));
    Ok(string_from(out.as_slice()))
}

proof fn lemma_first_in_range(s: Seq<char>, p: Seq<char>, i: int)
    requires
        p.len() > 0,
    ensures
        first_from(s, p, i) matches Some(k) ==> i <= k && k + p.len() <= s.len(),
    decreases s.len() - i,
{
    if !(i < 0 || i + p.len() > s.len()) && s.subrange(i, i + p.len()) != p {
        lemma_first_in_range(s, p, i + 1);
    }
}

/// What the shell tool reports of a finished command: `exit code: <code>`
/// (-1 when the command ended without one, by a signal) on a line of its
/// own, then its standard output and standard error; a failure unless the
/// command succeeded.
pub fn command_report(exit_code: Option<i32>, success: bool, stdout: &str, stderr: &str) -> (r:
    ToolReply)
    ensures
        r.content@ == "exit code: "@ + signed_decimal(
            match exit_code {
                Some(c) => c as int,
                None => -1,
            },
        ) + "\n"@ + stdout@ + stderr@,
        r.is_error == !success,
{
    let code: i32 = match exit_code {
        Some(c) => c,
        None => -1,
    };
    let mut m = chars_of("exit code: ");
    append(&mut m, signed_decimal_chars(code).as_slice());
    append(&mut m, chars_of("\n").as_slice());
    append(&mut m, chars_of(stdout).as_slice());
    append(&mut m, chars_of(stderr).as_slice());
    ToolReply { content: string_from(m.as_slice()), is_error: !success }
}

/// `grep` reports at most this many matching lines.
pub const MAX_GREP_MATCHES: usize = 200;

/// What `grep` prints of its matches: the first 200, one per line, or
/// `no matches found`.
pub open spec fn grep_text(matches: Seq<Seq<char>>) -> Seq<char> {
    if matches.len() == 0 {
        "no matches found"@
    } else if matches.len() <= MAX_GREP_MATCHES {
        join(matches, "\n"@)
    } else {
        join(matches.take(MAX_GREP_MATCHES as int), "\n"@)
    }
}

/// `grep_text` computed.
pub fn grep_report(matches: &Vec<String>) -> (r: String)
    ensures
        r@ == grep_text(strings_view(matches@)),
{
    if matches.len() == 0 {
        return "no matches found".to_owned();
    }
    let n = if matches.len() <= MAX_GREP_MATCHES {
        matches.len()
    } else {
        MAX_GREP_MATCHES
    };
    let mut kept: Vec<Vec<char>> = Vec::new();
    let mut i: usize = 0;
    while i < n
        invariant
            i <= n <= matches@.len(),
            kept@.len() == i,
            chars_views(kept@) =~= strings_view(matches@).take(i as int),
        decreases n - i,
    {
        let ghost before = kept@;
        let c = chars_of(matches[i].as_str());
        assert(c@ == strings_view(matches@)[i as int]);
        kept.push(c);
        assert forall|j: int| 0 <= j <= i implies #[trigger] chars_views(kept@)[j] == strings_view(
            matches@,
        ).take(i + 1)[j] by {
            assert(chars_views(kept@)[j] == kept@[j]@);
            assert(strings_view(matches@).take(i + 1)[j] == matches@[j]@);
            if j < i {
                assert(kept@[j] == before[j]);
                assert(chars_views(before)[j] == before[j]@);
                assert(chars_views(before)[j] == strings_view(matches@).take(i as int)[j]);
            }
        }
        assert(chars_views(kept@) =~= strings_view(matches@).take(i + 1));
        i = i + 1;
    }
    assert(n == matches@.len() ==> strings_view(matches@).take(n as int) =~= strings_view(
        matches@,
    ));
    let r = join_chars(&kept, chars_of("\n").as_slice());
    string_from(r.as_slice())
}

/// The pattern `glob` expands: the pattern under the root, the root's
/// trailing slashes dropped.
pub fn glob_pattern(root: &str, pattern: &str) -> (r: String)
    ensures
        r@ == crate::text::trim_end(root@, crate::text::CharClass::Exactly('/')) + "/"@ + pattern@,
{
    let mut m = crate::text::trimmed_end(
        chars_of(root).as_slice(),
        &crate::text::CharClass::Exactly('/'),
    );
    append(&mut m, chars_of("/").as_slice());
    append(&mut m, chars_of(pattern).as_slice());
    string_from(m.as_slice())
}

/// The line `grep` prints for a match: `<path>:<line number>: <line>`.
pub open spec fn match_line(path: Seq<char>, number: nat, line: Seq<char>) -> Seq<char> {
    path + ":"@ + decimal(number) + ": "@ + line
}

#[verifier::external_type_specification]
#[verifier::external_body]
pub struct ExRegex(regex::Regex);

/// The error `regex` reports for a pattern it cannot compile, rendered as
/// text; `None` for a pattern it compiles.
pub uninterp spec fn regex_compile_error(pattern: Seq<char>) -> Option<Seq<char>>;

/// Whether the regular expression `pattern`, compiled by `regex`, matches
/// somewhere in `line`.
pub uninterp spec fn regex_finds(pattern: Seq<char>, line: Seq<char>) -> bool;

/// A compiled `grep` pattern, with the text it was compiled from.
pub struct SearchPattern {
    pattern: String,
    re: regex::Regex,
}

/// Compiles `pattern` with `regex::Regex::new`. The contract claims that the
/// outcome is a function of the pattern alone, named
/// `regex_compile_error`, and that a compiled pattern keeps its text.
#[verifier::external_body]
fn compile_pattern(pattern: &str) -> (r: Result<SearchPattern, String>)
    ensures
        match regex_compile_error(pattern@) {
            None => r matches Ok(c) && c.pattern@ == pattern@,
            Some(m) => r matches Err(e) && e@ == m,
        },
{
    match regex::Regex::new(pattern) {
        Ok(re) => Ok(SearchPattern { pattern: pattern.to_owned(), re }),
        Err(e) => Err(e.to_string()),
    }
}

/// Tests `line` with `regex::Regex::is_match`. The contract claims only
/// that the answer is a function of the pattern's text and the line, named
/// `regex_finds`.
#[verifier::external_body]
fn pattern_finds(c: &SearchPattern, line: &str) -> (r: bool)
    ensures
        r == regex_finds(c.pattern@, line@),
{
    c.re.is_match(line)
}

/// A file `grep` found under its root: its size, and its text where it
/// could be read as UTF-8.
#[derive(Debug, Clone)]
pub struct GrepFile {
    pub path: String,
    pub size: u64,
    pub contents: Option<String>,
}

/// `grep` searches a file that is within the read limit and readable.
pub open spec fn searched(f: GrepFile) -> bool {
    f.size <= MAX_READ_FILE_BYTES && f.contents is Some
}

/// The match lines of one file's lines, in order.
pub open spec fn file_matches(pattern: Seq<char>, path: Seq<char>, ls: Seq<Seq<char>>) -> Seq<
    Seq<char>,
>
    decreases ls.len(),
{
    if ls.len() == 0 {
        Seq::empty()
    } else {
        let rest = file_matches(pattern, path, ls.drop_last());
        if regex_finds(pattern, ls.last()) {
            rest.push(match_line(path, ls.len(), ls.last()))
        } else {
            rest
        }
    }
}

/// The match lines of all searched files, in order.
pub open spec fn grep_matches(pattern: Seq<char>, files: Seq<GrepFile>) -> Seq<Seq<char>>
    decreases files.len(),
{
    if files.len() == 0 {
        Seq::empty()
    } else {
        grep_matches(pattern, files.drop_last()) + if searched(files.last()) {
            file_matches(pattern, files.last().path@, lines(files.last().contents->0@))
        } else {
            Seq::empty()
        }
    }
}

fn file_matches_exec(out: &mut Vec<String>, c: &SearchPattern, path: &str, contents: &str)
    ensures
        strings_view(final(out)@) == strings_view(old(out)@) + file_matches(
            c.pattern@,
            path@,
            lines(contents@),
        ),
{
    let ls = lines_of(chars_of(contents).as_slice());
    let ghost lv = chars_views(ls@);
    let ghost start = strings_view(out@);
    let mut i: usize = 0;
    while i < ls.len()
        invariant
            i <= ls@.len(),
            lv == chars_views(ls@),
            lv == lines(contents@),
            strings_view(out@) == start + file_matches(c.pattern@, path@, lv.take(i as int)),
        decreases ls@.len() - i,
    {
        assert(lv.take(i + 1).drop_last() =~= lv.take(i as int));
        let line = string_from(ls[i].as_slice());
        assert(line@ == lv[i as int]);
        if pattern_finds(c, line.as_str()) {
            let mut m = chars_of(path);
            append(&mut m, chars_of(":").as_slice());
            append(&mut m, decimal_chars(i + 1).as_slice());
            append(&mut m, chars_of(": ").as_slice());
            append(&mut m, ls[i].as_slice());
            let ghost before = out@;
            out.push(string_from(m.as_slice()));
            assert(strings_view(out@) =~= strings_view(before).push(m@));
        }
        i = i + 1;
    }
    assert(lv.take(ls@.len() as int) =~= lv);
}

/// The `grep` tool over the files found: the matching lines of the searched
/// files, as `grep_text` prints them, or the error of a pattern that does
/// not compile.
pub fn grep(pattern: &str, files: &[GrepFile]) -> (r: ToolReply)
    ensures
        match regex_compile_error(pattern@) {
            Some(m) => r.is_error && r.content@ == "invalid regex '"@ + pattern@ + "': "@ + m,
            None => !r.is_error && r.content@ == grep_text(grep_matches(pattern@, files@)),
        },
{
    let c = match compile_pattern(pattern) {
        Ok(c) => c,
        Err(e) => {
            let mut m = chars_of("invalid regex '");
            append(&mut m, chars_of(pattern).as_slice());
            append(&mut m, chars_of("': ").as_slice());
            append(&mut m, chars_of(e.as_str()).as_slice());
            return ToolReply { content: string_from(m.as_slice()), is_error: true };
        },
    };
    let mut out: Vec<String> = Vec::new();
    let mut i: usize = 0;
    while i < files.len()
        invariant
            i <= files@.len(),
            c.pattern@ == pattern@,
            strings_view(out@) == grep_matches(pattern@, files@.take(i as int)),
        decreases files@.len() - i,
    {
        assert(files@.take(i + 1).drop_last() =~= files@.take(i as int));
        let f = &files[i];
        if f.size <= MAX_READ_FILE_BYTES {
            match &f.contents {
                Some(t) => file_matches_exec(&mut out, &c, f.path.as_str(), t.as_str()),
                None => {},
            }
        }
        proof {
            if !searched(files@[i as int]) {
                assert(strings_view(out@) =~= strings_view(out@) + Seq::<Seq<char>>::empty());
            }
        }
        i = i + 1;
    }
    assert(files@.take(files@.len() as int) =~= files@);
    ToolReply { content: grep_report(&out), is_error: false }
}

} // verus!
