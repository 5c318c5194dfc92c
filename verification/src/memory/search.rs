//! Keyword search over the memory files: the buffer, the daily files in
//! date order, the recent window and the archive (never the core
//! memories, which are always loaded in full).
use vstd::prelude::*;

use crate::sorting::{sort_strings, sorted};
use crate::text::{
    chars_of, chars_views, ends_with, has_prefix, has_suffix, join_path, join_path_chars,
    lines, lines_of, starts_with, string_from, strings_view,
};

verus! {

/// Whether `line` contains `query`, ignoring case as a case-insensitive
/// regular expression of the escaped query does (Unicode simple case
/// folding).
pub uninterp spec fn matches_ignoring_case(query: Seq<char>, line: Seq<char>) -> bool;

/// Tests `line` with the `regex` crate: the query escaped to a literal and
/// compiled case-insensitive. The contract claims only that the answer is a
/// function of the query and the line, named `matches_ignoring_case`; a
/// query too large to compile matches nothing.
#[verifier::external_body]
fn line_matches(query: &str, line: &str) -> (r: bool)
    ensures
        r == matches_ignoring_case(query@, line@),
{
    match regex::RegexBuilder::new(&regex::escape(query)).case_insensitive(true).build() {
        Ok(m) => m.is_match(line),
        Err(_) => false,
    }
}

/// One matching line.
#[derive(Debug, Clone, PartialEq)]
pub struct MemoryHit {
    pub file: String,
    /// Counted from 1.
    pub line_number: usize,
    pub line: String,
}

/// The hits of one file: each matching line with its number.
pub open spec fn file_hits(file: Seq<char>, ls: Seq<Seq<char>>, query: Seq<char>) -> Seq<
    (Seq<char>, nat, Seq<char>),
>
    decreases ls.len(),
{
    if ls.len() == 0 {
        Seq::empty()
    } else {
        let rest = file_hits(file, ls.drop_last(), query);
        if matches_ignoring_case(query, ls.last()) {
            rest.push((file, ls.len(), ls.last()))
        } else {
            rest
        }
    }
}

/// The hits of every file, in order.
pub open spec fn all_hits(files: Seq<(String, String)>, query: Seq<char>) -> Seq<
    (Seq<char>, nat, Seq<char>),
>
    decreases files.len(),
{
    if files.len() == 0 {
        Seq::empty()
    } else {
        all_hits(files.drop_last(), query) + file_hits(
            files.last().0@,
            lines(files.last().1@),
            query,
        )
    }
}

pub open spec fn hits_view(h: Seq<MemoryHit>) -> Seq<(Seq<char>, nat, Seq<char>)> {
    h.map_values(|x: MemoryHit| (x.file@, x.line_number as nat, x.line@))
}

/// Searches the given files (path and contents, in search order) for
/// lines containing `query`, ignoring case; an empty query finds nothing.
pub fn search(files: &[(String, String)], query: &str) -> (r: Vec<MemoryHit>)
    ensures
        query@.len() == 0 ==> r@.len() == 0,
        query@.len() > 0 ==> hits_view(r@) == all_hits(files@, query@),
{
    let mut hits: Vec<MemoryHit> = Vec::new();
    if chars_of(query).len() == 0 {
        return hits;
    }
    let mut f: usize = 0;
    while f < files.len()
        invariant
            f <= files@.len(),
            hits_view(hits@) == all_hits(files@.take(f as int), query@),
        decreases files@.len() - f,
    {
        assert(files@.take(f + 1).drop_last() =~= files@.take(f as int));
        let (path, contents) = &files[f];
        let ls = lines_of(chars_of(contents.as_str()).as_slice());
        let ghost lv = chars_views(ls@);
        let ghost base = hits_view(hits@);
        let mut k: usize = 0;
        while k < ls.len()
            invariant
                k <= ls@.len(),
                lv == chars_views(ls@),
                hits_view(hits@) == base + file_hits(path@, lv.take(k as int), query@),
            decreases ls@.len() - k,
        {
            assert(lv.take(k + 1).drop_last() =~= lv.take(k as int));
            let line = string_from(ls[k].as_slice());
            if line_matches(query, line.as_str()) {
                let ghost hb = hits_view(hits@);
                assert(k < usize::MAX);
                hits.push(MemoryHit { file: path.clone(), line_number: k + 1, line });
                assert(hits_view(hits@) =~= hb.push((path@, (k + 1) as nat, lv[k as int])));
            }
            k = k + 1;
        }
        assert(lv.take(lv.len() as int) =~= lv);
        f = f + 1;
    }
    assert(files@.take(files@.len() as int) =~= files@);
    hits
}


/// Whether a file name is that of a daily file (`today-<date>.md`).
pub open spec fn is_daily_name(name: Seq<char>) -> bool {
    has_prefix(name, "today-"@) && has_suffix(name, ".md"@)
}

/// The daily file names of `names`, in order.
pub open spec fn daily_names(names: Seq<Seq<char>>) -> Seq<Seq<char>>
    decreases names.len(),
{
    if names.len() == 0 {
        Seq::empty()
    } else if is_daily_name(names.last()) {
        daily_names(names.drop_last()).push(names.last())
    } else {
        daily_names(names.drop_last())
    }
}

/// The files a search reads, in order: the buffer when it exists, the
/// daily files found among `entry_names` (sorted by name), then the recent
/// window and the archive when they exist.
pub fn files_to_search(
    memory_dir: &str,
    buffer_exists: bool,
    entry_names: &Vec<String>,
    recent_exists: bool,
    archive_exists: bool,
) -> (r: Vec<String>)
    ensures
        exists|d: Seq<Seq<char>>|
            #![trigger sorted(d)]
            sorted(d) && d.to_multiset() == daily_names(strings_view(entry_names@)).to_multiset()
                && strings_view(r@) == (if buffer_exists {
                seq![join_path(memory_dir@, "now.md"@)]
            } else {
                Seq::empty()
            }) + d.map_values(|n: Seq<char>| join_path(memory_dir@, n)) + (if recent_exists {
                seq![join_path(memory_dir@, "recent.md"@)]
            } else {
                Seq::empty()
            }) + (if archive_exists {
                seq![join_path(memory_dir@, "archive.md"@)]
            } else {
                Seq::empty()
            }),
{
    let dir = chars_of(memory_dir);
    let ghost ev = strings_view(entry_names@);
    let mut daily: Vec<String> = Vec::new();
    let mut i: usize = 0;
    while i < entry_names.len()
        invariant
            i <= entry_names@.len(),
            ev == strings_view(entry_names@),
            strings_view(daily@) == daily_names(ev.take(i as int)),
        decreases entry_names@.len() - i,
    {
        assert(ev.take(i + 1).drop_last() =~= ev.take(i as int));
        let n = chars_of(entry_names[i].as_str());
        let ghost db = strings_view(daily@);
        if starts_with(n.as_slice(), chars_of("today-").as_slice()) && ends_with(
            n.as_slice(),
            chars_of(".md").as_slice(),
        ) {
            daily.push(entry_names[i].clone());
            assert(strings_view(daily@) =~= db.push(ev[i as int]));
        }
        i = i + 1;
    }
    assert(ev.take(ev.len() as int) =~= ev);
    let ordered = sort_strings(daily);
    let ghost d = strings_view(ordered@);
    let mut out: Vec<String> = Vec::new();
    if buffer_exists {
        out.push(string_from(join_path_chars(dir.as_slice(), chars_of("now.md").as_slice()).as_slice()));
    }
    let ghost head = strings_view(out@);
    let mut j: usize = 0;
    while j < ordered.len()
        invariant
            j <= ordered@.len(),
            d == strings_view(ordered@),
            dir@ == memory_dir@,
            strings_view(out@) == head + d.take(j as int).map_values(
                |n: Seq<char>| join_path(memory_dir@, n),
            ),
        decreases ordered@.len() - j,
    {
        let ghost ob = strings_view(out@);
        let item = string_from(
            join_path_chars(dir.as_slice(), chars_of(ordered[j].as_str()).as_slice()).as_slice(),
        );
        assert(item@ == join_path(memory_dir@, d[j as int]));
        out.push(item);
        assert(strings_view(out@) =~= ob.push(item@));
        assert(strings_view(out@) =~= head + d.take(j + 1).map_values(
            |n: Seq<char>| join_path(memory_dir@, n),
        )) by {
            assert(d.take(j + 1).map_values(|n: Seq<char>| join_path(memory_dir@, n)) =~= d.take(
                j as int,
            ).map_values(|n: Seq<char>| join_path(memory_dir@, n)).push(
                join_path(memory_dir@, d[j as int]),
            ));
        }
        j = j + 1;
    }
    assert(d.take(d.len() as int) =~= d);
    let ghost mid = strings_view(out@);
    if recent_exists {
        out.push(
            string_from(join_path_chars(dir.as_slice(), chars_of("recent.md").as_slice()).as_slice()),
        );
    }
    let ghost mid2 = strings_view(out@);
    if archive_exists {
        out.push(
            string_from(join_path_chars(dir.as_slice(), chars_of("archive.md").as_slice()).as_slice()),
        );
    }
    proof {
        let rs = if recent_exists {
            seq![join_path(memory_dir@, "recent.md"@)]
        } else {
            Seq::<Seq<char>>::empty()
        };
        let ar = if archive_exists {
            seq![join_path(memory_dir@, "archive.md"@)]
        } else {
            Seq::<Seq<char>>::empty()
        };
        assert(mid2 =~= mid + rs);
        assert(strings_view(out@) =~= mid + rs + ar);
    }
    out
}

} // verus!
