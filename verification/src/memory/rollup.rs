//! Ageing the daily files: those of the last seven days make up the recent
//! window, older ones are appended to the archive and deleted.
use vstd::prelude::*;

use crate::text::{
    append, chars_of, has_prefix, has_suffix, string_from, strings_view, strip_prefix,
    strip_suffix, stripped_prefix, stripped_suffix,
};

verus! {

broadcast use vstd::seq_lib::group_to_multiset_ensures;

/// An ISO `YYYY-MM-DD` date as the `chrono` crate reads it: its day number
/// (days from the start of the common era, so ordered as the dates are) and
/// its canonical rendering.
pub uninterp spec fn iso_date(s: Seq<char>) -> Option<(i32, Seq<char>)>;

/// Parses `s` with `chrono::NaiveDate::parse_from_str(s, "%Y-%m-%d")`,
/// returning the day number (`num_days_from_ce`) and the date formatted
/// back with the same pattern. The contract claims only that the result is
/// a function of `s`, named `iso_date`.
#[verifier::external_body]
pub(crate) fn parse_iso_date(s: &str) -> (r: Option<(i32, String)>)
    ensures
        match r {
            Some((d, t)) => iso_date(s@) == Some((d, t@)),
            None => iso_date(s@) is None,
        },
{
    match chrono::NaiveDate::parse_from_str(s, "%Y-%m-%d") {
        Ok(d) => Some((chrono::Datelike::num_days_from_ce(&d), d.format("%Y-%m-%d").to_string())),
        Err(_) => None,
    }
}

/// The date part of a daily file's name (`today-<date>.md`).
pub open spec fn daily_date_text(name: Seq<char>) -> Option<Seq<char>> {
    match strip_prefix(name, "today-"@) {
        Some(rest) => strip_suffix(rest, ".md"@),
        None => None,
    }
}

/// The date of a daily file, by its name: its day number and canonical
/// text; `None` for a name that is not a daily file's.
pub fn daily_file_date(name: &str) -> (r: Option<(i32, String)>)
    ensures
        match daily_date_text(name@) {
            Some(t) => match iso_date(t) {
                Some((d, c)) => r matches Some((x, y)) && x == d && y@ == c,
                None => r is None,
            },
            None => r is None,
        },
{
    let cs = chars_of(name);
    let rest = match stripped_prefix(cs.as_slice(), chars_of("today-").as_slice()) {
        Some(r) => r,
        None => {
            return None;
        },
    };
    let t = match stripped_suffix(rest.as_slice(), chars_of(".md").as_slice()) {
        Some(t) => t,
        None => {
            return None;
        },
    };
    parse_iso_date(string_from(t.as_slice()).as_str())
}

/// A daily file as the rollup sees it.
#[derive(Debug)]
pub struct DailyFile {
    pub day: i32,
    /// The date as written in section headers.
    pub date_text: String,
    pub path: String,
    pub contents: String,
}

/// What the rollup writes: the text appended to the archive and the daily
/// files it came from (to be deleted), and the new recent window.
#[derive(Debug)]
pub struct RollupPlan {
    pub archive_text: String,
    pub archived_paths: Vec<String>,
    pub recent_text: String,
}

/// The days of a list of daily files.
pub open spec fn days_of(v: Seq<DailyFile>) -> Seq<i32> {
    v.map_values(|f: DailyFile| f.day)
}

/// One dated section: a heading, the file's contents, a blank line.
pub open spec fn section(f: DailyFile) -> Seq<char> {
    "# "@ + f.date_text@ + "\n\n"@ + f.contents@ + "\n"@
}

/// The sections of the files whose day is in `[lo, hi]`, in order.
pub open spec fn sections_between(v: Seq<DailyFile>, lo: int, hi: int) -> Seq<char>
    decreases v.len(),
{
    if v.len() == 0 {
        Seq::empty()
    } else {
        let rest = sections_between(v.drop_last(), lo, hi);
        if lo <= v.last().day <= hi {
            rest + section(v.last())
        } else {
            rest
        }
    }
}

/// The paths of the files whose day is before `cutoff`, in order.
pub open spec fn paths_before(v: Seq<DailyFile>, cutoff: int) -> Seq<Seq<char>>
    decreases v.len(),
{
    if v.len() == 0 {
        Seq::empty()
    } else {
        let rest = paths_before(v.drop_last(), cutoff);
        if v.last().day < cutoff {
            rest.push(v.last().path@)
        } else {
            rest
        }
    }
}

/// Sorted by day, earliest first.
pub open spec fn by_day(v: Seq<DailyFile>) -> bool {
    forall|i: int, j: int| 0 <= i < j < v.len() ==> v[i].day <= v[j].day
}

fn sort_by_day(v: Vec<DailyFile>) -> (r: Vec<DailyFile>)
    ensures
        by_day(r@),
        r@.to_multiset() == v@.to_multiset(),
{
    let mut out: Vec<DailyFile> = Vec::new();
    let mut rest = v;
    let ghost all = rest@.to_multiset();
    while rest.len() > 0
        invariant
            by_day(out@),
            out@.to_multiset().add(rest@.to_multiset()) == all,
        decreases rest@.len(),
    {
        let ghost rb = rest@;
        let x = rest.pop().unwrap();
        assert(rb == rest@.push(x));
        let mut k: usize = out.len();
        while k > 0 && x.day < out[k - 1].day
            invariant
                k <= out@.len(),
                forall|j: int| k <= j < out@.len() ==> x.day < #[trigger] out@[j].day,
            decreases k,
        {
            k = k - 1;
        }
        let ghost oe = out@;
        out.insert(k, x);
        proof {
            assert forall|i: int, j: int| 0 <= i < j < out@.len() implies out@[i].day
                <= out@[j].day by {
                if i < k && j == k {
                    assert(oe[k - 1].day <= x.day);
                    assert(oe[i].day <= oe[k - 1].day);
                } else if i == k && j > k {
                    assert(out@[j] == oe[j - 1]);
                } else if i < k && j > k {
                    assert(out@[j] == oe[j - 1]);
                    assert(out@[i] == oe[i]);
                } else if i > k {
                    assert(out@[i] == oe[i - 1]);
                    assert(out@[j] == oe[j - 1]);
                } else {
                    assert(out@[i] == oe[i]);
                    assert(out@[j] == oe[j]);
                }
            }
            vstd::seq_lib::to_multiset_insert(oe, k as int, x);
            vstd::seq_lib::to_multiset_build(rest@, x);
        }
    }
    assert(rest@ =~= Seq::<DailyFile>::empty());
    out
}

/// The rollup for `today` (a day number): the daily files sorted by date;
/// those older than the seven days up to today archived, those within them
/// making up the recent window; files dated after today are left alone.
pub fn plan_rollup(today: i32, dailies: Vec<DailyFile>) -> (r: RollupPlan)
    ensures
        exists|v: Seq<DailyFile>|
            #![trigger by_day(v)]
            by_day(v) && v.to_multiset() == dailies@.to_multiset() && r.archive_text@
                == sections_between(v, i32::MIN as int, today - 7) && strings_view(
                r.archived_paths@,
            ) == paths_before(v, today - 6) && r.recent_text@ == sections_between(
                v,
                today - 6,
                today as int,
            ),
{
    let ordered = sort_by_day(dailies);
    let cutoff: i64 = today as i64 - 6;
    let mut archive: Vec<char> = Vec::new();
    let mut recent: Vec<char> = Vec::new();
    let mut paths: Vec<String> = Vec::new();
    let mut i: usize = 0;
    while i < ordered.len()
        invariant
            i <= ordered@.len(),
            cutoff == today - 6,
            archive@ == sections_between(ordered@.take(i as int), i32::MIN as int, today - 7),
            recent@ == sections_between(ordered@.take(i as int), today - 6, today as int),
            strings_view(paths@) == paths_before(ordered@.take(i as int), today - 6),
        decreases ordered@.len() - i,
    {
        assert(ordered@.take(i + 1).drop_last() =~= ordered@.take(i as int));
        let f = &ordered[i];
        let mut sec = chars_of("# ");
        append(&mut sec, chars_of(f.date_text.as_str()).as_slice());
        append(&mut sec, chars_of("\n\n").as_slice());
        append(&mut sec, chars_of(f.contents.as_str()).as_slice());
        append(&mut sec, chars_of("\n").as_slice());
        assert(sec@ == section(*f));
        let d = f.day as i64;
        if d < cutoff {
            append(&mut archive, sec.as_slice());
            let ghost pb = strings_view(paths@);
            paths.push(f.path.clone());
            assert(strings_view(paths@) =~= pb.push(f.path@));
        } else if d <= today as i64 {
            append(&mut recent, sec.as_slice());
        }
        i = i + 1;
    }
    assert(ordered@.take(ordered@.len() as int) =~= ordered@);
    RollupPlan {
        archive_text: string_from(archive.as_slice()),
        archived_paths: paths,
        recent_text: string_from(recent.as_slice()),
    }
}

/// The daily files that a rollup with cutoff `cutoff` leaves in place:
/// those of `cutoff` or later, in order.
pub open spec fn kept_from(v: Seq<DailyFile>, cutoff: int) -> Seq<DailyFile>
    decreases v.len(),
{
    if v.len() == 0 {
        v
    } else if v.last().day >= cutoff {
        kept_from(v.drop_last(), cutoff).push(v.last())
    } else {
        kept_from(v.drop_last(), cutoff)
    }
}

/// No two daily files are of the same day.
pub open spec fn distinct_days(v: Seq<DailyFile>) -> bool {
    forall|i: int, j: int| 0 <= i < j < v.len() ==> v[i].day != v[j].day
}

proof fn lemma_kept_from(v: Seq<DailyFile>, cutoff: int)
    requires
        by_day(v),
    ensures
        by_day(kept_from(v, cutoff)),
        distinct_days(v) ==> distinct_days(kept_from(v, cutoff)),
        forall|x: DailyFile|
            #[trigger] kept_from(v, cutoff).contains(x) ==> x.day >= cutoff && v.contains(x),
    decreases v.len(),
{
    if v.len() > 0 {
        let r = v.drop_last();
        assert forall|i: int, j: int| 0 <= i < j < r.len() implies r[i].day <= r[j].day by {
            assert(r[i] == v[i] && r[j] == v[j]);
        }
        lemma_kept_from(r, cutoff);
        let k = kept_from(r, cutoff);
        assert forall|x: DailyFile| k.contains(x) implies x.day <= v.last().day && (distinct_days(v)
            ==> x.day != v.last().day) by {
            assert(r.contains(x));
            let i = choose|i: int| 0 <= i < r.len() && r[i] == x;
            assert(r[i] == v[i]);
            assert(v[i] == x);
        }
        if distinct_days(v) {
            assert forall|i: int, j: int| 0 <= i < j < r.len() implies r[i].day != r[j].day by {
                assert(r[i] == v[i] && r[j] == v[j]);
            }
        }
        if v.last().day >= cutoff {
            let kk = k.push(v.last());
            assert(kept_from(v, cutoff) == kk);
            assert forall|i: int, j: int| 0 <= i < j < kk.len() implies kk[i].day <= kk[j].day && (
            distinct_days(v) ==> kk[i].day != kk[j].day) by {
                if j == kk.len() - 1 {
                    assert(k.contains(kk[i]));
                } else {
                    assert(kk[i] == k[i] && kk[j] == k[j]);
                }
            }
            assert forall|x: DailyFile| kk.contains(x) implies x.day >= cutoff && v.contains(x) by {
                let i = choose|i: int| 0 <= i < kk.len() && kk[i] == x;
                if i < k.len() {
                    assert(kk[i] == k[i]);
                    assert(k.contains(x));
                    assert(r.contains(x));
                    let m = choose|m: int| 0 <= m < r.len() && r[m] == x;
                    assert(r[m] == v[m]);
                    assert(v[m] == x);
                } else {
                    assert(v[v.len() - 1] == x);
                }
            }
        } else {
            assert(kept_from(v, cutoff) == k);
            assert forall|x: DailyFile| k.contains(x) implies x.day >= cutoff && v.contains(x) by {
                assert(r.contains(x));
                let m = choose|m: int| 0 <= m < r.len() && r[m] == x;
                assert(r[m] == v[m]);
                assert(v[m] == x);
            }
        }
    }
}

proof fn lemma_nothing_before(w: Seq<DailyFile>, cutoff: int, lo: int)
    requires
        forall|i: int| 0 <= i < w.len() ==> #[trigger] w[i].day >= cutoff,
    ensures
        sections_between(w, lo, cutoff - 1) == Seq::<char>::empty(),
        paths_before(w, cutoff) == Seq::<Seq<char>>::empty(),
    decreases w.len(),
{
    if w.len() > 0 {
        let r = w.drop_last();
        assert forall|i: int| 0 <= i < r.len() implies #[trigger] r[i].day >= cutoff by {
            assert(r[i] == w[i]);
        }
        lemma_nothing_before(r, cutoff, lo);
        assert(w[w.len() - 1].day >= cutoff);
    }
}

proof fn lemma_sorted_days_unique(a: Seq<DailyFile>, b: Seq<DailyFile>)
    requires
        by_day(a),
        by_day(b),
        distinct_days(a),
        a.to_multiset() == b.to_multiset(),
    ensures
        a == b,
    decreases a.len(),
{
    if a.len() == 0 {
        assert(b.to_multiset().len() == 0);
        assert(b.len() == 0);
        assert(a =~= b);
    } else {
        let la = a.last();
        assert(a.contains(la));
        assert(a.to_multiset().count(la) > 0);
        assert(b.to_multiset().count(la) > 0);
        assert(b.contains(la));
        assert(b.len() > 0);
        let lb = b.last();
        assert(b.contains(lb));
        assert(b.to_multiset().count(lb) > 0);
        assert(a.to_multiset().count(lb) > 0);
        assert(a.contains(lb));
        let k = choose|k: int| 0 <= k < b.len() && b[k] == la;
        let j = choose|j: int| 0 <= j < a.len() && a[j] == lb;
        assert(la.day <= lb.day);
        assert(lb.day <= la.day);
        if j != a.len() - 1 {
            assert(a[j].day != a[a.len() - 1].day);
        }
        assert(la == lb);
        let ra = a.drop_last();
        let rb = b.drop_last();
        assert(a =~= ra.push(la));
        assert(b =~= rb.push(la));
        assert(ra.to_multiset() =~= rb.to_multiset()) by {
            assert(a.to_multiset() == ra.to_multiset().insert(la));
            assert(b.to_multiset() == rb.to_multiset().insert(la));
            assert forall|x: DailyFile| ra.to_multiset().count(x) == rb.to_multiset().count(x) by {
                assert(ra.to_multiset().insert(la).count(x) == rb.to_multiset().insert(la).count(x));
            }
        }
        assert forall|i: int, i2: int| 0 <= i < i2 < ra.len() implies ra[i].day <= ra[i2].day
            && ra[i].day != ra[i2].day by {
            assert(ra[i] == a[i] && ra[i2] == a[i2]);
        }
        assert forall|i: int, i2: int| 0 <= i < i2 < rb.len() implies rb[i].day <= rb[i2].day by {
            assert(rb[i] == b[i] && rb[i2] == b[i2]);
        }
        lemma_sorted_days_unique(ra, rb);
    }
}

proof fn lemma_window_kept(v: Seq<DailyFile>, cutoff: int, hi: int)
    ensures
        sections_between(kept_from(v, cutoff), cutoff, hi) == sections_between(v, cutoff, hi),
    decreases v.len(),
{
    if v.len() > 0 {
        lemma_window_kept(v.drop_last(), cutoff, hi);
        if v.last().day >= cutoff {
            let k = kept_from(v.drop_last(), cutoff);
            assert(k.push(v.last()).drop_last() =~= k);
        }
    }
}

/// Running the rollup a second time on the same day, over the daily files
/// the first run left (`w`: those not archived, ordered by day), archives
/// nothing, and, when no two daily files are of the same day, writes the
/// same recent window as the first run (`v`: the files the first run saw,
/// ordered by day).
pub proof fn second_rollup_changes_nothing(today: int, v: Seq<DailyFile>, w: Seq<DailyFile>)
    requires
        by_day(v),
        by_day(w),
        w.to_multiset() == kept_from(v, today - 6).to_multiset(),
    ensures
        sections_between(w, i32::MIN as int, today - 7) == Seq::<char>::empty(),
        paths_before(w, today - 6) == Seq::<Seq<char>>::empty(),
        distinct_days(v) ==> sections_between(w, today - 6, today) == sections_between(
            v,
            today - 6,
            today,
        ),
{
    let cutoff = today - 6;
    lemma_kept_from(v, cutoff);
    let k = kept_from(v, cutoff);
    assert forall|i: int| 0 <= i < w.len() implies #[trigger] w[i].day >= cutoff by {
        assert(w.contains(w[i]));
        assert(w.to_multiset().count(w[i]) > 0);
        assert(k.to_multiset().count(w[i]) > 0);
        assert(k.contains(w[i]));
        assert(kept_from(v, cutoff).contains(w[i]));
    }
    lemma_nothing_before(w, cutoff, i32::MIN as int);
    if distinct_days(v) {
        lemma_sorted_days_unique(k, w);
        lemma_window_kept(v, cutoff, today);
    }
}

} // verus!
