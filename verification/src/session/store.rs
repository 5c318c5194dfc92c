//! Which saved sessions a listing shows, and in what order; the version a
//! session file must carry to be loaded.
use vstd::prelude::*;

use crate::config::layering::Named;
use crate::session::types::{SessionSummary, SessionSummaryView};
use crate::sorting::{keys_of, sort_by_key_desc, sorted_desc};
use crate::text::{after_last, chars_of, ends_with, has_suffix, rsplit_once_at, string_from};

verus! {

/// The session file format version this program reads and writes.
pub const SESSION_FILE_VERSION: u32 = 1;

/// Why a session file was refused.
#[derive(Debug, Clone, Copy, PartialEq, Eq, Structural)]
pub enum SessionLoadError {
    /// The file's format version is not the one this program knows.
    UnsupportedVersion { found: u32, expected: u32 },
}

/// A loaded session file is accepted only at the known format version.
pub fn check_version(found: u32) -> (r: Result<(), SessionLoadError>)
    ensures
        found == SESSION_FILE_VERSION ==> r is Ok,
        found != SESSION_FILE_VERSION ==> r == Err::<(), SessionLoadError>(
            SessionLoadError::UnsupportedVersion { found, expected: SESSION_FILE_VERSION },
        ),
{
    if found == SESSION_FILE_VERSION {
        Ok(())
    } else {
        Err(SessionLoadError::UnsupportedVersion { found, expected: SESSION_FILE_VERSION })
    }
}

/// What a listing needs of a session file that could be read and parsed.
#[derive(Debug, Clone)]
pub struct StoredSession {
    pub version: u32,
    pub connection_name: String,
    pub model_name: String,
    pub updated_at: String,
    /// How many transcript entries the session holds.
    pub entry_count: usize,
    /// The text of its first user turn, if it has one.
    pub first_user_turn: Option<String>,
}

/// A file of a project's session directory, with what reading it gave
/// (`None` when it could not be read or parsed).
#[derive(Debug, Clone)]
pub struct ListedFile {
    pub path: String,
    pub session: Option<StoredSession>,
}

/// The path's extension is `json` (`Path::extension`: after the file
/// name's last `.`, where something precedes that `.`).
pub open spec fn json_extension(path: Seq<char>) -> bool {
    let name = after_last(path, '/');
    has_suffix(name, ".json"@) && name.len() > 5
}

/// Whether a directory entry is a session file by its name.
pub fn is_session_file(path: &str) -> (r: bool)
    ensures
        r == json_extension(path@),
{
    let cs = chars_of(path);
    let name = match rsplit_once_at(cs.as_slice(), '/') {
        Some((_, last)) => last,
        None => cs,
    };
    ends_with(name.as_slice(), chars_of(".json").as_slice()) && name.len() > 5
}

/// The first sixty characters of a user turn: the label a listing shows.
pub open spec fn preview_of(text: Seq<char>) -> Seq<char> {
    if text.len() <= 60 {
        text
    } else {
        text.take(60)
    }
}

/// `preview_of` computed.
pub fn preview(text: &str) -> (r: String)
    ensures
        r@ == preview_of(text@),
{
    let cs = chars_of(text);
    if cs.len() <= 60 {
        return text.to_owned();
    }
    let mut out: Vec<char> = Vec::new();
    let mut i: usize = 0;
    while i < 60
        invariant
            i <= 60 < cs@.len(),
            out@ == cs@.take(i as int),
        decreases 60 - i,
    {
        out.push(cs[i]);
        assert(cs@.take(i + 1) =~= cs@.take(i as int).push(cs@[i as int]));
        i = i + 1;
    }
    string_from(out.as_slice())
}

/// A file is listed when it is a session file that was read, is at the
/// known version, and holds at least one transcript entry.
pub open spec fn listed(f: ListedFile) -> bool {
    &&& json_extension(f.path@)
    &&& f.session matches Some(s)
    &&& s.version == SESSION_FILE_VERSION
    &&& s.entry_count > 0
}

/// The row a listed file gets.
pub open spec fn row_of(f: ListedFile) -> SessionSummaryView {
    let s = f.session->0;
    SessionSummaryView {
        path: f.path@,
        connection_name: s.connection_name@,
        model_name: s.model_name@,
        updated_at: s.updated_at@,
        first_user_turn_preview: match s.first_user_turn {
            Some(t) => Some(preview_of(t@)),
            None => None,
        },
    }
}

/// The rows of the listed files, in the order given.
pub open spec fn rows(files: Seq<ListedFile>) -> Seq<SessionSummaryView>
    decreases files.len(),
{
    if files.len() == 0 {
        Seq::empty()
    } else {
        let rest = rows(files.drop_last());
        if listed(files.last()) {
            rest.push(row_of(files.last()))
        } else {
            rest
        }
    }
}

/// The views of some summaries.
pub open spec fn summary_views(v: Seq<SessionSummary>) -> Seq<SessionSummaryView> {
    v.map_values(|s: SessionSummary| s@)
}

impl Named for SessionSummary {
    open spec fn key(&self) -> Seq<char> {
        self.updated_at@
    }

    fn key_chars(&self) -> (r: Vec<char>) {
        chars_of(self.updated_at.as_str())
    }
}

fn row(f: &ListedFile) -> (r: SessionSummary)
    requires
        listed(*f),
    ensures
        r@ == row_of(*f),
{
    let s = f.session.as_ref().unwrap();
    SessionSummary {
        path: f.path.clone(),
        connection_name: s.connection_name.clone(),
        model_name: s.model_name.clone(),
        updated_at: s.updated_at.clone(),
        first_user_turn_preview: match &s.first_user_turn {
            Some(t) => Some(preview(t.as_str())),
            None => None,
        },
    }
}

/// The sessions a project's listing shows: the listed files' rows, the most
/// recently updated first (files updated at the same moment in no promised
/// order).
pub fn list_sessions(files: &[ListedFile]) -> (r: Vec<SessionSummary>)
    ensures
        sorted_desc(keys_of(r@)),
        exists|v: Seq<SessionSummary>|
            #![trigger summary_views(v)]
            summary_views(v) == rows(files@) && v.to_multiset() == r@.to_multiset(),
{
    let mut out: Vec<SessionSummary> = Vec::new();
    let mut i: usize = 0;
    while i < files.len()
        invariant
            i <= files@.len(),
            summary_views(out@) =~= rows(files@.take(i as int)),
        decreases files@.len() - i,
    {
        assert(files@.take(i + 1).drop_last() =~= files@.take(i as int));
        let f = &files[i];
        let keep = is_session_file(f.path.as_str()) && match &f.session {
            Some(s) => s.version == SESSION_FILE_VERSION && s.entry_count > 0,
            None => false,
        };
        if keep {
            let ghost before = out@;
            let x = row(f);
            out.push(x);
            assert forall|j: int| 0 <= j < out@.len() implies #[trigger] summary_views(out@)[j]
                == rows(files@.take(i + 1))[j] by {
                if j < before.len() {
                    assert(summary_views(before)[j] == rows(files@.take(i as int))[j]);
                }
            }
        }
        assert(summary_views(out@) =~= rows(files@.take(i + 1)));
        i = i + 1;
    }
    assert(files@.take(files@.len() as int) =~= files@);
    let ghost v = out@;
    let r = sort_by_key_desc(out);
    assert(summary_views(v) == rows(files@) && v.to_multiset() == r@.to_multiset());
    r
}

/// Whether `row` shows the session of `f`: its path, its connection and
/// model names and its update time, field for field.
pub open spec fn shows_file(row: SessionSummaryView, f: ListedFile) -> bool {
    &&& f.session is Some
    &&& row.path == f.path@
    &&& row.connection_name == f.session->0.connection_name@
    &&& row.model_name == f.session->0.model_name@
    &&& row.updated_at == f.session->0.updated_at@
}

/// Some listed file of `files` is the one `row` shows.
pub open spec fn shows_a_listed_file(row: SessionSummaryView, files: Seq<ListedFile>) -> bool {
    exists|j: int| 0 <= j < files.len() && listed(files[j]) && #[trigger] shows_file(row, files[j])
}

/// Some row of `rs` shows `f`.
pub open spec fn is_shown(rs: Seq<SessionSummaryView>, f: ListedFile) -> bool {
    exists|k: int| 0 <= k < rs.len() && #[trigger] shows_file(rs[k], f)
}

proof fn lemma_rows_show_files(files: Seq<ListedFile>)
    ensures
        forall|k: int|
            0 <= k < rows(files).len() ==> shows_a_listed_file(#[trigger] rows(files)[k], files),
        forall|j: int|
            0 <= j < files.len() && listed(#[trigger] files[j]) ==> is_shown(rows(files), files[j]),
    decreases files.len(),
{
    if files.len() > 0 {
        let init = files.drop_last();
        lemma_rows_show_files(init);
        let r0 = rows(init);
        let r = rows(files);
        let last = files.last();
        assert forall|k: int| 0 <= k < r.len() implies shows_a_listed_file(#[trigger] r[k], files) by {
            if k < r0.len() {
                assert(r[k] == r0[k]);
                assert(shows_a_listed_file(r0[k], init));
                let j = choose|j: int|
                    0 <= j < init.len() && listed(init[j]) && #[trigger] shows_file(r0[k], init[j]);
                assert(files[j] == init[j]);
                assert(shows_file(r[k], files[j]));
            } else {
                assert(listed(last));
                assert(r[k] == row_of(last));
                assert(files[files.len() - 1] == last);
                assert(shows_file(r[k], files[files.len() - 1]));
            }
        }
        assert forall|j: int| 0 <= j < files.len() && listed(#[trigger] files[j]) implies is_shown(
            r,
            files[j],
        ) by {
            if j < init.len() {
                assert(files[j] == init[j]);
                assert(listed(init[j]));
                assert(is_shown(r0, init[j]));
                let k = choose|k: int| 0 <= k < r0.len() && #[trigger] shows_file(r0[k], init[j]);
                assert(r[k] == r0[k]);
                assert(shows_file(r[k], files[j]));
            } else {
                assert(files[j] == last);
                assert(r[r0.len() as int] == row_of(last));
                assert(shows_file(r[r0.len() as int], files[j]));
            }
        }
    }
}

/// Every session the listing shows is that of a listed file, with that
/// file's path, connection name, model name and update time; and every
/// listed file is shown. `shown` is what [`list_sessions`] returns for
/// `files`, as its contract describes it.
pub proof fn listed_rows_show_their_sessions(files: Seq<ListedFile>, shown: Seq<SessionSummary>)
    requires
        exists|v: Seq<SessionSummary>|
            #![trigger summary_views(v)]
            summary_views(v) == rows(files) && v.to_multiset() == shown.to_multiset(),
    ensures
        forall|i: int| 0 <= i < shown.len() ==> shows_a_listed_file(#[trigger] shown[i]@, files),
        forall|j: int|
            0 <= j < files.len() && listed(#[trigger] files[j]) ==> is_shown(
                summary_views(shown),
                files[j],
            ),
{
    broadcast use vstd::seq_lib::group_to_multiset_ensures;

    let v = choose|v: Seq<SessionSummary>|
        #![trigger summary_views(v)]
        summary_views(v) == rows(files) && v.to_multiset() == shown.to_multiset();
    lemma_rows_show_files(files);
    assert(v.len() == rows(files).len());
    assert forall|i: int| 0 <= i < shown.len() implies shows_a_listed_file(
        #[trigger] shown[i]@,
        files,
    ) by {
        assert(shown.contains(shown[i]));
        assert(shown.to_multiset().count(shown[i]) > 0);
        assert(v.to_multiset().count(shown[i]) > 0);
        assert(v.contains(shown[i]));
        let k = choose|k: int| 0 <= k < v.len() && v[k] == shown[i];
        assert(summary_views(v)[k] == v[k]@);
        assert(rows(files)[k] == shown[i]@);
    }
    assert forall|j: int| 0 <= j < files.len() && listed(#[trigger] files[j]) implies is_shown(
        summary_views(shown),
        files[j],
    ) by {
        assert(is_shown(rows(files), files[j]));
        let k = choose|k: int| 0 <= k < rows(files).len() && #[trigger] shows_file(rows(files)[k], files[j]);
        assert(summary_views(v)[k] == v[k]@);
        assert(v.contains(v[k]));
        assert(v.to_multiset().count(v[k]) > 0);
        assert(shown.to_multiset().count(v[k]) > 0);
        assert(shown.contains(v[k]));
        let i = choose|i: int| 0 <= i < shown.len() && shown[i] == v[k];
        assert(summary_views(shown)[i] == shown[i]@);
        assert(shows_file(summary_views(shown)[i], files[j]));
    }
}

} // verus!
