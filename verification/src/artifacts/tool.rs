//! The `serve_artifacts` tool: what it tells the model about the served
//! directory, and the links it lists.
use vstd::prelude::*;
use vstd::utf8::encode_utf8;

use crate::sorting::{sort_strings, sorted};
use crate::text::{
    append, chars_of, decimal, decimal_chars, join, join_strings, string_from, strings_view,
};
use crate::url::{encode_path_segment, encoded_bytes};

verus! {

/// The tool itself: stateless, as the server it starts is kept per
/// directory for the whole process.
pub struct ServeArtifacts;

/// The most files a tool result lists.
pub open spec fn max_listed_files() -> nat {
    50
}

/// The URL path of a served file from its path segments, each
/// percent-encoded; `None` for a file under a dot-named segment, which is
/// never served.
pub open spec fn served_url_spec(segments: Seq<Seq<char>>) -> Option<Seq<char>> {
    if exists|i: int|
        0 <= i < segments.len() && segments[i].len() > 0 && (#[trigger] segments[i])[0] == '.' {
        None
    } else {
        Some(join(segments.map_values(|s: Seq<char>| encoded_bytes(encode_utf8(s))), "/"@))
    }
}

/// The URL path a served file is linked with.
pub fn served_url(segments: &Vec<String>) -> (r: Option<String>)
    ensures
        match r {
            Some(u) => served_url_spec(strings_view(segments@)) == Some(u@),
            None => served_url_spec(strings_view(segments@)) is None,
        },
{
    let ghost sv = strings_view(segments@);
    let mut enc: Vec<String> = Vec::new();
    let mut i: usize = 0;
    while i < segments.len()
        invariant
            i <= segments@.len(),
            sv == strings_view(segments@),
            enc@.len() == i,
            forall|j: int| 0 <= j < i ==> !(sv[j].len() > 0 && (#[trigger] sv[j])[0] == '.'),
            forall|j: int|
                0 <= j < i ==> (#[trigger] enc@[j])@ == encoded_bytes(encode_utf8(sv[j])),
        decreases segments@.len() - i,
    {
        let seg = chars_of(segments[i].as_str());
        if seg.len() > 0 && seg[0] == '.' {
            assert(sv[i as int].len() > 0 && sv[i as int][0] == '.');
            return None;
        }
        enc.push(encode_path_segment(segments[i].as_str()));
        i = i + 1;
    }
    assert(strings_view(enc@) =~= sv.map_values(|s: Seq<char>| encoded_bytes(encode_utf8(s))));
    Some(join_strings(&enc, "/"))
}

/// The listing lines of the first `k` URLs.
pub open spec fn url_lines(urls: Seq<Seq<char>>, base: Seq<char>) -> Seq<Seq<char>> {
    urls.map_values(|u: Seq<char>| "  "@ + u + " -> "@ + base + "/"@ + u)
}

/// What the tool result says is served: nothing yet; or up to fifty links,
/// a count of those left out, and a count of entries that could not be
/// read.
pub open spec fn served_listing_spec(urls: Seq<Seq<char>>, unreadable: nat, base: Seq<char>) -> Seq<
    char,
> {
    if urls.len() == 0 && unreadable == 0 {
        "Nothing is served yet — the directory is empty."@
    } else {
        let shown = if urls.len() > max_listed_files() {
            urls.take(max_listed_files() as int)
        } else {
            urls
        };
        let more = if urls.len() > max_listed_files() {
            seq!["  ... ("@ + decimal((urls.len() - max_listed_files()) as nat) + " more not listed)"@]
        } else {
            Seq::empty()
        };
        let bad = if unreadable > 0 {
            seq!["  ... ("@ + decimal(unreadable) + " entries could not be read)"@]
        } else {
            Seq::empty()
        };
        "Currently served:\n"@ + join(url_lines(shown, base) + more + bad, "\n"@)
    }
}

/// The listing of what is served, from the URL paths of the served files
/// (sorted here) and the number of entries the walk could not read.
pub fn served_listing(urls: Vec<String>, unreadable: usize, base: &str) -> (r: String)
    ensures
        exists|v: Seq<Seq<char>>|
            #![trigger served_listing_spec(v, unreadable as nat, base@)]
            sorted(v) && v.to_multiset() == strings_view(urls@).to_multiset() && r@
                == served_listing_spec(v, unreadable as nat, base@),
{
    let ordered = sort_strings(urls);
    let ghost v = strings_view(ordered@);
    if ordered.len() == 0 && unreadable == 0 {
        let r = "Nothing is served yet — the directory is empty.".to_owned();
        assert(r@ == served_listing_spec(v, unreadable as nat, base@));
        return r;
    }
    let n = ordered.len();
    let shown: usize = if n > 50 {
        50
    } else {
        n
    };
    let mut lines: Vec<String> = Vec::new();
    let mut i: usize = 0;
    while i < shown
        invariant
            shown <= n,
            n == ordered@.len(),
            v == strings_view(ordered@),
            i <= shown,
            strings_view(lines@) == url_lines(v.take(i as int), base@),
        decreases shown - i,
    {
        let mut l = chars_of("  ");
        append(&mut l, chars_of(ordered[i].as_str()).as_slice());
        append(&mut l, chars_of(" -> ").as_slice());
        append(&mut l, chars_of(base).as_slice());
        append(&mut l, chars_of("/").as_slice());
        append(&mut l, chars_of(ordered[i].as_str()).as_slice());
        let ghost lb = strings_view(lines@);
        lines.push(string_from(l.as_slice()));
        assert(strings_view(lines@) =~= url_lines(v.take(i + 1), base@)) by {
            assert(url_lines(v.take(i + 1), base@) =~= lb.push(l@));
        }
        i = i + 1;
    }
    let ghost shown_lines = strings_view(lines@);
    if n > 50 {
        let mut l = chars_of("  ... (");
        append(&mut l, decimal_chars(n - 50).as_slice());
        append(&mut l, chars_of(" more not listed)").as_slice());
        lines.push(string_from(l.as_slice()));
    }
    let ghost with_more = strings_view(lines@);
    if unreadable > 0 {
        let mut l = chars_of("  ... (");
        append(&mut l, decimal_chars(unreadable).as_slice());
        append(&mut l, chars_of(" entries could not be read)").as_slice());
        lines.push(string_from(l.as_slice()));
    }
    let joined = join_strings(&lines, "\n");
    let mut m = chars_of("Currently served:\n");
    append(&mut m, chars_of(joined.as_str()).as_slice());
    let r = string_from(m.as_slice());
    proof {
        let shown_v = if v.len() > 50 {
            v.take(50)
        } else {
            v
        };
        assert(v.take(shown as int) =~= shown_v);
        let more = if v.len() > 50 {
            seq!["  ... ("@ + decimal((v.len() - 50) as nat) + " more not listed)"@]
        } else {
            Seq::<Seq<char>>::empty()
        };
        let bad = if unreadable > 0 {
            seq!["  ... ("@ + decimal(unreadable as nat) + " entries could not be read)"@]
        } else {
            Seq::<Seq<char>>::empty()
        };
        assert(with_more =~= shown_lines + more);
        assert(strings_view(lines@) =~= url_lines(shown_v, base@) + more + bad);
    }
    assert(r@ == served_listing_spec(v, unreadable as nat, base@));
    r
}

/// What the tool answers once the server runs at `base`, serving `dir`.
pub fn tool_result(base: &str, dir: &str, listing: &str) -> (r: String)
    ensures
        r@ == "Artifact server running at "@ + base@ + " — files in "@ + dir@
            + " are served there until local-code exits.\n\nTo share work: write_file a file under "@
            + dir@ + " (e.g. "@ + dir@ + "/mockup.html), then give the user "@ + base@
            + "/mockup.html. "@ + base@
            + "/ serves index.html if one exists, otherwise an index of everything served. Percent-encode each path segment in URLs you share (e.g. my%20design.html). Never write secrets, credentials, or content copied from outside the project there — everything in the directory is public to any process on this machine.\n\n"@
            + listing@,
{
    let mut m = chars_of("Artifact server running at ");
    append(&mut m, chars_of(base).as_slice());
    append(&mut m, chars_of(" — files in ").as_slice());
    append(&mut m, chars_of(dir).as_slice());
    append(
        &mut m,
        chars_of(
            " are served there until local-code exits.\n\nTo share work: write_file a file under ",
        ).as_slice(),
    );
    append(&mut m, chars_of(dir).as_slice());
    append(&mut m, chars_of(" (e.g. ").as_slice());
    append(&mut m, chars_of(dir).as_slice());
    append(&mut m, chars_of("/mockup.html), then give the user ").as_slice());
    append(&mut m, chars_of(base).as_slice());
    append(&mut m, chars_of("/mockup.html. ").as_slice());
    append(&mut m, chars_of(base).as_slice());
    append(
        &mut m,
        chars_of(
            "/ serves index.html if one exists, otherwise an index of everything served. Percent-encode each path segment in URLs you share (e.g. my%20design.html). Never write secrets, credentials, or content copied from outside the project there — everything in the directory is public to any process on this machine.\n\n",
        ).as_slice(),
    );
    append(&mut m, chars_of(listing).as_slice());
    string_from(m.as_slice())
}

} // verus!
