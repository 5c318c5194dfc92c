use local_code::artifacts::server::{
    content_type_for, html_escape, percent_decode, redirect_head, render_listing,
    resolve_requested_path, response_head, route_request, route_resolved, serves_index,
    token_eq, EntryKind, HeadEvent, HeadState, ListingEntry, Resolution, Route,
};
use local_code::artifacts::tool::{served_listing, served_url};
use local_code::url::encode_path_segment;

fn head_of(lines: &[&str]) -> HeadState {
    let mut head = HeadState::new();
    for line in lines {
        head.step(line);
    }
    head
}

#[test]
fn content_type_for_maps_extensions_case_insensitively() {
    assert_eq!(content_type_for("a.HTML"), "text/html; charset=utf-8");
    assert_eq!(content_type_for("a.css"), "text/css; charset=utf-8");
    assert_eq!(content_type_for("a.PNG"), "image/png");
    assert_eq!(content_type_for("a.xyz"), "application/octet-stream");
    assert_eq!(content_type_for("noext"), "application/octet-stream");
    assert_eq!(content_type_for("a.tar.gz"), "application/octet-stream");
}

#[test]
fn percent_decode_rejects_invalid_sequences() {
    assert_eq!(percent_decode("/a%20b"), Some("/a b".to_string()));
    assert_eq!(percent_decode("/%zz"), None);
    assert_eq!(percent_decode("/%1"), None);
    assert_eq!(percent_decode("/%FF"), None);
    assert_eq!(percent_decode("/plain"), Some("/plain".to_string()));
}

#[test]
fn token_eq_compares_constant_time_style() {
    assert!(token_eq("abc", "abc"));
    assert!(!token_eq("abc", "abd"));
    assert!(!token_eq("abc", "abcd"));
    assert!(!token_eq("", "a"));
}

#[test]
fn encoding_keeps_unreserved_bytes_and_escapes_the_rest() {
    assert_eq!(encode_path_segment("a-b_c.d~e"), "a-b_c.d~e");
    assert_eq!(encode_path_segment("my file.html"), "my%20file.html");
    assert_eq!(encode_path_segment("é/?"), "%C3%A9%2F%3F");
}

#[test]
fn decoding_undoes_encoding() {
    for segment in ["plain", "my file (v2).html", "é/?#%", "", "日本語.txt"] {
        let encoded = encode_path_segment(segment);
        assert_eq!(percent_decode(&encoded), Some(segment.to_string()));
    }
}

#[test]
fn html_escape_covers_markup_characters() {
    assert_eq!(html_escape("<a href=\"x\">&</a>"), "&lt;a href=&quot;x&quot;&gt;&amp;&lt;/a&gt;");
}

#[test]
fn requested_paths_stay_under_the_root() {
    assert_eq!(resolve_requested_path("/srv", "/a/b.html"), Some("/srv/a/b.html".to_string()));
    assert_eq!(resolve_requested_path("/srv", "/a%20b/"), Some("/srv/a b".to_string()));
    assert_eq!(resolve_requested_path("/srv", "/../etc/passwd"), None);
    assert_eq!(resolve_requested_path("/srv", "/.hidden"), None);
    assert_eq!(resolve_requested_path("/srv", "/%zz"), None);
}

#[test]
fn head_state_collects_the_host_and_ends_at_a_blank_line() {
    let mut head = HeadState::new();
    assert_eq!(head.step("GET /tok/ HTTP/1.1\r\n"), HeadEvent::More);
    assert_eq!(head.step("Host: 127.0.0.1:8080\r\n"), HeadEvent::More);
    assert_eq!(head.step("\r\n"), HeadEvent::Complete);
    assert_eq!(head.host.as_deref(), Some("127.0.0.1:8080"));
    let mut big = HeadState::new();
    assert_eq!(big.step(&"x".repeat(40_000)), HeadEvent::TooLarge);
}

#[test]
fn requests_with_the_token_are_looked_up() {
    let head = head_of(&["GET /tok/a/b.html?x=1 HTTP/1.1\r\n", "Host: localhost:8080\r\n", "\r\n"]);
    match route_request(&head, 8080, "tok", "/srv") {
        Route::Lookup { candidate, resource, head_only } => {
            assert_eq!(candidate, "/srv/a/b.html");
            assert_eq!(resource, "/a/b.html");
            assert!(!head_only);
        }
        other => panic!("unexpected route {other:?}"),
    }
}

#[test]
fn requests_are_refused_for_each_documented_reason() {
    let cases: Vec<(Vec<&str>, &str)> = vec![
        (vec!["GARBAGE\r\n", "\r\n"], "400 Bad Request"),
        (vec!["GET /tok/ HTTP/1.1\r\n", "\r\n"], "400 Bad Request"),
        (vec!["GET /tok/ HTTP/1.1\r\n", "Host: evil.example:8080\r\n", "\r\n"], "403 Forbidden"),
        (vec!["POST /tok/ HTTP/1.1\r\n", "Host: localhost:8080\r\n", "\r\n"], "405 Method Not Allowed"),
        (vec!["GET /wrong/ HTTP/1.1\r\n", "Host: localhost:8080\r\n", "\r\n"], "404 Not Found"),
        (vec!["GET /tok/../x HTTP/1.1\r\n", "Host: localhost:8080\r\n", "\r\n"], "400 Bad Request"),
    ];
    for (lines, expected) in cases {
        let head = head_of(&lines);
        match route_request(&head, 8080, "tok", "/srv") {
            Route::Plain { status, .. } => assert_eq!(status, expected, "for {lines:?}"),
            other => panic!("unexpected route {other:?} for {lines:?}"),
        }
    }
}

#[test]
fn head_requests_are_answered_without_a_body() {
    let head = head_of(&["HEAD /tok/x.txt HTTP/1.1\r\n", "Host: 127.0.0.1\r\n", "\r\n"]);
    assert!(matches!(route_request(&head, 9, "tok", "/srv"), Route::Lookup { head_only: true, .. }));
}

#[test]
fn resolved_entries_are_served_redirected_or_hidden() {
    assert!(matches!(
        route_resolved("/srv", "tok", "/docs", Some("/srv/docs".into()), Some(EntryKind::Dir)),
        Resolution::Redirect { location } if location == "/tok/docs/"
    ));
    assert!(matches!(
        route_resolved("/srv", "tok", "/docs/", Some("/srv/docs".into()), Some(EntryKind::Dir)),
        Resolution::Directory { dir } if dir == "/srv/docs"
    ));
    assert!(matches!(
        route_resolved("/srv", "tok", "/a.PNG", Some("/srv/a.PNG".into()), Some(EntryKind::File)),
        Resolution::File { path, content_type } if path == "/srv/a.PNG" && content_type == "image/png"
    ));
    assert!(matches!(
        route_resolved("/srv", "tok", "/link", Some("/etc/passwd".into()), Some(EntryKind::File)),
        Resolution::NotFound
    ));
    assert!(matches!(
        route_resolved("/srv", "tok", "/fifo", Some("/srv/fifo".into()), Some(EntryKind::Other)),
        Resolution::NotFound
    ));
    assert!(matches!(route_resolved("/srv", "tok", "/x", None, None), Resolution::NotFound));
    assert!(matches!(
        route_resolved("/srv", "tok", "/my dir", Some("/srv/my dir".into()), Some(EntryKind::Dir)),
        Resolution::Redirect { location } if location == "/tok/my%20dir/"
    ));
}

#[test]
fn an_index_is_served_only_from_inside_the_root() {
    assert!(serves_index("/srv", &Some("/srv/index.html".into()), true));
    assert!(!serves_index("/srv", &Some("/other/index.html".into()), true));
    assert!(!serves_index("/srv", &Some("/srv/index.html".into()), false));
    assert!(!serves_index("/srv", &None, true));
}

#[test]
fn listings_hide_dot_files_and_sort_by_name() {
    let page = render_listing(
        vec![
            ListingEntry { name: "b.txt".into(), is_dir: false },
            ListingEntry { name: ".secret".into(), is_dir: false },
            ListingEntry { name: "a dir".into(), is_dir: true },
        ],
        "/sub%20dir/",
    );
    assert!(page.contains("<title>local-code artifacts — /sub dir/</title>"));
    assert!(page.contains("<ul><li><a href=\"a%20dir/\">a dir/</a></li><li><a href=\"b.txt\">b.txt</a></li></ul>"));
    assert!(!page.contains("secret"));
}

#[test]
fn response_heads_carry_the_fixed_headers() {
    assert_eq!(
        response_head("200 OK", "text/plain; charset=utf-8", 5, ""),
        "HTTP/1.1 200 OK\r\nContent-Type: text/plain; charset=utf-8\r\nContent-Length: 5\r\nX-Content-Type-Options: nosniff\r\nCache-Control: no-store\r\nConnection: close\r\n\r\n"
    );
    assert_eq!(
        redirect_head("/tok/docs/"),
        "HTTP/1.1 301 Moved Permanently\r\nLocation: /tok/docs/\r\nContent-Length: 0\r\nX-Content-Type-Options: nosniff\r\nCache-Control: no-store\r\nConnection: close\r\n\r\n"
    );
}

#[test]
fn served_urls_encode_segments_and_skip_dot_files() {
    assert_eq!(
        served_url(&vec!["my dir".to_string(), "a.html".to_string()]),
        Some("my%20dir/a.html".to_string())
    );
    assert_eq!(served_url(&vec![".git".to_string(), "config".to_string()]), None);
}

#[test]
fn served_listing_sorts_and_reports_empty_directories() {
    assert_eq!(
        served_listing(vec![], 0, "http://127.0.0.1:1/t"),
        "Nothing is served yet — the directory is empty."
    );
    let listing = served_listing(vec!["b.html".into(), "a.html".into()], 0, "http://127.0.0.1:1/t");
    let a = listing.find("a.html").unwrap();
    let b = listing.find("b.html").unwrap();
    assert!(a < b);
    assert!(listing.contains("  a.html -> http://127.0.0.1:1/t/a.html"));
}

#[test]
fn the_tool_result_names_the_url_and_the_directory() {
    let r = local_code::artifacts::tool::tool_result("http://127.0.0.1:4000/tok", "/p/.local-code/artifacts", "Nothing served yet.");
    assert!(r.starts_with("Artifact server running at http://127.0.0.1:4000/tok — files in /p/.local-code/artifacts are served there"));
    assert!(r.contains("give the user http://127.0.0.1:4000/tok/mockup.html."));
    assert!(r.ends_with("\n\nNothing served yet."));
}
