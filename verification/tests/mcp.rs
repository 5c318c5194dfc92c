use local_code::mcp::framing::{frame_header, header_step, HeaderLine};
use local_code::mcp::{namespaced_name, McpConnectFailure, CONNECT_TIMEOUT_SECONDS};
use local_code::permissions::types::{classify_tool, ToolKind};

#[test]
fn name_is_namespaced_by_server_name() {
    assert_eq!(namespaced_name("filesystem", "read_file"), "filesystem__read_file");
    assert_eq!(classify_tool(&namespaced_name("filesystem", "read_file")), ToolKind::Edit);
}

#[test]
fn connect_failures_name_the_server() {
    assert_eq!(
        McpConnectFailure::Connect { server: "broken".into(), reason: "no such file".into() }.message(),
        "mcp server 'broken' failed to connect: no such file"
    );
    assert_eq!(
        McpConnectFailure::Timeout { server: "slow".into(), seconds: CONNECT_TIMEOUT_SECONDS }.message(),
        "mcp server 'slow' did not finish connecting within 15s; skipping it"
    );
}

#[test]
fn frame_headers_announce_the_body_length() {
    assert_eq!(frame_header(42), "Content-Length: 42\r\n\r\n");
    assert_eq!(frame_header(0), "Content-Length: 0\r\n\r\n");
}

#[test]
fn header_lines_set_the_length_and_an_empty_line_ends_the_block() {
    assert_eq!(header_step(None, "Content-Length: 42\r\n"), HeaderLine::Header(Some(42)));
    assert_eq!(header_step(Some(7), "Content-Type: application/json\r\n"), HeaderLine::Header(Some(7)));
    assert_eq!(header_step(Some(7), "Content-Length: lots\r\n"), HeaderLine::Header(None));
    assert_eq!(header_step(Some(7), "Content-Length:+5\r\n"), HeaderLine::Header(Some(5)));
    assert_eq!(header_step(Some(42), "\r\n"), HeaderLine::End);
}

#[test]
fn a_framed_length_reads_back() {
    let header = frame_header(1234);
    let mut len = None;
    let mut ended = false;
    for line in header.split_inclusive("\r\n") {
        match header_step(len, line) {
            HeaderLine::End => {
                ended = true;
                break;
            }
            HeaderLine::Header(n) => len = n,
        }
    }
    assert!(ended);
    assert_eq!(len, Some(1234));
}
