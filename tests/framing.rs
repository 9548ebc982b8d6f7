use fileio_mcp::framing::{classify_first_line, framing_after, parse_content_length_header, trim_crlf, FirstLine, Framing};

#[test]
fn test_parse_content_length_header() {
    assert_eq!(parse_content_length_header("Content-Length: 10\r\n"), Some(10));
    assert_eq!(parse_content_length_header("content-length: 0\n"), Some(0));
    assert_eq!(parse_content_length_header("Content-Length:   42"), Some(42));
    assert_eq!(parse_content_length_header("Content-Type: application/json"), None);
    assert_eq!(parse_content_length_header("nope"), None);
    // Test case-insensitive matching
    assert_eq!(parse_content_length_header("CONTENT-LENGTH: 100"), Some(100));
    assert_eq!(parse_content_length_header("Content-Length: 123\r\n"), Some(123));
}

#[test]
fn test_trim_crlf() {
    assert_eq!(trim_crlf("hello\r\n"), "hello");
    assert_eq!(trim_crlf("hello\n"), "hello");
    assert_eq!(trim_crlf("hello\r"), "hello");
    assert_eq!(trim_crlf("hello"), "hello");
    // trim_end_matches removes all trailing matches, so multiple \r\n become empty
    assert_eq!(trim_crlf("hello\r\n\r\n"), "hello");
}

#[test]
fn content_length_header_edge_cases() {
    assert_eq!(parse_content_length_header("  Content-Length : 7 \r\n"), Some(7));
    assert_eq!(parse_content_length_header("Content-Length: +5"), Some(5));
    assert_eq!(parse_content_length_header("Content-Length: -5"), None);
    assert_eq!(parse_content_length_header("Content-Length:"), None);
    assert_eq!(parse_content_length_header("Content-Length: 1 2"), None);
    assert_eq!(parse_content_length_header("Content-Length: 99999999999999999999999"), None);
    assert_eq!(parse_content_length_header("Content-Length: 4: 5"), None);
    assert_eq!(parse_content_length_header(""), None);
}

#[test]
fn trim_crlf_keeps_inner_breaks() {
    assert_eq!(trim_crlf("a\r\nb\n"), "a\r\nb");
    assert_eq!(trim_crlf("\r\n"), "");
    assert_eq!(trim_crlf("héllo\n"), "héllo");
}

#[test]
fn first_line_classification() {
    assert_eq!(classify_first_line(" \t\r\n"), FirstLine::Blank);
    assert_eq!(classify_first_line("Content-Length: 12\r\n"), FirstLine::Header(12));
    assert_eq!(classify_first_line("{\"jsonrpc\":\"2.0\"}\n"), FirstLine::Message);
    assert_eq!(framing_after(FirstLine::Blank), Framing::Auto);
    assert_eq!(framing_after(FirstLine::Header(3)), Framing::ContentLength);
    assert_eq!(framing_after(FirstLine::Message), Framing::Newline);
}
