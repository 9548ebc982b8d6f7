use fileio_mcp::find::{file_find, find_in_files, FoundEntry};
use fileio_mcp::patch::{check_patch, patch_file};
use fileio_mcp::session::{next_initialized, replies, route_message, supported_protocol, Route};
use fileio_mcp::error::{ErrorKind, FileIoError};

#[test]
fn test_apply_add_remove_lines() {
    let content = "line 1\nline 2\nline 3\n";
    let patch = r#"{
            "operations": [
                {"type": "add", "line": 2, "content": "line 1.5"},
                {"type": "remove", "line": 3}
            ]
        }"#;
    let out = patch_file(content, patch, Some("add_remove_lines")).unwrap();
    let lines: Vec<&str> = out.lines().collect();
    assert_eq!(lines.len(), 3);
    assert_eq!(lines[1], "line 1.5");
}

#[test]
fn add_remove_lines_applies_from_the_bottom() {
    let patch = r#"{"operations": [{"type": "remove", "line": 1}, {"type": "add", "line": 3, "content": "z"}]}"#;
    assert_eq!(patch_file("a\nb\n", patch, Some("add_remove_lines")).unwrap(), "b\nz");
}

#[test]
fn add_remove_lines_errors() {
    let bad_line = r#"{"operations": [{"type": "remove", "line": 5}]}"#;
    assert_eq!(patch_file("a\n", bad_line, Some("add_remove_lines")).unwrap_err().kind(), ErrorKind::PatchError);
    let no_ops = r#"{"ops": []}"#;
    assert_eq!(patch_file("a\n", no_ops, Some("add_remove_lines")).unwrap_err().kind(), ErrorKind::PatchError);
    assert_eq!(patch_file("a\n", "not json", Some("add_remove_lines")).unwrap_err().kind(), ErrorKind::PatchError);
    let unknown = r#"{"operations": [{"type": "move", "line": 1}]}"#;
    assert_eq!(patch_file("a\n", unknown, Some("add_remove_lines")).unwrap_err().kind(), ErrorKind::PatchError);
    let skipped = r#"{"operations": [{"line": 1}]}"#;
    assert_eq!(patch_file("a\nb\n", skipped, Some("add_remove_lines")).unwrap(), "a\nb");
}

#[test]
fn unified_diff_applies_hunks() {
    let diff = "--- a\n+++ b\n@@ -1,3 +1,3 @@\n a\n-b\n+B\n c\n";
    assert_eq!(patch_file("a\nb\nc\nd\n", diff, None).unwrap(), "a\nB\nc\nd");
    assert_eq!(patch_file("a\nb\n", "+top\n", Some("unified_diff")).unwrap(), "top\na\nb");
}

#[test]
fn unknown_patch_format() {
    let err = patch_file("a", "", Some("ed")).unwrap_err();
    assert_eq!(err, FileIoError::PatchError("Unknown patch format: ed".to_string()));
    assert_eq!(check_patch("", Some("ed")).unwrap_err(), FileIoError::PatchError("Unknown patch format: ed".to_string()));
    assert_eq!(check_patch("not json", Some("add_remove_lines")).unwrap_err().kind(), ErrorKind::PatchError);
    assert!(check_patch(r#"{"x": 1}"#, Some("add_remove_lines")).is_ok());
    assert!(check_patch("anything", None).is_ok());
}

#[test]
fn literal_search_escapes_metacharacters() {
    let fs = files(&[("f", "a+b (x) a+b")]);
    let m = find_in_files("a+b", true, false, None, false, false, &fs).unwrap();
    assert_eq!(m.len(), 2);
    assert_eq!((m[1].column_start, m[1].column_end), (8, 11));
    let m = find_in_files("(x)", true, false, None, false, false, &fs).unwrap();
    assert_eq!(m[0].matched_text, "(x)");
}

#[test]
fn routing_decisions() {
    assert_eq!(route_message(false, Some("1.0"), Some("initialize"), false), Route::BadVersion);
    assert_eq!(route_message(false, None, Some("initialize"), false), Route::Initialize);
    assert_eq!(route_message(false, Some("2.0"), Some("notifications/initialized"), false), Route::Initialized);
    assert_eq!(route_message(false, None, Some("tools/list"), false), Route::NotInitialized);
    assert_eq!(route_message(true, None, Some("tools/list"), false), Route::ListTools);
    assert_eq!(route_message(true, None, Some("tools/call"), false), Route::MissingToolName);
    assert_eq!(route_message(true, None, Some("tools/call"), true), Route::CallTool);
    assert_eq!(route_message(true, None, Some("shutdown"), false), Route::Shutdown);
    assert_eq!(route_message(true, None, Some("other"), false), Route::MethodNotFound);
    assert_eq!(route_message(true, None, None, false), Route::MethodNotFound);
    assert!(replies(Route::MethodNotFound, true));
    assert!(!replies(Route::ListTools, true));
    assert!(replies(Route::ListTools, false));
    assert!(next_initialized(false, Route::Initialized));
    assert!(!next_initialized(true, Route::Shutdown));
    assert!(next_initialized(true, Route::ListTools));
    assert!(supported_protocol("2025-06-18"));
    assert!(!supported_protocol("2023-01-01"));
}

fn files(v: &[(&str, &str)]) -> Vec<(String, String)> {
    v.iter().map(|(p, c)| (p.to_string(), c.to_string())).collect()
}

#[test]
fn search_literal_regex_and_case() {
    let fs = files(&[("a.txt", "hello world\nfoo hello\n"), ("b.txt", "HELLO\n")]);
    let m = find_in_files("hello", true, false, None, false, false, &fs).unwrap();
    assert_eq!(m.len(), 2);
    assert_eq!((m[0].line_number, m[0].column_start, m[0].column_end), (1, 0, 5));
    assert_eq!((m[1].line_number, m[1].column_start), (2, 4));
    let m = find_in_files("hello", false, false, None, false, false, &fs).unwrap();
    assert_eq!(m.len(), 3);
    assert_eq!(m[2].file_path, "b.txt");
    assert_eq!(m[2].matched_text, "HELLO");
    let m = find_in_files("h.llo", true, true, None, false, false, &fs).unwrap();
    assert_eq!(m.len(), 2);
    let m = find_in_files("a.b", true, false, None, false, false, &files(&[("c", "axb a.b")])).unwrap();
    assert_eq!(m.len(), 1);
    assert_eq!(m[0].column_start, 4);
}

#[test]
fn search_cap_and_whole_word() {
    let fs = files(&[("a", "x x x\nx\n"), ("b", "x\n")]);
    let m = find_in_files("x", true, false, Some(2), false, false, &fs).unwrap();
    assert_eq!(m.len(), 3);
    let m = find_in_files("x", true, false, Some(0), false, false, &fs).unwrap();
    assert!(m.is_empty());
    let m = find_in_files("cat", true, false, None, true, false, &files(&[("c", "cat concat cat.")])).unwrap();
    assert_eq!(m.len(), 2);
    assert_eq!(find_in_files("(", true, true, None, false, false, &fs).unwrap_err().kind(), ErrorKind::RegexError);
}

fn entry(name: &str, is_dir: bool) -> FoundEntry {
    FoundEntry {
        name: name.to_string(),
        path: format!("root/{}", name),
        is_file: !is_dir,
        is_dir,
        is_symlink: false,
    }
}

#[test]
fn file_find_globs_and_types() {
    let entries = vec![entry("a.txt", false), entry("b.rs", false), entry("docs", true), entry("atxt", false)];
    assert_eq!(file_find("*.txt", &entries, None).unwrap(), vec!["root/a.txt".to_string()]);
    assert_eq!(file_find("?.rs", &entries, Some("file")).unwrap(), vec!["root/b.rs".to_string()]);
    assert_eq!(file_find("o", &entries, Some("dir")).unwrap(), vec!["root/docs".to_string()]);
    assert_eq!(file_find("txt", &entries, None).unwrap(), vec!["root/a.txt".to_string(), "root/atxt".to_string()]);
    assert!(file_find("*.md", &entries, None).unwrap().is_empty());
}
