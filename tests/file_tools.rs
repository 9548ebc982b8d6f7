use fileio_mcp::counting::{count_lines, count_lines_in, count_words, count_words_in};
use fileio_mcp::error::{ErrorKind, FileIoError, IoFailure};
use fileio_mcp::globbing::glob_entries;
use fileio_mcp::modes::{format_mode, get_file_mode, parse_mode};
use fileio_mcp::paths::{basename, dirname};
use fileio_mcp::records::ToolRegistry;
use fileio_mcp::removal::{removal_error, removal_plan, rmdir_check, rmdir_failure, Removal};
use fileio_mcp::report::{is_glob_pattern, op_results, removal_targets, touch};
use fileio_mcp::window::line_window;

fn strings(v: &[&str]) -> Vec<String> {
    v.iter().map(|s| s.to_string()).collect()
}

#[test]
fn test_count_lines_basic() {
    let paths = strings(&["/tmp/a.txt"]);
    let results = count_lines(&paths, vec![Ok(b"line 1\nline 2\nline 3\n".to_vec())]);
    let r = &results[0];
    assert_eq!(r.path, "/tmp/a.txt".to_string());
    assert_eq!(r.status, "ok");
    assert_eq!(r.lines, Some(3));
}

#[test]
fn test_count_lines_empty() {
    let results = count_lines(&strings(&["e"]), vec![Ok(Vec::new())]);
    let r = &results[0];
    assert_eq!(r.status, "ok");
    assert_eq!(r.lines, Some(0));
}

#[test]
fn test_count_lines_single_line_no_newline() {
    let results = count_lines(&strings(&["s"]), vec![Ok(b"single line".to_vec())]);
    let r = &results[0];
    assert_eq!(r.status, "ok");
    assert_eq!(r.lines, Some(1));
}

#[test]
fn count_lines_reports_failures() {
    let results = count_lines(
        &strings(&["gone", "dir"]),
        vec![
            Err(FileIoError::NotFound("gone".to_string())),
            Err(FileIoError::InvalidPath("dir is not a file".to_string())),
        ],
    );
    assert_eq!(results[0].status, "error: not found");
    assert!(!results[0].exists);
    assert_eq!(results[0].lines, None);
    assert_eq!(results[1].status, "error: File I/O error: Invalid path: dir is not a file");
    assert!(results[1].exists);
}

#[test]
fn line_counts_of_text() {
    assert_eq!(count_lines_in(b""), 0);
    assert_eq!(count_lines_in(b"\n"), 1);
    assert_eq!(count_lines_in(b"a\r\nb"), 2);
    assert_eq!(count_lines_in(b"a\n\n"), 2);
}

#[test]
fn test_count_words_basic() {
    let results = count_words(&strings(&["w"]), vec![Ok("hello world\nfoo bar\n".to_string())]);
    let r = &results[0];
    assert_eq!(r.status, "ok");
    assert_eq!(r.words, Some(4));
}

#[test]
fn test_count_words_empty() {
    let results = count_words(&strings(&["w"]), vec![Ok(String::new())]);
    assert_eq!(results[0].status, "ok");
    assert_eq!(results[0].words, Some(0));
}

#[test]
fn test_count_words_multiple_spaces() {
    let results = count_words(&strings(&["w"]), vec![Ok("word1    word2   word3\n".to_string())]);
    assert_eq!(results[0].status, "ok");
    assert_eq!(results[0].words, Some(3));
}

#[test]
fn word_counts_of_text() {
    assert_eq!(count_words_in("  a\tb\u{3000}c  "), 3);
    assert_eq!(count_words_in("\n\n"), 0);
    assert_eq!(count_words_in("x"), 1);
}

#[test]
fn mode_parsing() {
    assert_eq!(parse_mode("755").unwrap(), 0o755);
    assert_eq!(parse_mode("0644").unwrap(), 0o644);
    assert_eq!(parse_mode("999").unwrap(), 999);
    assert_eq!(parse_mode("0999").unwrap_err().kind(), ErrorKind::InvalidMode);
    assert_eq!(parse_mode("0").unwrap_err().kind(), ErrorKind::InvalidMode);
    assert_eq!(parse_mode("rwx").unwrap_err().kind(), ErrorKind::InvalidMode);
    assert_eq!(parse_mode("+17").unwrap(), 0o17);
}

#[test]
fn mode_formatting() {
    assert_eq!(format_mode(0o100644), "0644");
    assert_eq!(format_mode(0o4755), "4755");
    assert_eq!(format_mode(0), "0000");
}

#[test]
fn test_get_file_mode() {
    let paths = strings(&["/tmp/f"]);
    let modes = get_file_mode(&paths, &vec![Ok(0o100600)]).unwrap();
    let (path, mode) = &modes[0];
    assert_eq!(path, "/tmp/f");
    assert!(mode.len() == 4);
    assert!(mode.chars().all(|c| c.is_ascii_digit()));
    assert_eq!(mode, "0600");
}

#[test]
fn get_file_mode_lists_failures() {
    let paths = strings(&["a", "b", "c"]);
    let err = get_file_mode(
        &paths,
        &vec![
            Err(FileIoError::NotFound("x".to_string())),
            Ok(0o644),
            Err(FileIoError::PermissionDenied("y".to_string())),
        ],
    )
    .unwrap_err();
    assert_eq!(
        err,
        FileIoError::ReadError(
            "Some permission queries failed: a: File I/O error: File not found: x; c: File I/O error: Permission denied: y"
                .to_string()
        )
    );
}

#[test]
fn touch_combines_outcomes() {
    let paths = strings(&["a", "b"]);
    assert!(touch(&paths, &vec![Ok(()), Ok(())]).is_ok());
    let err = touch(&paths, &vec![Ok(()), Err(FileIoError::WriteError("w".to_string()))]).unwrap_err();
    assert_eq!(
        err,
        FileIoError::WriteError("Some touch operations failed: b: File I/O error: Write error: w".to_string())
    );
}

#[test]
fn op_results_per_path() {
    let paths = strings(&["a", "b"]);
    let r = op_results(&paths, &vec![Ok(()), Err(FileIoError::NotFound("b".to_string()))]);
    assert_eq!(r[0].status, "ok");
    assert!(r[0].exists);
    assert_eq!(r[1].status, "error: File I/O error: File not found: b");
    assert!(!r[1].exists);
}

#[test]
fn glob_detection_and_targets() {
    assert!(is_glob_pattern("*.txt"));
    assert!(is_glob_pattern("a{b,c}"));
    assert!(is_glob_pattern("f?le"));
    assert!(is_glob_pattern("[ab]"));
    assert!(!is_glob_pattern("/plain/path.txt"));
    let paths = strings(&["x", "*.log", "*.tmp"]);
    let matches = vec![vec![], strings(&["a.log", "b.log"]), vec![]];
    assert_eq!(removal_targets(&paths, &matches, true).unwrap(), strings(&["x", "a.log", "b.log"]));
    let err = removal_targets(&paths, &matches, false).unwrap_err();
    assert_eq!(err, FileIoError::NotFound("No files match pattern: *.tmp".to_string()));
}

#[test]
fn io_error_mapping() {
    let e = FileIoError::from_io_error("read file", "/x", IoFailure::NotFound, "gone");
    assert_eq!(e, FileIoError::NotFound("read file not found: /x".to_string()));
    let e = FileIoError::from_io_error("read file", "/x", IoFailure::Other, "boom");
    assert_eq!(e, FileIoError::WriteError("Failed to read file /x: boom".to_string()));
    let e = FileIoError::from_io_error("open", "/x", IoFailure::InvalidInput, "bad");
    assert_eq!(e, FileIoError::InvalidPath("Invalid input for open: /x (bad)".to_string()));
    assert_eq!(e.describe(), "File I/O error: Invalid path: Invalid input for open: /x (bad)");
}

fn lines_abc() -> Vec<String> {
    strings(&["a", "b", "c"])
}

#[test]
fn test_read_all_lines() {
    let lines = strings(&["line 1", "line 2", "line 3"]);
    let got = line_window(&lines, None, None, None, None).unwrap();
    assert_eq!(got.len(), 3);
    assert_eq!(got[0], "line 1");
    assert_eq!(got[2], "line 3");
}

#[test]
fn test_read_lines_with_range() {
    let lines = strings(&["line 1", "line 2", "line 3", "line 4"]);
    let got = line_window(&lines, Some(2), Some(3), None, None).unwrap();
    assert_eq!(got, strings(&["line 2", "line 3"]));
}

#[test]
fn test_read_lines_with_count() {
    let lines = strings(&["line 1", "line 2", "line 3"]);
    let got = line_window(&lines, Some(1), None, Some(2), None).unwrap();
    assert_eq!(got, strings(&["line 1", "line 2"]));
}

#[test]
fn test_read_lines_with_offset() {
    let lines = strings(&["line 1", "line 2", "line 3"]);
    let got = line_window(&lines, None, None, Some(2), Some(1)).unwrap();
    assert_eq!(got, strings(&["line 2", "line 3"]));
}

#[test]
fn test_read_lines_empty_file_returns_empty() {
    let lines: Vec<String> = Vec::new();
    assert!(line_window(&lines, None, None, None, None).unwrap().is_empty());
    assert!(line_window(&lines, Some(1), Some(1), None, None).unwrap().is_empty());
}

#[test]
fn test_read_lines_end_past_eof_clamps() {
    let lines = lines_abc();
    assert_eq!(line_window(&lines, Some(2), Some(999), None, None).unwrap(), strings(&["b", "c"]));
    assert_eq!(line_window(&lines, Some(2), None, Some(999), None).unwrap(), strings(&["b", "c"]));
}

#[test]
fn test_read_lines_start_line_beyond_eof_errors() {
    let lines = strings(&["a"]);
    assert!(line_window(&lines, Some(3), None, None, None).is_err());
}

#[test]
fn test_read_lines_end_before_start_errors() {
    let lines = strings(&["a", "b"]);
    assert!(line_window(&lines, Some(2), Some(1), None, None).is_err());
}

#[test]
fn test_read_lines_start_line_zero_errors() {
    let lines = strings(&["a"]);
    assert!(line_window(&lines, Some(0), None, None, None).is_err());
}

#[test]
fn test_read_lines_start_offset_at_or_past_eof() {
    let lines = strings(&["a", "b"]);
    // start_offset is treated as a 0-based line index.
    assert!(line_window(&lines, None, None, Some(10), Some(2)).unwrap().is_empty());
    assert!(line_window(&lines, None, None, Some(1), Some(3)).is_err());
}

#[test]
fn test_basename() {
    assert_eq!(basename("/path/to/file.txt").unwrap(), "file.txt");
    assert_eq!(basename("file.txt").unwrap(), "file.txt");
}

#[test]
fn test_dirname() {
    assert_eq!(dirname("/path/to/file.txt").unwrap(), "/path/to");
    assert_eq!(dirname("file.txt").unwrap(), "");
}

#[test]
fn path_component_failures() {
    assert_eq!(
        basename("/").unwrap_err(),
        FileIoError::InvalidPath("Cannot extract basename from path: /".to_string())
    );
    assert_eq!(
        dirname("/").unwrap_err(),
        FileIoError::InvalidPath("Cannot extract dirname from path: /".to_string())
    );
}

#[test]
fn registry_builds() {
    let _registry = ToolRegistry::new();
}

#[test]
fn glob_entries_select_matching_names() {
    let entries: Vec<(String, String)> = vec![
        ("file1.txt".to_string(), "/d/file1.txt".to_string()),
        ("other.log".to_string(), "/d/other.log".to_string()),
        ("file2.txt".to_string(), "/d/file2.txt".to_string()),
    ];
    assert_eq!(glob_entries("*.txt", &entries).unwrap(), strings(&["/d/file1.txt", "/d/file2.txt"]));
    assert_eq!(glob_entries("file?.*", &entries).unwrap(), strings(&["/d/file1.txt", "/d/file2.txt"]));
    assert!(glob_entries("*.md", &entries).unwrap().is_empty());
    assert_eq!(glob_entries("[", &entries).unwrap_err().kind(), ErrorKind::InvalidPath);
}

#[test]
fn glob_whose_regex_cannot_compile_is_an_error() {
    let deep = format!("{}b{}", "{a,".repeat(400), "}".repeat(400));
    let entries = vec![("b".to_string(), "/d/b".to_string())];
    assert_eq!(glob_entries(&deep, &entries).unwrap_err().kind(), ErrorKind::InvalidPath);
    let shallow = format!("{}b{}", "{a,".repeat(3), "}".repeat(3));
    assert_eq!(glob_entries(&shallow, &entries).unwrap(), strings(&["/d/b"]));
}

#[test]
fn removal_decisions() {
    assert_eq!(removal_plan("/x", false, false, false, false, false, true).unwrap(), Removal::Nothing);
    assert_eq!(removal_plan("/x", false, false, false, false, false, false).unwrap_err(), FileIoError::NotFound("/x".to_string()));
    assert_eq!(removal_plan("/x", true, true, false, false, false, false).unwrap(), Removal::File);
    assert_eq!(removal_plan("/x", true, false, true, true, true, false).unwrap(), Removal::File);
    assert_eq!(removal_plan("/x", true, false, false, true, true, false).unwrap(), Removal::Tree);
    assert_eq!(removal_plan("/x", true, false, false, true, false, false).unwrap(), Removal::EmptyDir);
    assert_eq!(
        removal_error("/d", Removal::Tree, IoFailure::PermissionDenied, "denied"),
        FileIoError::PermissionDenied("Permission denied when removing directory: /d".to_string())
    );
    assert_eq!(
        removal_error("/f", Removal::File, IoFailure::Other, "busy"),
        FileIoError::WriteError("Failed to remove file /f: busy".to_string())
    );
    assert!(rmdir_check("/d", true, true, true, true).is_ok());
    assert_eq!(
        rmdir_check("/d", true, true, true, false).unwrap_err(),
        FileIoError::WriteError("Directory is not empty: /d. Use recursive=true to remove non-empty directories".to_string())
    );
    assert_eq!(rmdir_check("/f", true, false, false, false).unwrap_err(), FileIoError::InvalidPath("Path is not a directory: /f".to_string()));
    assert_eq!(rmdir_check("/g", false, false, false, false).unwrap_err(), FileIoError::NotFound("/g".to_string()));
    assert_eq!(
        rmdir_failure("/d", &FileIoError::NotFound("/d".to_string())),
        FileIoError::WriteError("Removal failed: /d: error: File I/O error: File not found: /d".to_string())
    );
}

#[test]
fn window_start_past_end_message() {
    let lines = strings(&["a"]);
    assert_eq!(
        line_window(&lines, Some(3), None, None, None).unwrap_err(),
        FileIoError::InvalidLineNumbers("start_line 3 exceeds file length 1".to_string())
    );
}
