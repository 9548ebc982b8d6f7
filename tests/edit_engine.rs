use fileio_mcp::edit::{apply_edit, apply_edits, plan_edit, EditFileRequest, EditOperation};
use fileio_mcp::error::{ErrorKind, FileIoError};
use fileio_mcp::lines::{compute_line_starts, effective_line_count, line_range_offsets, line_start_offset};
use fileio_mcp::search::find_nth_span;

fn request(edits: Vec<EditOperation>, dry_run: bool, return_content: bool) -> EditFileRequest {
    EditFileRequest {
        path: "file.txt".to_string(),
        edits,
        create_if_missing: false,
        dry_run,
        return_content,
    }
}

fn insert_after(search: &str, text: &str) -> EditOperation {
    EditOperation::InsertAfter {
        search: search.to_string(),
        text: text.to_string(),
        use_regex: false,
        occurrence: 1,
        require_match: true,
    }
}

fn run(content: &str, edits: Vec<EditOperation>) -> Result<String, FileIoError> {
    let out = apply_edits(content.as_bytes(), &edits)?;
    Ok(String::from_utf8(out.content).unwrap())
}

#[test]
fn insert_after_anchor_string() {
    let req = EditFileRequest {
        path: "a.txt".to_string(),
        edits: vec![EditOperation::InsertAfter {
            search: "[deps]\n".to_string(),
            text: "rusqlite=\"0.31\"\n".to_string(),
            use_regex: false,
            occurrence: 1,
            require_match: true,
        }],
        create_if_missing: false,
        dry_run: false,
        return_content: true,
    };
    let plan = plan_edit(&req, "a.txt".to_string(), Some("[deps]\nanyhow=\"1\"\n".to_string())).unwrap();
    let res = plan.result;
    assert!(res.changed);
    assert!(res.content.unwrap().contains("rusqlite"));
}

#[test]
fn replace_lines_preserves_newline_when_replacing_full_line() {
    let req = EditFileRequest {
        path: "b.txt".to_string(),
        edits: vec![EditOperation::ReplaceLines { start_line: 2, end_line: 2, text: "B".to_string() }],
        create_if_missing: false,
        dry_run: false,
        return_content: true,
    };
    let plan = plan_edit(&req, "b.txt".to_string(), Some("a\nb\nc\n".to_string())).unwrap();
    assert_eq!(plan.result.content.unwrap(), "a\nB\nc\n");
    assert_eq!(plan.write.unwrap(), "a\nB\nc\n");
}

#[test]
fn dry_run_returns_content_and_writes_nothing() {
    let req = request(vec![insert_after("a\n", "z\n")], true, false);
    let plan = plan_edit(&req, "file.txt".to_string(), Some("a\nb\n".to_string())).unwrap();
    assert!(plan.write.is_none());
    assert!(plan.result.changed);
    assert!(plan.result.dry_run);
    assert_eq!(plan.result.applied_edits, 1);
    assert_eq!(plan.result.content.unwrap(), "a\nz\nb\n");
}

#[test]
fn replacing_line_with_its_own_text_counts_nothing() {
    let req = request(
        vec![EditOperation::ReplaceLines { start_line: 2, end_line: 2, text: "b".to_string() }],
        false,
        true,
    );
    let plan = plan_edit(&req, "file.txt".to_string(), Some("a\nb\nc\n".to_string())).unwrap();
    assert!(!plan.result.changed);
    assert_eq!(plan.result.applied_edits, 0);
    assert!(plan.write.is_none());
    assert_eq!(plan.result.content.unwrap(), "a\nb\nc\n");
}

#[test]
fn applied_edits_counts_only_changing_edits() {
    let edits = vec![
        EditOperation::ReplaceLines { start_line: 1, end_line: 1, text: "a".to_string() },
        EditOperation::ReplaceLines { start_line: 2, end_line: 2, text: "X".to_string() },
    ];
    let out = apply_edits(b"a\nb\n", &edits).unwrap();
    assert_eq!(out.applied, 1);
    assert_eq!(out.content, b"a\nX\n".to_vec());
}

#[test]
fn replace_lines_newline_preservation() {
    let edits = vec![EditOperation::ReplaceLines { start_line: 2, end_line: 2, text: "B".to_string() }];
    assert_eq!(run("a\nb\nc\n", edits).unwrap(), "a\nB\nc\n");
}

#[test]
fn replace_last_line_without_newline() {
    let edits = vec![EditOperation::ReplaceLines { start_line: 2, end_line: 2, text: "B".to_string() }];
    assert_eq!(run("a\nb", edits).unwrap(), "a\nB");
}

#[test]
fn anchor_insert_after_keeps_order() {
    let edits = vec![insert_after("[dependencies]\n", "rusqlite=\"0.31\"\n")];
    assert_eq!(
        run("[dependencies]\nanyhow=\"1\"\n", edits).unwrap(),
        "[dependencies]\nrusqlite=\"0.31\"\nanyhow=\"1\"\n"
    );
}

#[test]
fn occurrence_selects_second_match() {
    let edits = vec![EditOperation::Replace {
        search: "x".to_string(),
        text: "y".to_string(),
        use_regex: false,
        occurrence: 2,
        require_match: true,
    }];
    assert_eq!(run("x x x", edits).unwrap(), "x y x");
}

#[test]
fn missing_anchor_error_names_pattern() {
    let edits = vec![insert_after("nowhere", "text")];
    let err = run("a\nb\n", edits).unwrap_err();
    match err {
        FileIoError::InvalidPath(msg) => {
            assert_eq!(msg, "Edit failed: search pattern not found (insert_after): nowhere");
        }
        other => panic!("unexpected error {:?}", other),
    }
}

#[test]
fn missing_anchor_without_require_match_is_noop() {
    let edits = vec![EditOperation::Delete {
        search: "nowhere".to_string(),
        use_regex: false,
        occurrence: 1,
        require_match: false,
    }];
    let out = apply_edits(b"a\nb\n", &edits).unwrap();
    assert_eq!(out.content, b"a\nb\n".to_vec());
    assert_eq!(out.applied, 0);
}

#[test]
fn replace_lines_past_end_is_rejected() {
    let edits = vec![EditOperation::ReplaceLines { start_line: 1, end_line: 999, text: "x".to_string() }];
    let err = run("a\nb\nc\n", edits).unwrap_err();
    assert_eq!(err.kind(), ErrorKind::InvalidLineNumbers);
}

#[test]
fn zero_occurrence_is_rejected_for_every_anchor_kind() {
    let ops = vec![
        EditOperation::InsertAfter { search: "a".to_string(), text: "t".to_string(), use_regex: false, occurrence: 0, require_match: true },
        EditOperation::InsertBefore { search: "a".to_string(), text: "t".to_string(), use_regex: false, occurrence: 0, require_match: false },
        EditOperation::Replace { search: "a".to_string(), text: "t".to_string(), use_regex: true, occurrence: 0, require_match: true },
        EditOperation::Delete { search: "a".to_string(), use_regex: false, occurrence: 0, require_match: true },
    ];
    for op in ops.iter() {
        let err = apply_edit(b"a\n", op).unwrap_err();
        assert_eq!(err.kind(), ErrorKind::InvalidLineNumbers);
    }
}

#[test]
fn empty_edit_list_changes_nothing() {
    let req = request(vec![], false, false);
    let plan = plan_edit(&req, "file.txt".to_string(), Some("keep\n".to_string())).unwrap();
    assert!(!plan.result.changed);
    assert_eq!(plan.result.applied_edits, 0);
    assert!(plan.write.is_none());
    assert!(plan.result.content.is_none());
    assert_eq!(plan.result.path, "file.txt");
}

#[test]
fn missing_file_without_create_is_not_found() {
    let req = request(vec![insert_after("a", "b")], false, false);
    let err = plan_edit(&req, "gone.txt".to_string(), None).unwrap_err();
    assert_eq!(err.kind(), ErrorKind::NotFound);
}

#[test]
fn missing_file_with_create_starts_empty() {
    let mut req = request(vec![EditOperation::InsertAtLine { line: 1, text: "first\n".to_string() }], false, true);
    req.create_if_missing = true;
    let plan = plan_edit(&req, "new.txt".to_string(), None).unwrap();
    assert_eq!(plan.write.unwrap(), "first\n");
    assert_eq!(plan.result.applied_edits, 1);
}

#[test]
fn failing_edit_aborts_whole_request() {
    let req = request(
        vec![insert_after("a", "1"), EditOperation::DeleteLines { start_line: 3, end_line: 2 }],
        false,
        true,
    );
    let err = plan_edit(&req, "file.txt".to_string(), Some("a\nb\n".to_string())).unwrap_err();
    assert_eq!(err.kind(), ErrorKind::InvalidLineNumbers);
}

#[test]
fn edits_apply_to_the_already_edited_buffer() {
    let edits = vec![
        EditOperation::InsertAtLine { line: 1, text: "top\n".to_string() },
        EditOperation::DeleteLines { start_line: 2, end_line: 2 },
    ];
    assert_eq!(run("a\nb\n", edits).unwrap(), "top\nb\n");
}

#[test]
fn insert_at_line_past_end_appends() {
    let edits = vec![EditOperation::InsertAtLine { line: 3, text: "c\n".to_string() }];
    assert_eq!(run("a\nb\n", edits).unwrap(), "a\nb\nc\n");
    let edits = vec![EditOperation::InsertAtLine { line: 5, text: "c\n".to_string() }];
    assert_eq!(run("a\nb\n", edits).unwrap_err().kind(), ErrorKind::InvalidLineNumbers);
    let edits = vec![EditOperation::InsertAtLine { line: 0, text: "c\n".to_string() }];
    assert_eq!(run("a\nb\n", edits).unwrap_err().kind(), ErrorKind::InvalidLineNumbers);
}

#[test]
fn insert_before_and_delete_anchor() {
    let edits = vec![
        EditOperation::InsertBefore { search: "b".to_string(), text: ">".to_string(), use_regex: false, occurrence: 1, require_match: true },
        EditOperation::Delete { search: "a\n".to_string(), use_regex: false, occurrence: 1, require_match: true },
    ];
    assert_eq!(run("a\nb\n", edits).unwrap(), ">b\n");
}

#[test]
fn regex_delete_and_bad_pattern() {
    let edits = vec![EditOperation::Delete { search: "[0-9]+".to_string(), use_regex: true, occurrence: 2, require_match: true }];
    assert_eq!(run("a1 b22 c333", edits).unwrap(), "a1 b c333");
    let edits = vec![EditOperation::Delete { search: "(".to_string(), use_regex: true, occurrence: 1, require_match: true }];
    assert_eq!(run("abc", edits).unwrap_err().kind(), ErrorKind::RegexError);
}

#[test]
fn empty_search_is_invalid_path() {
    let edits = vec![insert_after("", "x")];
    assert_eq!(run("abc", edits).unwrap_err().kind(), ErrorKind::InvalidPath);
}

#[test]
fn empty_regex_matches_empty_spans() {
    let edits = vec![EditOperation::InsertBefore { search: "".to_string(), text: "X".to_string(), use_regex: true, occurrence: 2, require_match: true }];
    assert_eq!(run("abc", edits).unwrap(), "aXbc");
    let out = apply_edits(b"abc", &vec![EditOperation::Delete { search: "".to_string(), use_regex: true, occurrence: 1, require_match: true }]).unwrap();
    assert_eq!(out.content, b"abc".to_vec());
    assert_eq!(out.applied, 0);
}

#[test]
fn delete_lines_on_empty_buffer() {
    let edits = vec![EditOperation::DeleteLines { start_line: 1, end_line: 1 }];
    assert_eq!(run("", edits).unwrap(), "");
    let edits = vec![EditOperation::DeleteLines { start_line: 1, end_line: 2 }];
    assert_eq!(run("", edits).unwrap_err().kind(), ErrorKind::InvalidLineNumbers);
}

#[test]
fn line_index_values() {
    assert_eq!(compute_line_starts(b"a\nbc\n"), vec![0, 2, 5]);
    assert_eq!(compute_line_starts(b""), vec![0]);
    assert_eq!(effective_line_count(b""), 1);
    assert_eq!(effective_line_count(b"a\nb"), 2);
    assert_eq!(effective_line_count(b"a\nb\n"), 3);
    assert_eq!(line_start_offset(b"a\nbc\n", 2, false).unwrap(), 2);
    assert_eq!(line_start_offset(b"a\nbc", 3, true).unwrap(), 4);
    assert!(line_start_offset(b"a\nbc", 3, false).is_err());
    assert_eq!(line_range_offsets(b"a\nbc\nd", 2, 3).unwrap(), (2, 6));
    assert_eq!(line_range_offsets(b"a\nbc\nd", 1, 1).unwrap(), (0, 2));
    assert_eq!(line_range_offsets(b"", 1, 1).unwrap(), (0, 0));
    assert!(line_range_offsets(b"a\n", 2, 1).is_err());
}

#[test]
fn span_search_values() {
    assert_eq!(find_nth_span(b"abcabc", "bc", false, 2).unwrap(), Some((4, 6)));
    assert_eq!(find_nth_span(b"aaaa", "aa", false, 2).unwrap(), Some((2, 4)));
    assert_eq!(find_nth_span(b"aaaa", "aa", false, 3).unwrap(), None);
    assert_eq!(find_nth_span(b"ab12cd345", "[0-9]+", true, 2).unwrap(), Some((6, 9)));
    assert_eq!(find_nth_span(b"ab", "x", true, 1).unwrap(), None);
}

#[test]
fn regex_search_on_multibyte_text() {
    assert_eq!(find_nth_span("héé".as_bytes(), "é", true, 2).unwrap(), Some((3, 5)));
    assert_eq!(find_nth_span("héé".as_bytes(), "é", false, 2).unwrap(), Some((3, 5)));
    assert_eq!(find_nth_span(&[0xffu8, 0x61], "a", true, 1).unwrap_err().kind(), ErrorKind::ReadError);
    assert_eq!(find_nth_span(&[0xffu8, 0x61], "a", false, 1).unwrap(), Some((1, 2)));
}

#[test]
fn line_error_messages_name_the_numbers() {
    let err = line_range_offsets(b"a\nb\nc", 1, 999).unwrap_err();
    assert_eq!(err, FileIoError::InvalidLineNumbers("Invalid line range: 1..999 (file has 3 lines)".to_string()));
    let err = line_range_offsets(b"a\nb\nc", 3, 2).unwrap_err();
    assert_eq!(err, FileIoError::InvalidLineNumbers("start_line (3) must be <= end_line (2)".to_string()));
    let err = line_start_offset(b"a\nb", 7, true).unwrap_err();
    assert_eq!(err, FileIoError::InvalidLineNumbers("Invalid line number: 7 (file has 2 lines)".to_string()));
    assert_eq!(fileio_mcp::text::decimal(1234567890), "1234567890");
    assert_eq!(fileio_mcp::text::decimal(0), "0");
}

#[test]
fn request_fails_with_the_missing_anchor_named() {
    let req = request(vec![insert_after("a", "1"), insert_after("zzz", "2")], false, true);
    let err = plan_edit(&req, "file.txt".to_string(), Some("a\n".to_string())).unwrap_err();
    assert_eq!(err, FileIoError::InvalidPath("Edit failed: search pattern not found (insert_after): zzz".to_string()));
}
