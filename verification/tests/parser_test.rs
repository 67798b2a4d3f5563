use mahgit::diff::generator::{PatchEvent, PatchHunk};
use mahgit::diff::parser::{DiffParser, ParseError};
use mahgit::diff::{DiffContext, LineType};

fn hunk(header: &str) -> PatchHunk {
    PatchHunk { header: header.to_string(), old_start: 1, old_lines: 1, new_start: 1, new_lines: 2 }
}

fn event(h: Option<PatchHunk>, origin: char, content: &str) -> PatchEvent {
    PatchEvent {
        binary: false,
        hunk: h,
        origin,
        content: content.to_string(),
        old_lineno: None,
        new_lineno: Some(1),
    }
}

#[test]
fn test_parser_creation() {
    let _parser = DiffParser::new();
    let _default_parser = DiffParser;
}

#[test]
fn binary_report_gives_binary_file_error() {
    let parser = DiffParser::default();
    let mut binary = event(None, 'F', "");
    binary.binary = true;
    let result = parser.parse_events(&vec![binary], "image.png", DiffContext::WorkingTreeToIndex);
    match result {
        Err(ParseError::BinaryFile(path)) => assert_eq!(path, "image.png"),
        _ => panic!("expected a binary file error"),
    }
}

#[test]
fn every_report_with_a_hunk_opens_a_new_hunk() {
    let parser = DiffParser::new();
    let events = vec![
        event(None, 'F', "diff --git a/f b/f"),
        event(Some(hunk("@@ -1 +1,2 @@")), 'H', "@@ -1 +1,2 @@"),
        event(Some(hunk("@@ -1 +1,2 @@")), '+', "new"),
        event(Some(hunk("@@ -1 +1,2 @@")), ' ', "old"),
    ];
    let diff = parser.parse_events(&events, "f", DiffContext::IndexToHead).unwrap();
    assert_eq!(diff.file_path, "f");
    assert_eq!(diff.context, DiffContext::IndexToHead);
    assert!(!diff.binary);
    assert_eq!(diff.hunks.len(), 3);
    assert_eq!(diff.hunks[0].lines.len(), 1);
    assert_eq!(diff.hunks[0].lines[0].line_type, LineType::Context);
    assert_eq!(diff.hunks[1].lines[0].line_type, LineType::Addition);
    assert_eq!(diff.hunks[1].lines[0].content, "new");
    assert_eq!(diff.hunks[1].lines[0].new_line_no, Some(1));
    assert_eq!(diff.hunks[2].lines[0].content, "old");
    assert_eq!(diff.hunks[2].header.new_lines, 2);
}

#[test]
fn lines_before_any_hunk_are_dropped() {
    let parser = DiffParser::new();
    let events = vec![event(None, '+', "orphan"), event(None, '\0', "")];
    let diff = parser.parse_events(&events, "f", DiffContext::WorkingTreeToIndex).unwrap();
    assert!(diff.hunks.is_empty());
}
