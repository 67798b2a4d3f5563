use mahgit::diff::generator::{
    check_file_size, contains_problematic_chars, deleted_file_diff, looks_binary, synthetic_diff_source,
    untracked_file_diff, wants_untracked_fallback, DiffAssembler, DiffError, PatchEvent, PatchHunk, SyntheticSource,
    MAX_FILE_SIZE, MAX_LINES_PER_DIFF,
};
use mahgit::diff::{DiffContext, LineType};

fn hunk(header: &str) -> PatchHunk {
    PatchHunk { header: header.to_string(), old_start: 3, old_lines: 2, new_start: 3, new_lines: 3 }
}

fn line(h: &str, origin: char, content: &str) -> PatchEvent {
    PatchEvent {
        binary: false,
        hunk: Some(hunk(h)),
        origin,
        content: content.to_string(),
        old_lineno: Some(3),
        new_lineno: Some(4),
    }
}

#[test]
fn assembler_groups_lines_under_their_hunk_header() {
    let mut assembler = DiffAssembler::new();
    assert!(assembler.accept(PatchEvent {
        binary: false,
        hunk: None,
        origin: 'F',
        content: "diff --git".to_string(),
        old_lineno: None,
        new_lineno: None,
    }));
    assert!(assembler.accept(line("@@ -3,2 +3,3 @@", 'H', "@@ -3,2 +3,3 @@\n")));
    assert!(assembler.accept(line("@@ -3,2 +3,3 @@", ' ', "same\n")));
    assert!(assembler.accept(line("@@ -3,2 +3,3 @@", '+', "added\n")));
    assert!(assembler.accept(line("@@ -9,1 +10,1 @@", '-', "removed\n")));
    let diff = assembler.finish("f.txt", DiffContext::WorkingTreeToIndex).unwrap();
    assert_eq!(diff.hunks.len(), 2);
    assert_eq!(diff.hunks[0].header.raw, "@@ -3,2 +3,3 @@");
    assert_eq!(diff.hunks[0].lines.len(), 2);
    assert_eq!(diff.hunks[0].lines[1].line_type, LineType::Addition);
    assert_eq!(diff.hunks[0].lines[1].old_line_no, Some(3));
    assert_eq!(diff.hunks[1].lines[0].line_type, LineType::Deletion);
    assert!(!wants_untracked_fallback(&diff));
}

#[test]
fn assembler_stops_on_binary_and_on_control_characters() {
    let mut assembler = DiffAssembler::new();
    let mut binary = line("@@ -1 +1 @@", 'F', "");
    binary.binary = true;
    assert!(!assembler.accept(binary));
    assert!(matches!(assembler.finish("b.bin", DiffContext::WorkingTreeToIndex), Err(DiffError::BinaryFile(p)) if p == "b.bin"));

    let mut assembler = DiffAssembler::new();
    assert!(!assembler.accept(line("@@ -1 +1 @@", '+', "bell\u{7}")));
}

#[test]
fn assembler_stops_after_line_limit() {
    let mut assembler = DiffAssembler::new();
    for _ in 0..MAX_LINES_PER_DIFF {
        assert!(assembler.accept(line("@@ -1 +1 @@", '+', "x\n")));
    }
    assert!(!assembler.accept(line("@@ -1 +1 @@", '+', "x\n")));
    match assembler.finish("big.txt", DiffContext::WorkingTreeToHead) {
        Err(DiffError::TerminalCompatibility(message)) => {
            assert_eq!(message, "Diff truncated - big.txt has too many changes (>10000 lines)")
        }
        _ => panic!("expected truncation"),
    }
}

#[test]
fn empty_working_tree_diff_wants_untracked_fallback() {
    let diff = DiffAssembler::new().finish("new.txt", DiffContext::WorkingTreeToIndex).unwrap();
    assert!(wants_untracked_fallback(&diff));
    let staged = DiffAssembler::new().finish("new.txt", DiffContext::IndexToHead).unwrap();
    assert!(!wants_untracked_fallback(&staged));
}

#[test]
fn untracked_file_becomes_one_added_hunk() {
    let diff = untracked_file_diff("New file line 1\nNew file line 2\n", "untracked.txt", DiffContext::WorkingTreeToIndex)
        .unwrap();
    assert_eq!(diff.file_path, "untracked.txt");
    assert!(!diff.binary);
    assert_eq!(diff.hunks.len(), 1);
    let hunk = &diff.hunks[0];
    assert_eq!(hunk.header.raw, "@@ -0,0 +1,2 @@");
    assert_eq!((hunk.header.old_start, hunk.header.old_lines), (0, 0));
    assert_eq!((hunk.header.new_start, hunk.header.new_lines), (1, 2));
    assert_eq!(hunk.lines[0].content, "New file line 1");
    assert_eq!(hunk.lines[1].content, "New file line 2");
    assert_eq!(hunk.lines[1].new_line_no, Some(2));
    assert_eq!(hunk.lines[1].old_line_no, None);
    assert!(hunk.lines.iter().all(|l| l.line_type == LineType::Addition));
}

#[test]
fn deleted_file_becomes_one_removed_hunk() {
    let diff = deleted_file_diff("a\r\nb", "gone.txt", DiffContext::WorkingTreeToIndex).unwrap();
    let hunk = &diff.hunks[0];
    assert_eq!(hunk.header.raw, "@@ -1,2 +0,0 @@");
    assert_eq!(hunk.lines[0].content, "a");
    assert_eq!(hunk.lines[1].content, "b");
    assert_eq!(hunk.lines[0].old_line_no, Some(1));
    assert_eq!(hunk.lines[0].new_line_no, None);
    assert!(hunk.lines.iter().all(|l| l.line_type == LineType::Deletion));
}

#[test]
fn synthetic_diff_rejects_control_characters_and_long_files() {
    match untracked_file_diff("ok\n\u{1b}[31m\n", "f", DiffContext::WorkingTreeToIndex) {
        Err(DiffError::TerminalCompatibility(m)) => {
            assert_eq!(m, "File contains problematic characters that may cause terminal issues")
        }
        _ => panic!("expected rejection"),
    }
    let long = "x\n".repeat(MAX_LINES_PER_DIFF + 1);
    match untracked_file_diff(&long, "f", DiffContext::WorkingTreeToIndex) {
        Err(DiffError::TerminalCompatibility(m)) => assert_eq!(m, "File too large (10001 lines) - cannot display diff"),
        _ => panic!("expected rejection"),
    }
    assert!(!contains_problematic_chars("tab\tand\r\nnewline"));
}

#[test]
fn synthetic_source_follows_where_the_file_exists() {
    assert!(matches!(synthetic_diff_source("f", true, false), Ok(SyntheticSource::WorkingTree)));
    assert!(matches!(synthetic_diff_source("f", false, true), Ok(SyntheticSource::Index)));
    assert!(matches!(synthetic_diff_source("f", false, false), Err(DiffError::FileNotFound(p)) if p == "f"));
    assert!(matches!(synthetic_diff_source("f", true, true),
        Err(DiffError::FileNotFound(p)) if p == "File f exists in both working tree and index"));
}

#[test]
fn size_and_binary_checks() {
    assert!(check_file_size("f", MAX_FILE_SIZE).is_ok());
    assert!(matches!(check_file_size("f", MAX_FILE_SIZE + 1), Err(DiffError::FileTooLarge(s, p)) if s == MAX_FILE_SIZE + 1 && p == "f"));
    assert!(!looks_binary(b"plain text\nwith lines\n"));
    assert!(looks_binary(&[0u8, 1, 2, 255, 254, 253]));
    let mut mostly_text = vec![b'a'; 200];
    mostly_text[0] = 0;
    assert!(!looks_binary(&mostly_text[..100]));
    assert!(looks_binary(&mostly_text[..99]));
}
