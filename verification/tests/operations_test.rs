use mahgit::diff::{DiffHunk, DiffLine, HunkHeader, LineRange, LineType};
use mahgit::operations::commit::{
    default_commit_template, prepare_commit_with, read_message_from_text, uses_head_message, CommitFlags,
};
use mahgit::operations::editor::{choose_editor, editor_command};
use mahgit::operations::discard::{discard_file_result, discard_hunk_plan, generate_discard_patch};
use mahgit::operations::staging::{
    file_operation_result, generate_stage_patch, generate_unstage_patch, stage_hunk_plan, unstage_hunk_plan,
};
use mahgit::repository::{normalize_repo_relative_path_with_options, RepositoryError};
use mahgit::ui::input::CommitMode;

fn line(t: LineType, content: &str) -> DiffLine {
    DiffLine { content: content.to_string(), line_type: t, old_line_no: None, new_line_no: None, inline_diff: None }
}

fn sample_hunk() -> DiffHunk {
    DiffHunk {
        header: HunkHeader { raw: "@@ -1,3 +1,4 @@ fn main()\n".to_string(), old_start: 1, old_lines: 3, new_start: 1, new_lines: 4 },
        lines: vec![
            line(LineType::Context, "line1"),
            line(LineType::Deletion, "old"),
            line(LineType::Addition, "new"),
            line(LineType::Addition, "extra"),
        ],
        old_range: LineRange { start: 1, count: 3 },
        new_range: LineRange { start: 1, count: 4 },
        stageable: true,
        context_lines: 3,
    }
}

const HEADER: &str = "diff --git a/src/a.rs b/src/a.rs\nindex 0000000..0000000 100644\n--- a/src/a.rs\n+++ b/src/a.rs\n";

#[test]
fn stage_patch_keeps_markers_and_trims_header() {
    let patch = generate_stage_patch("src/a.rs", &sample_hunk());
    let expected = format!("{HEADER}@@ -1,3 +1,4 @@ fn main()\n line1\n-old\n+new\n+extra\n");
    assert_eq!(patch, expected);
}

#[test]
fn unstage_patch_swaps_sides() {
    let patch = generate_unstage_patch("src/a.rs", &sample_hunk());
    let expected = format!("{HEADER}@@ -1,4 +1,3 @@\n line1\n+old\n-new\n-extra\n");
    assert_eq!(patch, expected);
}

#[test]
fn discard_patch_writes_content_as_is() {
    let mut hunk = sample_hunk();
    hunk.lines = vec![line(LineType::Deletion, "old\n"), line(LineType::Addition, "new"), line(LineType::NoNewlineEOF, "x")];
    let patch = generate_discard_patch("src/a.rs", &hunk);
    let expected = format!("{HEADER}@@ -1,3 +1,4 @@ fn main()\n-old\n+new\\ No newline at end of file\n");
    assert_eq!(patch, expected);
}

#[test]
fn hunk_plans_refuse_unstageable_hunks_and_name_line_ranges() {
    let plan = stage_hunk_plan("f.txt", &sample_hunk()).ok().unwrap();
    assert_eq!(plan.message, "Staged hunk in f.txt (lines 1-4)");
    let plan = unstage_hunk_plan("f.txt", &sample_hunk()).ok().unwrap();
    assert_eq!(plan.message, "Unstaged hunk in f.txt (lines 1-5)");
    let plan = discard_hunk_plan("f.txt", &sample_hunk()).ok().unwrap();
    assert_eq!(plan.message, "Discarded hunk in f.txt (lines 1-4)");
    let mut binary = sample_hunk();
    binary.stageable = false;
    assert!(matches!(stage_hunk_plan("f", &binary),
        Err(RepositoryError::Other(m)) if m == "Hunk is not stageable (e.g., binary file or conflict)"));
    assert!(matches!(discard_hunk_plan("f", &binary),
        Err(RepositoryError::Other(m)) if m == "Hunk is not discardable (e.g., binary file or conflict)"));
}

#[test]
fn file_operation_messages() {
    assert_eq!(file_operation_result("Staged", "a.txt").message, "Staged a.txt");
    assert_eq!(file_operation_result("Added", "test.txt").message, "Added test.txt");
    assert_eq!(discard_file_result("a.txt", true).message, "Discarded changes to a.txt");
    assert_eq!(discard_file_result("a.txt", false).message, "Deleted untracked file a.txt");
}

#[test]
fn commit_message_drops_comments_and_trims() {
    let content = "  Subject line  \n\n# comment\n   # indented comment\nBody\n\n";
    assert_eq!(read_message_from_text(content).ok().unwrap(), "Subject line  \n\nBody");
    assert!(matches!(read_message_from_text("# only\n\n   \n"),
        Err(RepositoryError::Other(m)) if m == "Aborting commit due to empty commit message"));
    assert!(matches!(read_message_from_text(&default_commit_template()), Err(RepositoryError::Other(_))));
}

#[test]
fn commit_preparation_flags_follow_mode() {
    let normal = prepare_commit_with(CommitMode::Normal, "t".to_string());
    assert_eq!(normal.flags, CommitFlags::default());
    assert!(!uses_head_message(CommitMode::Normal));
    let amend = prepare_commit_with(CommitMode::Amend, "m".to_string());
    assert!(amend.flags.amend && !amend.flags.no_edit);
    let extend = prepare_commit_with(CommitMode::Extend, "m".to_string());
    assert!(extend.flags.amend && extend.flags.no_edit);
    let reword = prepare_commit_with(CommitMode::Reword, "m".to_string());
    assert!(reword.flags.amend && !reword.flags.no_edit);
    assert_eq!(reword.message_template, "m");
    assert!(uses_head_message(CommitMode::Reword));
    let quick = prepare_commit_with(CommitMode::NoVerify, "t".to_string());
    assert!(quick.flags.skip_hooks && !quick.flags.amend);
}

#[test]
fn repo_relative_paths_are_normalized() {
    let norm = |p: &str, empty: bool| match normalize_repo_relative_path_with_options(p, empty) {
        Ok(s) => Ok(s),
        Err(RepositoryError::Other(m)) => Err(m),
        Err(_) => Err("other".to_string()),
    };
    assert_eq!(norm("a/./b//c/", false), Ok("a/b/c".to_string()));
    assert_eq!(norm("a/../b", false), Ok("b".to_string()));
    assert_eq!(norm("../x", false), Ok("../x".to_string()));
    assert_eq!(norm("../..", true), Ok("".to_string()));
    assert_eq!(norm(".", false), Err("Path cannot be empty".to_string()));
    assert_eq!(norm("/etc/passwd", false), Err("Path '/etc/passwd' must be relative to repository root".to_string()));
}

fn numbered(t: LineType, content: &str, old: Option<usize>, new: Option<usize>) -> DiffLine {
    DiffLine { content: content.to_string(), line_type: t, old_line_no: old, new_line_no: new, inline_diff: None }
}

fn two_to_three_hunk(with_added_line: bool) -> DiffHunk {
    let mut lines = vec![
        numbered(LineType::Context, "line 1", Some(1), Some(1)),
        numbered(LineType::Deletion, "line 2", Some(2), None),
        numbered(LineType::Addition, "new line 2", None, Some(2)),
    ];
    if with_added_line {
        lines.push(numbered(LineType::Addition, "added line", None, Some(3)));
    }
    DiffHunk {
        header: HunkHeader { raw: "@@ -1,2 +1,3 @@".to_string(), old_start: 1, old_lines: 2, new_start: 1, new_lines: 3 },
        lines,
        old_range: LineRange { start: 1, count: 2 },
        new_range: LineRange { start: 1, count: 3 },
        stageable: true,
        context_lines: 3,
    }
}

#[test]
fn test_generate_stage_patch() {
    let patch_str = generate_stage_patch("test.txt", &two_to_three_hunk(true));
    assert!(patch_str.contains("diff --git a/test.txt b/test.txt"));
    assert!(patch_str.contains("--- a/test.txt"));
    assert!(patch_str.contains("+++ b/test.txt"));
    assert!(patch_str.contains("@@ -1,2 +1,3 @@"));
    assert!(patch_str.contains(" line 1"));
    assert!(patch_str.contains("-line 2"));
    assert!(patch_str.contains("+new line 2"));
    assert!(patch_str.contains("+added line"));
}

#[test]
fn test_generate_unstage_patch() {
    let patch_str = generate_unstage_patch("test.txt", &two_to_three_hunk(false));
    assert!(patch_str.contains("diff --git a/test.txt b/test.txt"));
    assert!(patch_str.contains("--- a/test.txt"));
    assert!(patch_str.contains("+++ b/test.txt"));
    assert!(patch_str.contains("@@ -1,3 +1,2 @@"));
    assert!(patch_str.contains(" line 1"));
    assert!(patch_str.contains("+line 2"));
    assert!(patch_str.contains("-new line 2"));
}

#[test]
fn test_staging_non_stageable_hunk() {
    let hunk = DiffHunk {
        header: HunkHeader { raw: "@@ -1,1 +1,1 @@".to_string(), old_start: 1, old_lines: 1, new_start: 1, new_lines: 1 },
        lines: vec![numbered(LineType::Context, "test", Some(1), Some(1))],
        old_range: LineRange { start: 1, count: 1 },
        new_range: LineRange { start: 1, count: 1 },
        stageable: false,
        context_lines: 3,
    };
    let result = stage_hunk_plan("test.txt", &hunk);
    assert!(result.is_err());
    match result {
        Err(RepositoryError::Other(msg)) => assert!(msg.contains("not stageable")),
        _ => panic!("Expected 'not stageable' error"),
    }
}

#[test]
fn test_generate_discard_patch() {
    let hunk = DiffHunk {
        header: HunkHeader { raw: "@@ -1,3 +1,3 @@\n".to_string(), old_start: 1, old_lines: 3, new_start: 1, new_lines: 3 },
        lines: vec![
            numbered(LineType::Context, "line 1\n", Some(1), Some(1)),
            numbered(LineType::Deletion, "line 2\n", Some(2), None),
            numbered(LineType::Addition, "new line 2\n", None, Some(2)),
            numbered(LineType::Context, "line 3\n", Some(3), Some(3)),
        ],
        old_range: LineRange { start: 1, count: 3 },
        new_range: LineRange { start: 1, count: 3 },
        stageable: true,
        context_lines: 3,
    };
    let patch_str = generate_discard_patch("test.txt", &hunk);
    assert!(patch_str.contains("diff --git a/test.txt b/test.txt"));
    assert!(patch_str.contains("--- a/test.txt"));
    assert!(patch_str.contains("+++ b/test.txt"));
    assert!(patch_str.contains("@@ -1,3 +1,3 @@"));
    assert!(patch_str.contains(" line 1"));
    assert!(patch_str.contains("-line 2"));
    assert!(patch_str.contains("+new line 2"));
    assert!(patch_str.contains(" line 3"));
}

#[test]
fn test_discard_patch_with_no_newline_eof() {
    let hunk = DiffHunk {
        header: HunkHeader { raw: "@@ -1,2 +1,2 @@\n".to_string(), old_start: 1, old_lines: 2, new_start: 1, new_lines: 2 },
        lines: vec![
            numbered(LineType::Context, "line 1\n", Some(1), Some(1)),
            numbered(LineType::Addition, "line 2 no newline", None, Some(2)),
            numbered(LineType::NoNewlineEOF, "", None, None),
        ],
        old_range: LineRange { start: 1, count: 2 },
        new_range: LineRange { start: 1, count: 2 },
        stageable: true,
        context_lines: 3,
    };
    let patch_str = generate_discard_patch("test.txt", &hunk);
    assert!(patch_str.contains("\\ No newline at end of file"));
}

#[test]
fn test_discard_non_stageable_hunk() {
    let hunk = DiffHunk {
        header: HunkHeader { raw: "@@ -1,2 +1,2 @@\n".to_string(), old_start: 1, old_lines: 2, new_start: 1, new_lines: 2 },
        lines: vec![],
        old_range: LineRange { start: 1, count: 2 },
        new_range: LineRange { start: 1, count: 2 },
        stageable: false,
        context_lines: 3,
    };
    let result = discard_hunk_plan("test.txt", &hunk);
    assert!(result.is_err());
    match result {
        Err(RepositoryError::Other(msg)) => assert!(msg.contains("not discardable")),
        _ => panic!("Expected Other error"),
    }
}

#[test]
fn test_prepare_normal_commit() {
    let preparation = prepare_commit_with(CommitMode::Normal, default_commit_template());
    assert!(matches!(preparation.mode, CommitMode::Normal));
    assert!(!preparation.flags.amend);
    assert!(!preparation.flags.no_edit);
    assert!(!preparation.flags.skip_hooks);
    assert!(preparation.message_template.contains("Please enter the commit message"));
}

#[test]
fn editor_follows_git_precedence_and_skips_blank_settings() {
    let some = |s: &str| Some(s.to_string());
    assert_eq!(choose_editor(some("nano"), some("vim"), some("code"), some("ed")), "nano");
    assert_eq!(choose_editor(some("   "), some("vim"), None, None), "vim");
    assert_eq!(choose_editor(None, None, some("code --wait"), some("ed")), "code --wait");
    assert_eq!(choose_editor(None, some(""), None, some("ed")), "ed");
    assert_eq!(choose_editor(None, None, None, None), "vi");
}

#[test]
fn editor_command_splits_program_from_arguments() {
    match editor_command("  code   --wait\t-n ") {
        Ok((program, args)) => {
            assert_eq!(program, "code");
            assert_eq!(args, vec!["--wait".to_string(), "-n".to_string()]);
        }
        Err(_) => panic!("expected a command"),
    }
    assert!(matches!(editor_command("vi"), Ok((p, a)) if p == "vi" && a.is_empty()));
    assert!(matches!(editor_command(" \t "), Err(RepositoryError::Other(m)) if m == "Editor command is empty"));
}

#[test]
fn test_resolve_editor_fallback() {
    let editor = choose_editor(None, None, None, None);
    assert!(editor == "vi" || !editor.is_empty());
}

#[test]
fn test_create_and_read_message_file() {
    let message = read_message_from_text("Test message\n# Comment line\nMore content").unwrap();
    assert_eq!(message, "Test message\nMore content");
}

#[test]
fn test_read_message_rejects_empty() {
    let result = read_message_from_text("# Only comments\n# More comments");
    assert!(result.is_err());
    assert!(result.unwrap_err().to_display_string().contains("empty commit message"));
}

#[test]
fn test_commit_with_empty_message_fails() {
    let result = read_message_from_text("# Only comments\n# More comments\n");
    assert!(result.is_err());
    assert!(result.unwrap_err().to_display_string().contains("empty commit message"));
}

#[test]
fn test_commit_message_filtering() {
    let message =
        read_message_from_text("Actual commit message\n\n# This is a comment\nSecond line\n# Another comment\n").unwrap();
    assert_eq!(message, "Actual commit message\n\nSecond line");
}
