use mahgit::calendar::format_absolute_time;
use mahgit::diff::{Diff, DiffContext, DiffHunk, DiffLine, HunkHeader, LineRange, LineType};
use mahgit::log::{CommitTime, LogData, LogEntry};
use mahgit::repository::{CommitChangeType, CommitFileChange};
use mahgit::ui::diff_renderer::DiffRenderSettings;
use mahgit::ui::log_navigation::{CommitExpansion, LogCursor, LogNavigationState};
use mahgit::ui::log_view::{
    LogView, commit_message_lines, commit_metadata_line_count, commit_metadata_lines, relative_time,
};
use mahgit::ui::styled::{StyledText, ThemeColor};
use std::collections::{HashMap, HashSet};

fn sample_entry() -> LogEntry {
    LogEntry {
        oid: git2::Oid::zero(),
        short_hash: "0000000".to_string(),
        summary: "summary line".to_string(),
        message: "summary line\n\nbody line one\nbody line two\n".to_string(),
        author_name: "Alice".to_string(),
        author_email: "alice@example.com".to_string(),
        time: CommitTime::new(1000, 0),
        committer_name: "Alice".to_string(),
        committer_email: "alice@example.com".to_string(),
        committer_time: CommitTime::new(1000, 0),
    }
}

#[test]
fn test_relative_time_future() {
    assert_eq!(relative_time(100, 200), "in the future");
}

#[test]
fn test_relative_time_just_now() {
    assert_eq!(relative_time(1000, 1000), "just now");
    assert_eq!(relative_time(1059, 1000), "just now");
}

#[test]
fn test_relative_time_minutes() {
    assert_eq!(relative_time(1060, 1000), "1 minute ago");
    assert_eq!(relative_time(1120, 1000), "2 minutes ago");
}

#[test]
fn test_relative_time_hours() {
    assert_eq!(relative_time(3600, 0), "1 hour ago");
    assert_eq!(relative_time(7200, 0), "2 hours ago");
}

#[test]
fn test_relative_time_days_weeks_months_years() {
    assert_eq!(relative_time(86400, 0), "1 day ago");
    assert_eq!(relative_time(604800, 0), "1 week ago");
    assert_eq!(relative_time(2592000, 0), "1 month ago");
    assert_eq!(relative_time(31536000, 0), "1 year ago");
    assert_eq!(relative_time(63072000, 0), "2 years ago");
}

#[test]
fn test_relative_time_clock_before_epoch_does_not_panic() {
    assert_eq!(relative_time(0, 1000), "in the future");
}

#[test]
fn message_lines_drop_trailing_blank_lines() {
    assert_eq!(
        commit_message_lines("summary line\n\nbody line one\nbody line two\n"),
        vec!["summary line", "", "body line one", "body line two"]
    );
    assert_eq!(commit_message_lines("one\n\n  \t\n"), vec!["one"]);
    assert_eq!(commit_message_lines(""), vec![""]);
}

#[test]
fn metadata_count_adds_committer_line_only_when_distinct() {
    let entry = sample_entry();
    assert_eq!(commit_metadata_line_count(&entry), 2 + 1 + 4);
    let mut other = sample_entry();
    other.committer_name = "Bob".to_string();
    assert_eq!(commit_metadata_line_count(&other), 3 + 1 + 4);
}

fn joined(row: &[StyledText]) -> String {
    row.iter().map(|piece| piece.text.as_str()).collect()
}

#[test]
fn metadata_line_count_matches_rendered_lines_without_committer() {
    let entry = sample_entry();
    assert!(!entry.has_distinct_committer());
    assert_eq!(commit_metadata_lines(&entry).len(), commit_metadata_line_count(&entry));
}

#[test]
fn metadata_line_count_matches_rendered_lines_with_committer() {
    let mut entry = sample_entry();
    entry.committer_name = "Bob".to_string();
    entry.committer_time = CommitTime::new(2000, 0);
    assert!(entry.has_distinct_committer());
    assert_eq!(commit_metadata_lines(&entry).len(), commit_metadata_line_count(&entry));
}

#[test]
fn metadata_omits_committer_line_when_identical() {
    let entry = sample_entry();
    let text: Vec<String> = commit_metadata_lines(&entry).iter().map(|line| joined(line)).collect();
    assert!(text.iter().any(|l: &String| l.contains("Author")));
    assert!(!text.iter().any(|l: &String| l.contains("Committer")));
}

#[test]
fn metadata_includes_committer_line_when_distinct() {
    let mut entry = sample_entry();
    entry.committer_name = "Bob".to_string();
    let text: Vec<String> = commit_metadata_lines(&entry).iter().map(|line| joined(line)).collect();
    assert!(text.iter().any(|l: &String| l.contains("Committer")));
    assert!(text.iter().any(|l: &String| l.contains("Bob")));
}

#[test]
fn metadata_block_layout() {
    let entry = sample_entry();
    let lines = commit_metadata_lines(&entry);
    assert_eq!(joined(&lines[0]), format!("      Commit    {}", "0".repeat(40)));
    assert_eq!(lines[0][1].style.fg, Some(ThemeColor::LogHash));
    assert_eq!(joined(&lines[1]), "      Author    Alice <alice@example.com>  1970-01-01 00:16 +0000");
    assert!(lines[2].is_empty());
    assert_eq!(joined(&lines[3]), "      summary line");
    assert_eq!(joined(&lines[4]), "      ");
    assert_eq!(joined(&lines[6]), "      body line two");
}

#[test]
fn format_absolute_time_epoch_utc() {
    assert_eq!(format_absolute_time(&CommitTime::new(0, 0)), "1970-01-01 00:00 +0000");
}

#[test]
fn format_absolute_time_known_value() {
    assert_eq!(format_absolute_time(&CommitTime::new(1609459200, 0)), "2021-01-01 00:00 +0000");
}

#[test]
fn format_absolute_time_applies_offset() {
    assert_eq!(format_absolute_time(&CommitTime::new(1609459200, 120)), "2021-01-01 02:00 +0200");
    assert_eq!(format_absolute_time(&CommitTime::new(1609459200, -300)), "2020-12-31 19:00 -0500");
}

#[test]
fn format_absolute_time_handles_leap_day_and_old_dates() {
    assert_eq!(format_absolute_time(&CommitTime::new(951782400, 0)), "2000-02-29 00:00 +0000");
    assert_eq!(format_absolute_time(&CommitTime::new(-1, 0)), "1969-12-31 23:59 +0000");
    assert_eq!(format_absolute_time(&CommitTime::new(-62135596800, 0)), "0001-01-01 00:00 +0000");
    assert_eq!(format_absolute_time(&CommitTime::new(1700000000, 330)), "2023-11-15 03:43 +0530");
}

fn view_hunk(label: &str, line_count: usize) -> DiffHunk {
    DiffHunk {
        header: HunkHeader { raw: format!("@@ {label} @@"), old_start: 1, old_lines: 1, new_start: 1, new_lines: 1 },
        lines: (0..line_count)
            .map(|index| DiffLine {
                content: format!("line {index}"),
                line_type: LineType::Addition,
                old_line_no: None,
                new_line_no: Some(index + 1),
                inline_diff: None,
            })
            .collect(),
        old_range: LineRange { start: 1, count: 1 },
        new_range: LineRange { start: 1, count: 1 },
        stageable: false,
        context_lines: 0,
    }
}

fn expanded_commit(hunks: Vec<DiffHunk>) -> CommitExpansion {
    let mut file_diffs = HashMap::new();
    file_diffs.insert(
        0,
        Diff { file_path: "file.txt".to_string(), context: DiffContext::WorkingTreeToHead, hunks, binary: false },
    );
    let mut expanded_files = HashSet::new();
    expanded_files.insert(0);
    CommitExpansion {
        expanded: true,
        files: vec![CommitFileChange {
            path: "file.txt".to_string(),
            old_path: None,
            change_type: CommitChangeType::Added,
        }],
        file_diffs,
        expanded_files,
        collapsed_hunks: HashMap::new(),
    }
}

#[test]
fn log_list_rows_and_selection_follow_navigation() {
    let mut log_data = LogData::new("main".to_string());
    log_data.entries.push(sample_entry());
    log_data.entries.push(sample_entry());
    let mut navigation = LogNavigationState::new();
    navigation.set_expansion(0, expanded_commit(vec![view_hunk("a", 2), view_hunk("b", 1)]));
    navigation.cursor = Some(LogCursor::Hunk { commit_index: 0, file_index: 0, hunk_index: 1 });

    let settings = DiffRenderSettings { tab_width: 4, show_line_numbers: false };
    let view = LogView::new(&log_data, &navigation, settings);
    let list = view.list_items(1000 + 120);

    // commit row, 7 metadata rows, file row, hunk a (3 rows + separator), hunk b (2 rows + separator),
    // second commit, load more.
    assert_eq!(list.rows.len(), 1 + 7 + 1 + 4 + 3 + 1 + 1);
    assert_eq!(list.selected, navigation.cursor_flat_index(&log_data));
    assert_eq!(list.selected, Some(13));
    assert_eq!(joined(&list.rows[0]), "  ▾ 0000000 summary line Alice 2 minutes ago");
    assert_eq!(joined(&list.rows[8]), "    ▾ A file.txt");
    assert_eq!(joined(&list.rows[9]), "      ▾ @@ a @@");
    assert_eq!(joined(&list.rows[10]), "        | +line 0");
    assert_eq!(joined(&list.rows[13]), "      ▾ @@ b @@");
    assert_eq!(list.rows[13][0].style.bg, Some(ThemeColor::SelectedBg));
    assert_eq!(joined(&list.rows[16]), "  ▸ 0000000 summary line Alice 2 minutes ago");
    assert_eq!(joined(&list.rows[17]), "  ... (scroll down to load more)");
}

#[test]
fn log_list_marks_selected_commit_row() {
    let mut log_data = LogData::new("main".to_string());
    log_data.entries.push(sample_entry());
    log_data.has_more = false;
    let mut navigation = LogNavigationState::new();
    navigation.cursor = Some(LogCursor::Commit { index: 0 });
    let view = LogView::new(&log_data, &navigation, DiffRenderSettings { tab_width: 4, show_line_numbers: true });
    let list = view.list_items(1000);
    assert_eq!(list.rows.len(), 1);
    assert_eq!(list.selected, Some(0));
    assert_eq!(joined(&list.rows[0]), "> ▸ 0000000 summary line Alice just now");
    assert_eq!(list.rows[0][2].style.fg, Some(ThemeColor::SelectedFg));
}
