use mahgit::diff::{Diff, DiffContext, DiffHunk, DiffLine, HunkHeader, LineRange, LineType};
use mahgit::log::{CommitTime, LogData, LogEntry};
use mahgit::repository::{CommitChangeType, CommitFileChange};
use mahgit::ui::log_navigation::{CommitExpansion, ExpansionRequest, LogCursor, LogNavigationState};
use mahgit::ui::log_view::commit_metadata_line_count;
use std::collections::{HashMap, HashSet};

fn sample_hunk(label: &str, line_count: usize) -> DiffHunk {
    let lines = (0..line_count)
        .map(|index| DiffLine {
            content: format!("line {index}"),
            line_type: LineType::Context,
            old_line_no: Some(index + 1),
            new_line_no: Some(index + 1),
            inline_diff: None,
        })
        .collect();

    DiffHunk {
        header: HunkHeader {
            raw: format!("@@ {label} @@"),
            old_start: 1,
            old_lines: 1,
            new_start: 1,
            new_lines: 1,
        },
        lines,
        old_range: LineRange { start: 1, count: 1 },
        new_range: LineRange { start: 1, count: 1 },
        stageable: false,
        context_lines: 0,
    }
}

fn sample_diff(hunks: Vec<DiffHunk>) -> Diff {
    Diff {
        file_path: "file.txt".to_string(),
        context: DiffContext::WorkingTreeToHead,
        hunks,
        binary: false,
    }
}

fn sample_expansion(diff: Diff) -> CommitExpansion {
    let mut file_diffs = HashMap::new();
    file_diffs.insert(0, diff);

    let mut expanded_files = HashSet::new();
    expanded_files.insert(0);

    CommitExpansion {
        expanded: true,
        files: vec![CommitFileChange {
            path: "file.txt".to_string(),
            old_path: None,
            change_type: CommitChangeType::Modified,
        }],
        file_diffs,
        expanded_files,
        collapsed_hunks: HashMap::new(),
    }
}

fn entry(message: &str) -> LogEntry {
    LogEntry {
        oid: git2::Oid::zero(),
        short_hash: "0000000".to_string(),
        summary: "commit".to_string(),
        message: message.to_string(),
        author_name: "Test User".to_string(),
        author_email: "test@example.com".to_string(),
        time: CommitTime::new(0, 0),
        committer_name: "Test User".to_string(),
        committer_email: "test@example.com".to_string(),
        committer_time: CommitTime::new(0, 0),
    }
}

fn log_with(count: usize) -> LogData {
    let mut log_data = LogData::new("main".to_string());
    for _ in 0..count {
        log_data.entries.push(entry("commit"));
    }
    log_data
}

#[test]
fn collapse_file_from_hunk_cursor_collapses_parent_and_selects_file() {
    let mut navigation = LogNavigationState::new();
    navigation.set_expansion(0, sample_expansion(sample_diff(vec![sample_hunk("h1", 0)])));
    navigation.cursor = Some(LogCursor::Hunk { commit_index: 0, file_index: 0, hunk_index: 0 });

    navigation.collapse_file(0, 0);

    assert!(!navigation.is_file_expanded(0, 0));
    assert_eq!(navigation.current_cursor(), Some(LogCursor::File { commit_index: 0, file_index: 0 }));
}

#[test]
fn toggle_hunk_collapsed_keeps_file_expanded_and_cursor_on_hunk() {
    let mut navigation = LogNavigationState::new();
    navigation.set_expansion(0, sample_expansion(sample_diff(vec![sample_hunk("h1", 0)])));
    navigation.cursor = Some(LogCursor::Hunk { commit_index: 0, file_index: 0, hunk_index: 0 });

    navigation.toggle_hunk_collapsed(0, 0, 0);

    assert!(navigation.is_file_expanded(0, 0));
    assert!(navigation.is_hunk_collapsed(0, 0, 0));
    assert_eq!(
        navigation.current_cursor(),
        Some(LogCursor::Hunk { commit_index: 0, file_index: 0, hunk_index: 0 })
    );

    navigation.toggle_hunk_collapsed(0, 0, 0);

    assert!(!navigation.is_hunk_collapsed(0, 0, 0));
}

#[test]
fn update_viewport_metrics_reclamps_scroll_offset_when_content_shrinks() {
    let mut navigation = LogNavigationState::new();

    navigation.update_viewport_metrics(10, 100);
    navigation.scroll_viewport_down(90);
    assert_eq!(navigation.scroll_offset(), 90);

    navigation.update_viewport_metrics(10, 20);
    assert_eq!(navigation.scroll_offset(), 10);
}

#[test]
fn cursor_flat_index_counts_collapsed_hunk_as_header_only() {
    let mut log_data = LogData::new("main".to_string());
    let entry = entry("commit");
    let metadata_lines = commit_metadata_line_count(&entry);
    log_data.entries.push(entry);

    let mut navigation = LogNavigationState::new();
    navigation.set_expansion(0, sample_expansion(sample_diff(vec![sample_hunk("h1", 2), sample_hunk("h2", 1)])));
    navigation.toggle_hunk_collapsed(0, 0, 0);
    navigation.cursor = Some(LogCursor::Hunk { commit_index: 0, file_index: 0, hunk_index: 1 });

    assert_eq!(navigation.cursor_flat_index(&log_data), Some(4 + metadata_lines));
}

#[test]
fn next_walks_into_expanded_commit_and_back_up() {
    let log_data = log_with(3);
    let mut navigation = LogNavigationState::new();
    navigation.set_expansion(1, sample_expansion(sample_diff(vec![sample_hunk("h1", 1), sample_hunk("h2", 1)])));

    let expected = vec![
        LogCursor::Commit { index: 0 },
        LogCursor::Commit { index: 1 },
        LogCursor::File { commit_index: 1, file_index: 0 },
        LogCursor::Hunk { commit_index: 1, file_index: 0, hunk_index: 0 },
        LogCursor::Hunk { commit_index: 1, file_index: 0, hunk_index: 1 },
        LogCursor::Commit { index: 2 },
    ];
    for (step, cursor) in expected.iter().enumerate() {
        assert_eq!(navigation.current_cursor(), Some(*cursor), "step {step}");
        navigation.move_to_next(&log_data);
    }
    assert_eq!(navigation.current_cursor(), Some(LogCursor::Commit { index: 2 }));
    for cursor in expected.iter().rev().skip(1) {
        navigation.move_to_previous(&log_data);
        assert_eq!(navigation.current_cursor(), Some(*cursor));
    }
    navigation.move_to_previous(&log_data);
    assert_eq!(navigation.current_cursor(), Some(LogCursor::Commit { index: 0 }));
}

#[test]
fn move_to_bottom_lands_on_last_hunk_of_last_commit() {
    let log_data = log_with(2);
    let mut navigation = LogNavigationState::new();
    navigation.set_expansion(1, sample_expansion(sample_diff(vec![sample_hunk("h1", 1), sample_hunk("h2", 3)])));
    navigation.move_to_bottom(&log_data);
    assert_eq!(
        navigation.current_cursor(),
        Some(LogCursor::Hunk { commit_index: 1, file_index: 0, hunk_index: 1 })
    );
    navigation.move_up_hierarchy();
    assert_eq!(navigation.current_cursor(), Some(LogCursor::File { commit_index: 1, file_index: 0 }));
    navigation.move_up_hierarchy();
    assert_eq!(navigation.current_cursor(), Some(LogCursor::Commit { index: 1 }));
    navigation.move_to_top(&log_data);
    assert_eq!(navigation.current_cursor(), Some(LogCursor::Commit { index: 0 }));
}

#[test]
fn page_down_stops_at_last_row() {
    let log_data = log_with(10);
    let mut navigation = LogNavigationState::new();
    navigation.update_viewport_metrics(6, 10);
    navigation.page_down(&log_data);
    assert_eq!(navigation.current_cursor(), Some(LogCursor::Commit { index: 4 }));
    navigation.page_down(&log_data);
    navigation.page_down(&log_data);
    assert_eq!(navigation.current_cursor(), Some(LogCursor::Commit { index: 9 }));
    navigation.page_up(&log_data);
    assert_eq!(navigation.current_cursor(), Some(LogCursor::Commit { index: 5 }));
    assert!(!navigation.is_manual_scroll_active());
}

#[test]
fn ensure_cursor_valid_clamps_and_clears() {
    let mut navigation = LogNavigationState::new();
    navigation.cursor = Some(LogCursor::Commit { index: 7 });
    navigation.ensure_cursor_valid(&log_with(3));
    assert_eq!(navigation.current_cursor(), Some(LogCursor::Commit { index: 2 }));
    navigation.ensure_cursor_valid(&log_with(0));
    assert_eq!(navigation.current_cursor(), None);
    navigation.ensure_cursor_valid(&log_with(1));
    assert_eq!(navigation.current_cursor(), Some(LogCursor::Commit { index: 0 }));
}

#[test]
fn flat_index_of_commit_after_expanded_one_counts_its_rows() {
    let log_data = log_with(2);
    let mut navigation = LogNavigationState::new();
    navigation.set_expansion(0, sample_expansion(sample_diff(vec![sample_hunk("h1", 2)])));
    navigation.cursor = Some(LogCursor::Commit { index: 1 });
    let metadata = commit_metadata_line_count(&log_data.entries[0]);
    // commit row, metadata, file row, hunk header, two lines
    assert_eq!(navigation.cursor_flat_index(&log_data), Some(1 + metadata + 1 + 1 + 2));
    navigation.cursor = Some(LogCursor::Commit { index: 5 });
    assert_eq!(navigation.cursor_flat_index(&log_data), None);
}

#[test]
fn get_expansion_mut_writes_through() {
    let mut navigation = LogNavigationState::new();
    navigation.set_expansion(0, sample_expansion(sample_diff(vec![sample_hunk("h1", 1)])));
    assert!(navigation.is_commit_expanded(0));
    if let Some(expansion) = navigation.get_expansion_mut(0) {
        expansion.expanded = false;
    }
    assert!(!navigation.is_commit_expanded(0));
    assert!(navigation.get_expansion_mut(3).is_none());
    assert!(navigation.get_expansion(0).is_some());
}

#[test]
fn scrolling_is_clamped_to_max_offset() {
    let mut navigation = LogNavigationState::new();
    navigation.update_viewport_metrics(10, 15);
    navigation.scroll_viewport_down(usize::MAX);
    assert_eq!(navigation.scroll_offset(), 5);
    navigation.scroll_viewport_up(2);
    assert_eq!(navigation.scroll_offset(), 3);
    assert!(navigation.is_manual_scroll_active());
    navigation.clear_manual_scroll();
    assert!(!navigation.is_manual_scroll_active());
    assert_eq!(navigation.viewport_height(), 10);
}

#[test]
fn toggle_expansion_requests_what_is_missing_and_toggles_what_is_loaded() {
    let log_data = log_with(2);
    let mut navigation = LogNavigationState::new();
    navigation.cursor = Some(LogCursor::Commit { index: 1 });
    assert_eq!(navigation.toggle_expansion(&log_data), ExpansionRequest::LoadCommitFiles { commit_index: 1 });
    assert!(!navigation.is_commit_expanded(1));

    navigation.set_expansion(1, CommitExpansion::with_files(vec![CommitFileChange {
        path: "a.txt".to_string(),
        old_path: None,
        change_type: CommitChangeType::Added,
    }]));
    assert!(navigation.is_commit_expanded(1));
    assert_eq!(navigation.toggle_expansion(&log_data), ExpansionRequest::Nothing);
    assert!(!navigation.is_commit_expanded(1));
    assert_eq!(navigation.toggle_expansion(&log_data), ExpansionRequest::Nothing);
    assert!(navigation.is_commit_expanded(1));

    navigation.cursor = Some(LogCursor::File { commit_index: 1, file_index: 0 });
    assert_eq!(
        navigation.toggle_expansion(&log_data),
        ExpansionRequest::LoadFileDiff { commit_index: 1, file_index: 0 }
    );
    navigation.attach_file_diff(1, 0, sample_diff(vec![sample_hunk("h", 1)]));
    assert!(navigation.is_file_expanded(1, 0));
    assert_eq!(navigation.toggle_expansion(&log_data), ExpansionRequest::Nothing);
    assert!(!navigation.is_file_expanded(1, 0));
    assert_eq!(navigation.toggle_expansion(&log_data), ExpansionRequest::Nothing);
    assert!(navigation.is_file_expanded(1, 0));

    navigation.cursor = Some(LogCursor::Hunk { commit_index: 1, file_index: 0, hunk_index: 0 });
    assert_eq!(navigation.toggle_expansion(&log_data), ExpansionRequest::Nothing);
    assert!(navigation.is_hunk_collapsed(1, 0, 0));
}
