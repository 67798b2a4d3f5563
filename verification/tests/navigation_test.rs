use mahgit::diff::{Diff, DiffContext, DiffHunk, DiffLine, HunkHeader, LineRange, LineType};
use mahgit::status::{FileEntry, FileStatus, RepositoryStatus};
use mahgit::ui::navigation::{FileContext, FileDiffKey, NavigationState, SelectionCursor, StatusSection};

fn create_file_entry(path: &str, status: FileStatus) -> FileEntry {
    FileEntry::new(path.to_string(), status)
}

fn create_test_status_with_files() -> RepositoryStatus {
    RepositoryStatus {
        branch_name: "main".to_string(),
        staged: vec![
            create_file_entry("staged1.txt", FileStatus::Added),
            create_file_entry("staged2.txt", FileStatus::Modified),
        ],
        unstaged: vec![
            create_file_entry("unstaged1.txt", FileStatus::Modified),
            create_file_entry("unstaged2.txt", FileStatus::Deleted),
            create_file_entry("unstaged3.txt", FileStatus::Modified),
        ],
        untracked: vec!["untracked1.txt".to_string()],
        conflicted: vec!["conflicted1.txt".to_string(), "conflicted2.txt".to_string()],
    }
}

fn create_single_section_status() -> RepositoryStatus {
    RepositoryStatus {
        branch_name: "main".to_string(),
        staged: vec![],
        unstaged: vec![
            create_file_entry("file1.txt", FileStatus::Modified),
            create_file_entry("file2.txt", FileStatus::Modified),
        ],
        untracked: vec![],
        conflicted: vec![],
    }
}

fn sample_hunk(label: &str) -> DiffHunk {
    DiffHunk {
        header: HunkHeader {
            raw: format!("@@ {label} @@"),
            old_start: 1,
            old_lines: 1,
            new_start: 1,
            new_lines: 1,
        },
        lines: vec![DiffLine {
            content: "line".into(),
            line_type: LineType::Context,
            old_line_no: Some(1),
            new_line_no: Some(1),
            inline_diff: None,
        }],
        old_range: LineRange { start: 1, count: 1 },
        new_range: LineRange { start: 1, count: 1 },
        stageable: true,
        context_lines: 0,
    }
}

fn two_hunk_diff(path: &str) -> Diff {
    Diff {
        file_path: path.to_string(),
        context: DiffContext::WorkingTreeToIndex,
        hunks: vec![sample_hunk("h1"), sample_hunk("h2")],
        binary: false,
    }
}

#[test]
fn initial_cursor_points_to_first_file() {
    let status = create_test_status_with_files();
    let nav = NavigationState::new(&status);

    assert!(matches!(
        nav.current_cursor(),
        Some(SelectionCursor::File {
            section: StatusSection::Conflicted,
            file_index: 0
        })
    ));
}

#[test]
fn move_next_traverses_hunks_then_files() {
    let status = create_single_section_status();
    let mut nav = NavigationState::new(&status);
    let diff_key = FileDiffKey::new(status.unstaged_files()[0].path.clone(), FileContext::Unstaged);
    let diff = two_hunk_diff(&diff_key.path);
    nav.set_file_diff(diff_key.clone(), diff, DiffContext::WorkingTreeToIndex);

    nav.move_to_next(&status);
    assert!(matches!(
        nav.current_cursor(),
        Some(SelectionCursor::Hunk {
            section: StatusSection::Unstaged,
            file_index: 0,
            hunk_index: 0
        })
    ));

    nav.move_to_next(&status);
    assert!(matches!(
        nav.current_cursor(),
        Some(SelectionCursor::Hunk {
            section: StatusSection::Unstaged,
            file_index: 0,
            hunk_index: 1
        })
    ));

    nav.move_to_next(&status);
    assert!(matches!(
        nav.current_cursor(),
        Some(SelectionCursor::File {
            section: StatusSection::Unstaged,
            file_index: 1
        })
    ));
}

#[test]
fn move_previous_steps_into_previous_file_hunk() {
    let status = create_single_section_status();
    let mut nav = NavigationState::new(&status);
    let diff_key = FileDiffKey::new(status.unstaged_files()[0].path.clone(), FileContext::Unstaged);
    let diff = two_hunk_diff(&diff_key.path);
    nav.set_file_diff(diff_key.clone(), diff, DiffContext::WorkingTreeToIndex);

    nav.move_to_bottom(&status);
    assert!(matches!(
        nav.current_cursor(),
        Some(SelectionCursor::File {
            section: StatusSection::Unstaged,
            file_index: 1
        })
    ));

    nav.move_to_previous(&status);
    assert!(matches!(
        nav.current_cursor(),
        Some(SelectionCursor::Hunk {
            section: StatusSection::Unstaged,
            file_index: 0,
            hunk_index: 1
        })
    ));

    nav.move_to_previous(&status);
    assert!(matches!(
        nav.current_cursor(),
        Some(SelectionCursor::Hunk {
            section: StatusSection::Unstaged,
            file_index: 0,
            hunk_index: 0
        })
    ));
}

#[test]
fn hunk_cursor_downgrades_when_diff_missing() {
    let status = create_single_section_status();
    let mut nav = NavigationState::new(&status);
    let diff_key = FileDiffKey::new(status.unstaged_files()[0].path.clone(), FileContext::Unstaged);
    nav.set_file_diff(
        diff_key.clone(),
        Diff {
            file_path: diff_key.path.clone(),
            context: DiffContext::WorkingTreeToIndex,
            hunks: vec![sample_hunk("h1")],
            binary: false,
        },
        DiffContext::WorkingTreeToIndex,
    );
    nav.apply_cursor(
        &status,
        Some(SelectionCursor::Hunk {
            section: StatusSection::Unstaged,
            file_index: 0,
            hunk_index: 0,
        }),
    );
    nav.clear_diff_cache();
    nav.ensure_cursor_valid(&status);

    assert!(matches!(
        nav.current_cursor(),
        Some(SelectionCursor::File {
            section: StatusSection::Unstaged,
            file_index: 0
        })
    ));
}

#[test]
fn move_to_bottom_selects_last_file() {
    let status = create_test_status_with_files();
    let mut nav = NavigationState::new(&status);
    nav.move_to_bottom(&status);

    assert!(matches!(
        nav.current_cursor(),
        Some(SelectionCursor::File {
            section: StatusSection::Staged,
            file_index: 1
        })
    ));
}

#[test]
fn page_scroll_down_increases_offset() {
    let status = create_single_section_status();
    let mut nav = NavigationState::new(&status);

    nav.update_viewport_metrics(20, 100, &[]);
    assert_eq!(nav.scroll_offset(), 0);

    nav.scroll_viewport_down(20);
    assert_eq!(nav.scroll_offset(), 20);
    assert!(nav.is_manual_scroll_active());
}

#[test]
fn page_scroll_down_continues_past_max_offset() {
    let status = create_single_section_status();
    let mut nav = NavigationState::new(&status);

    nav.update_viewport_metrics(20, 50, &[]);

    nav.scroll_viewport_down(25);
    assert_eq!(nav.scroll_offset(), 25);

    nav.scroll_viewport_down(20);
    assert_eq!(nav.scroll_offset(), 45);

    nav.update_viewport_metrics(20, 50, &[]);
    assert_eq!(nav.scroll_offset(), 30);
    assert!(nav.is_manual_scroll_active());
}

#[test]
fn multiple_page_downs_then_page_ups() {
    let status = create_single_section_status();
    let mut nav = NavigationState::new(&status);

    nav.update_viewport_metrics(20, 100, &[]);

    nav.scroll_viewport_down(20);
    nav.scroll_viewport_down(20);
    assert_eq!(nav.scroll_offset(), 40);

    nav.scroll_viewport_up(20);
    assert_eq!(nav.scroll_offset(), 20);
    nav.scroll_viewport_up(20);
    assert_eq!(nav.scroll_offset(), 0);
}

#[test]
fn manual_scroll_persists_across_page_scrolls() {
    let status = create_single_section_status();
    let mut nav = NavigationState::new(&status);

    nav.update_viewport_metrics(20, 100, &[]);

    assert!(!nav.is_manual_scroll_active());

    nav.scroll_viewport_down(20);
    assert!(nav.is_manual_scroll_active());

    nav.scroll_viewport_down(20);
    assert!(nav.is_manual_scroll_active());

    nav.scroll_viewport_up(10);
    assert!(nav.is_manual_scroll_active());
}

#[test]
fn scroll_viewport_down_without_clamping() {
    let status = create_single_section_status();
    let mut nav = NavigationState::new(&status);

    nav.update_viewport_metrics(20, 50, &[]);

    nav.scroll_viewport_down(30);
    assert_eq!(nav.scroll_offset(), 30);

    nav.scroll_viewport_down(20);
    assert_eq!(nav.scroll_offset(), 50);
}

#[test]
fn next_then_previous_returns_to_the_same_cursor() {
    let status = create_test_status_with_files();
    let mut nav = NavigationState::new(&status);
    let key = FileDiffKey::new("unstaged2.txt".to_string(), FileContext::Unstaged);
    let diff = two_hunk_diff("unstaged2.txt");
    nav.set_file_diff(key, diff, DiffContext::WorkingTreeToIndex);
    for _ in 0..9 {
        let before = nav.current_cursor();
        nav.move_to_next(&status);
        nav.move_to_previous(&status);
        assert_eq!(nav.current_cursor(), before);
        nav.move_to_next(&status);
    }
}

#[test]
fn section_collapse_toggles_without_moving_cursor() {
    let status = create_test_status_with_files();
    let mut nav = NavigationState::new(&status);
    nav.toggle_section_collapsed(StatusSection::Unstaged);
    assert!(nav.is_section_collapsed(StatusSection::Unstaged));
    assert!(!nav.is_section_collapsed(StatusSection::Staged));
    nav.move_to_next(&status);
    nav.move_to_next(&status);
    assert!(matches!(
        nav.current_cursor(),
        Some(SelectionCursor::File {
            section: StatusSection::Unstaged,
            file_index: 0
        })
    ));
    nav.toggle_section_collapsed(StatusSection::Unstaged);
    assert!(!nav.is_section_collapsed(StatusSection::Unstaged));
}

#[test]
fn empty_status_has_no_cursor() {
    let status = RepositoryStatus::empty();
    let nav = NavigationState::new(&status);
    assert!(nav.current_cursor().is_none());
    assert!(!nav.has_selections());
}

#[test]
fn scroll_up_saturates_at_zero() {
    let status = create_single_section_status();
    let mut nav = NavigationState::new(&status);
    nav.update_viewport_metrics(20, 100, &[]);
    nav.scroll_viewport_down(5);
    nav.scroll_viewport_up(50);
    assert_eq!(nav.scroll_offset(), 0);
}
