use mahgit::diff::navigator::HunkNavigator;
use mahgit::diff::{Diff, DiffContext, DiffHunk, DiffLine, HunkHeader, LineRange, LineType};

fn create_test_diff_with_multiple_hunks() -> Diff {
    let hunk1 = DiffHunk {
        header: HunkHeader {
            raw: "@@ -1,3 +1,4 @@".to_string(),
            old_start: 1,
            old_lines: 3,
            new_start: 1,
            new_lines: 4,
        },
        old_range: LineRange { start: 1, count: 3 },
        new_range: LineRange { start: 1, count: 4 },
        stageable: true,
        context_lines: 3,
        lines: vec![
            DiffLine {
                content: "line 1".to_string(),
                line_type: LineType::Context,
                old_line_no: Some(1),
                new_line_no: Some(1),
                inline_diff: None,
            },
            DiffLine {
                content: "old line".to_string(),
                line_type: LineType::Deletion,
                old_line_no: Some(2),
                new_line_no: None,
                inline_diff: None,
            },
            DiffLine {
                content: "new line".to_string(),
                line_type: LineType::Addition,
                old_line_no: None,
                new_line_no: Some(2),
                inline_diff: None,
            },
        ],
    };

    let hunk2 = DiffHunk {
        header: HunkHeader {
            raw: "@@ -10,2 +11,3 @@".to_string(),
            old_start: 10,
            old_lines: 2,
            new_start: 11,
            new_lines: 3,
        },
        old_range: LineRange { start: 10, count: 2 },
        new_range: LineRange { start: 11, count: 3 },
        stageable: true,
        context_lines: 3,
        lines: vec![
            DiffLine {
                content: "line 10".to_string(),
                line_type: LineType::Context,
                old_line_no: Some(10),
                new_line_no: Some(11),
                inline_diff: None,
            },
            DiffLine {
                content: "new line added".to_string(),
                line_type: LineType::Addition,
                old_line_no: None,
                new_line_no: Some(12),
                inline_diff: None,
            },
        ],
    };

    Diff {
        file_path: "test.txt".to_string(),
        context: DiffContext::WorkingTreeToIndex,
        hunks: vec![hunk1, hunk2],
        binary: false,
    }
}

#[test]
fn test_navigator_creation() {
    let diff = create_test_diff_with_multiple_hunks();
    let navigator = HunkNavigator::new(&diff);

    assert_eq!(navigator.current_hunk, 0);
    assert_eq!(navigator.total_hunks, 2);
    assert_eq!(navigator.hunk_positions.len(), 2);
    assert_eq!(navigator.scroll_offset, 0);
}

#[test]
fn test_hunk_position_calculation() {
    let diff = create_test_diff_with_multiple_hunks();
    let navigator = HunkNavigator::new(&diff);

    let pos1 = &navigator.hunk_positions[0];
    assert_eq!(pos1.start_line, 0);
    assert_eq!(pos1.end_line, 4);
    assert_eq!(pos1.screen_y, 0);

    let pos2 = &navigator.hunk_positions[1];
    assert_eq!(pos2.start_line, 4);
    assert_eq!(pos2.end_line, 7);
    assert_eq!(pos2.screen_y, 4);
}

#[test]
fn navigator_test_hunk_navigation() {
    let diff = create_test_diff_with_multiple_hunks();
    let mut navigator = HunkNavigator::new(&diff);

    assert_eq!(navigator.current_hunk_index(), 0);

    let next = navigator.next_hunk();
    assert_eq!(next, Some(1));
    assert_eq!(navigator.current_hunk_index(), 1);

    let next = navigator.next_hunk();
    assert_eq!(next, Some(0));
    assert_eq!(navigator.current_hunk_index(), 0);

    let prev = navigator.previous_hunk();
    assert_eq!(prev, Some(1));
    assert_eq!(navigator.current_hunk_index(), 1);

    let prev = navigator.previous_hunk();
    assert_eq!(prev, Some(0));
    assert_eq!(navigator.current_hunk_index(), 0);
}

#[test]
fn test_empty_diff_navigation() {
    let empty_diff = Diff {
        file_path: "empty.txt".to_string(),
        context: DiffContext::WorkingTreeToIndex,
        hunks: vec![],
        binary: false,
    };

    let mut navigator = HunkNavigator::new(&empty_diff);

    assert_eq!(navigator.total_hunks, 0);
    assert_eq!(navigator.hunk_count(), 0);
    assert!(!navigator.has_hunks());

    assert_eq!(navigator.next_hunk(), None);
    assert_eq!(navigator.previous_hunk(), None);
    assert_eq!(navigator.get_current_hunk_position(), None);
}

#[test]
fn test_jump_to_hunk() {
    let diff = create_test_diff_with_multiple_hunks();
    let mut navigator = HunkNavigator::new(&diff);
    let viewport_height = 10;

    let result = navigator.jump_to_hunk(1, viewport_height);
    assert!(result);
    assert_eq!(navigator.current_hunk_index(), 1);

    let result = navigator.jump_to_hunk(5, viewport_height);
    assert!(!result);
    assert_eq!(navigator.current_hunk_index(), 1);

    let result = navigator.jump_to_hunk(0, viewport_height);
    assert!(result);
    assert_eq!(navigator.current_hunk_index(), 0);
}

#[test]
fn test_scroll_update_for_current_hunk() {
    let diff = create_test_diff_with_multiple_hunks();
    let mut navigator = HunkNavigator::new(&diff);
    let viewport_height = 5;

    navigator.update_scroll_for_current_hunk(viewport_height);
    assert_eq!(navigator.scroll_offset, 0);

    navigator.jump_to_hunk(1, viewport_height);
    assert_eq!(navigator.scroll_offset, 2);
}

#[test]
fn scroll_moves_up_to_a_hunk_above_the_viewport() {
    let diff = create_test_diff_with_multiple_hunks();
    let mut navigator = HunkNavigator::new(&diff);
    navigator.scroll_offset = 6;
    navigator.update_scroll_for_current_hunk(3);
    assert_eq!(navigator.scroll_offset, 0);
    assert_eq!(navigator.get_hunk_position(1).map(|p| p.end_line), Some(7));
    assert_eq!(navigator.get_hunk_position(2), None);
}
