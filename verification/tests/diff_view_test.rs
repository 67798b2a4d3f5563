use mahgit::diff::generator::DiffError;
use mahgit::diff::{Diff, DiffContext, DiffHunk, DiffLine, HunkHeader, LineRange, LineType};
use mahgit::ui::diff_renderer::DiffRenderSettings;
use mahgit::ui::diff_view::{DiffView, DiffViewContent};
use mahgit::ui::styled::ThemeColor;

fn view_settings() -> DiffRenderSettings {
    DiffRenderSettings { tab_width: 4, show_line_numbers: true }
}

fn view_line(content: &str, line_type: LineType, old: Option<usize>, new: Option<usize>) -> DiffLine {
    DiffLine { content: content.to_string(), line_type, old_line_no: old, new_line_no: new, inline_diff: None }
}

fn view_hunk(raw: &str, old: (u32, u32), new: (u32, u32), lines: Vec<DiffLine>) -> DiffHunk {
    DiffHunk {
        header: HunkHeader {
            raw: raw.to_string(),
            old_start: old.0,
            old_lines: old.1,
            new_start: new.0,
            new_lines: new.1,
        },
        old_range: LineRange { start: old.0, count: old.1 },
        new_range: LineRange { start: new.0, count: new.1 },
        stageable: true,
        context_lines: 3,
        lines,
    }
}

fn single_hunk_diff() -> Diff {
    let hunk = view_hunk(
        "@@ -1,3 +1,4 @@",
        (1, 3),
        (1, 4),
        vec![
            view_line("line 1", LineType::Context, Some(1), Some(1)),
            view_line("old line", LineType::Deletion, Some(2), None),
            view_line("new line", LineType::Addition, None, Some(2)),
        ],
    );
    Diff { file_path: "test.txt".to_string(), context: DiffContext::WorkingTreeToIndex, hunks: vec![hunk], binary: false }
}

fn two_hunk_diff() -> Diff {
    let hunk1 = view_hunk(
        "@@ -1,3 +1,4 @@",
        (1, 3),
        (1, 4),
        vec![
            view_line("line 1", LineType::Context, Some(1), Some(1)),
            view_line("old line", LineType::Deletion, Some(2), None),
        ],
    );
    let hunk2 = view_hunk(
        "@@ -10,2 +11,3 @@",
        (10, 2),
        (11, 3),
        vec![
            view_line("line 10", LineType::Context, Some(10), Some(11)),
            view_line("new line", LineType::Addition, None, Some(12)),
        ],
    );
    Diff {
        file_path: "test.txt".to_string(),
        context: DiffContext::WorkingTreeToIndex,
        hunks: vec![hunk1, hunk2],
        binary: false,
    }
}

fn row_text(row: &[mahgit::ui::styled::StyledText]) -> String {
    row.iter().map(|s| s.text.as_str()).collect()
}

#[test]
fn test_diff_view_creation() {
    let diff_view = DiffView::new(single_hunk_diff(), view_settings());
    assert_eq!(diff_view.scroll_position(), 0);
}

#[test]
fn test_scrolling() {
    let mut diff_view = DiffView::new(single_hunk_diff(), view_settings());
    diff_view.update_viewport_height(4);
    assert_eq!(diff_view.viewport_height(), 2);

    diff_view.scroll_down(2);
    assert_eq!(diff_view.scroll_position(), 2);

    diff_view.scroll_up(1);
    assert_eq!(diff_view.scroll_position(), 1);

    diff_view.go_to_top();
    assert_eq!(diff_view.scroll_position(), 0);
}

#[test]
fn test_binary_diff() {
    let mut diff = single_hunk_diff();
    diff.binary = true;
    let diff_view = DiffView::new(diff, view_settings());
    match diff_view.content() {
        DiffViewContent::Success(diff) => assert!(diff.binary),
        _ => panic!("Expected successful diff content"),
    }
}

#[test]
fn diff_view_test_hunk_navigation() {
    let mut diff_view = DiffView::new(single_hunk_diff(), view_settings());
    diff_view.update_viewport_height(12);

    assert_eq!(diff_view.scroll_position(), 0);

    diff_view.jump_to_next_hunk();
    assert_eq!(diff_view.scroll_position(), 0);

    diff_view.jump_to_previous_hunk();
    assert_eq!(diff_view.scroll_position(), 0);
}

#[test]
fn diff_view_test_arrow_key_navigation() {
    let mut diff_view = DiffView::new(single_hunk_diff(), view_settings());
    diff_view.update_viewport_height(12);

    assert_eq!(diff_view.get_current_hunk_index(), Some(0));
    assert_eq!(diff_view.scroll_position(), 0);

    diff_view.navigate_to_next_hunk();
    assert_eq!(diff_view.get_current_hunk_index(), Some(0));
    assert_eq!(diff_view.scroll_position(), 0);

    diff_view.navigate_to_previous_hunk();
    assert_eq!(diff_view.get_current_hunk_index(), Some(0));
    assert_eq!(diff_view.scroll_position(), 0);
}

#[test]
fn test_multi_hunk_navigation() {
    let mut diff_view = DiffView::new(two_hunk_diff(), view_settings());
    diff_view.update_viewport_height(12);

    assert_eq!(diff_view.get_current_hunk_index(), Some(0));
    assert_eq!(diff_view.scroll_position(), 0);

    diff_view.navigate_to_next_hunk();
    assert_eq!(diff_view.get_current_hunk_index(), Some(1));
    assert_eq!(diff_view.scroll_position(), 3);

    diff_view.navigate_to_next_hunk();
    assert_eq!(diff_view.get_current_hunk_index(), Some(0));
    assert_eq!(diff_view.scroll_position(), 0);

    diff_view.navigate_to_previous_hunk();
    assert_eq!(diff_view.get_current_hunk_index(), Some(1));
    assert_eq!(diff_view.scroll_position(), 3);
}

#[test]
fn test_scroll_updates_active_hunk() {
    let mut diff_view = DiffView::new(two_hunk_diff(), view_settings());
    diff_view.update_viewport_height(6);

    assert_eq!(diff_view.get_current_hunk_index(), Some(0));

    diff_view.scroll_down(3);
    assert_eq!(diff_view.get_current_hunk_index(), Some(1));

    diff_view.scroll_up(1);
    assert_eq!(diff_view.get_current_hunk_index(), Some(0));
}

#[test]
fn test_hunk_count() {
    let single_hunk_view = DiffView::new(single_hunk_diff(), view_settings());
    assert_eq!(single_hunk_view.get_hunk_count(), 1);

    let multi_hunk_view = DiffView::new(two_hunk_diff(), view_settings());
    assert_eq!(multi_hunk_view.get_hunk_count(), 2);

    let empty_diff = Diff {
        file_path: "empty.txt".to_string(),
        context: DiffContext::WorkingTreeToIndex,
        hunks: vec![],
        binary: false,
    };
    let empty_view = DiffView::new(empty_diff, view_settings());
    assert_eq!(empty_view.get_hunk_count(), 0);
    assert_eq!(empty_view.get_current_hunk_index(), None);
}

#[test]
fn test_line_numbers_toggle_and_gutter() {
    let diff = single_hunk_diff();
    let diff_view = DiffView::new(diff.clone(), view_settings());

    let lines_with_numbers = diff_view.generate_diff_lines(&diff, diff_view.get_current_hunk_index());
    let first_content_line = &lines_with_numbers[1];
    assert!(first_content_line.len() >= 7);
    assert_eq!(first_content_line[0].text, "1");
    assert_eq!(first_content_line[2].text, "1");
    assert_eq!(first_content_line[4].text, "|");

    let diff_view_no_numbers =
        DiffView::new(diff.clone(), DiffRenderSettings { tab_width: 4, show_line_numbers: false });
    let lines_without_numbers =
        diff_view_no_numbers.generate_diff_lines(&diff, diff_view_no_numbers.get_current_hunk_index());
    let first_line_without_numbers = &lines_without_numbers[1];
    assert!(first_line_without_numbers.len() >= 3);
    assert_eq!(first_line_without_numbers[0].text, "|");
}

#[test]
fn test_current_hunk_highlight_applies_to_lines() {
    let diff = two_hunk_diff();
    let mut diff_view = DiffView::new(diff.clone(), view_settings());

    let lines = diff_view.generate_diff_lines(&diff, diff_view.get_current_hunk_index());
    let first_hunk_line = &lines[1];
    assert_eq!(first_hunk_line[0].style.bg, Some(ThemeColor::HunkHighlight));

    diff_view.navigate_to_next_hunk();
    assert_eq!(diff_view.get_current_hunk_index(), Some(1));
    let lines_second_hunk_selected = diff_view.generate_diff_lines(&diff, diff_view.get_current_hunk_index());
    let first_hunk_line_after_switch = &lines_second_hunk_selected[1];
    assert_eq!(first_hunk_line_after_switch[0].style.bg, None);

    let second_hunk_line = &lines_second_hunk_selected[4];
    assert_eq!(second_hunk_line[0].style.bg, Some(ThemeColor::HunkHighlight));
}

#[test]
fn test_should_pin_header_when_scrolled_past_header() {
    let mut diff_view = DiffView::new(two_hunk_diff(), view_settings());
    diff_view.update_viewport_height(7);

    let active_hunk_index = diff_view.resolve_active_hunk_index();
    let pinned_header_line = active_hunk_index.and_then(|idx| diff_view.hunk_positions().get(idx)).map(|pos| pos.start_line);
    let should_pin_at_top = pinned_header_line.map(|line| line < diff_view.scroll_position()).unwrap_or(false);
    assert!(!should_pin_at_top, "Header should not be pinned at scroll position 0");

    diff_view.scroll_down(2);
    let active_hunk_index = diff_view.resolve_active_hunk_index();
    let pinned_header_line = active_hunk_index.and_then(|idx| diff_view.hunk_positions().get(idx)).map(|pos| pos.start_line);
    let should_pin_scrolled = pinned_header_line.map(|line| line < diff_view.scroll_position()).unwrap_or(false);
    assert!(should_pin_scrolled, "Header should be pinned when scrolled past it");
    assert_eq!(pinned_header_line, Some(0), "First hunk starts at line 0");

    let screen = diff_view.visible_screen(diff_view.viewport_height());
    let header = screen.sticky_header.expect("pinned header");
    assert_eq!(header.text, "@@ -1,3 +1,4 @@");
    assert_eq!(screen.rows.len(), 4);
}

#[test]
fn test_collect_visible_lines_skips_header_when_pinned() {
    let diff = two_hunk_diff();
    let diff_view = DiffView::new(diff.clone(), view_settings());

    let diff_lines = diff_view.generate_diff_lines(&diff, Some(0));

    let visible_no_skip = diff_view.collect_visible_lines(diff_lines.clone(), 1, 3, None);
    assert_eq!(visible_no_skip.len(), 3);
    assert!(visible_no_skip[0].iter().any(|s| s.text.contains("line 1")));

    let visible_with_skip = diff_view.collect_visible_lines(diff_lines.clone(), 1, 3, Some(0));
    assert_eq!(visible_with_skip.len(), 3);
    assert!(visible_with_skip[0].iter().any(|s| s.text.contains("line 1")));

    let visible_skip_within = diff_view.collect_visible_lines(diff_lines, 0, 3, Some(1));
    assert_eq!(visible_skip_within.len(), 3);
    assert!(visible_skip_within[0].iter().any(|s| s.text.contains("@@")));
    assert!(visible_skip_within[1].iter().any(|s| s.text.contains("old line")));
}

#[test]
fn test_sticky_header_viewport_height_adjustment() {
    let mut diff_view = DiffView::new(two_hunk_diff(), view_settings());
    diff_view.update_viewport_height(7);

    diff_view.scroll_down(2);

    let active_hunk_index = diff_view.resolve_active_hunk_index();
    let pinned_header_line = active_hunk_index.and_then(|idx| diff_view.hunk_positions().get(idx)).map(|pos| pos.start_line);
    let should_pin = pinned_header_line.map(|line| line < diff_view.scroll_position()).unwrap_or(false);

    let content_viewport_height =
        if should_pin { diff_view.viewport_height().saturating_sub(1) } else { diff_view.viewport_height() };

    assert!(should_pin, "Header should be pinned");
    assert_eq!(content_viewport_height, 4, "Content viewport should be reduced by 1 when header is pinned");
    assert_eq!(diff_view.viewport_height(), 5, "Original viewport height should remain unchanged");

    let screen = diff_view.visible_screen(5);
    assert_eq!(screen.rows.len(), 4);
    assert_eq!(row_text(&screen.rows[0]), " 2    | -old line");
}

#[test]
fn diff_view_jump_from_hunk_start_wraps_to_first() {
    let mut diff_view = DiffView::new(two_hunk_diff(), view_settings());
    diff_view.update_viewport_height(3);
    diff_view.scroll_down(1);
    assert_eq!(diff_view.scroll_position(), 1);
    diff_view.jump_to_next_hunk();
    assert_eq!(diff_view.scroll_position(), 3);
    assert_eq!(diff_view.get_current_hunk_index(), Some(1));
    diff_view.jump_to_next_hunk();
    assert_eq!(diff_view.scroll_position(), 0);
    assert_eq!(diff_view.get_current_hunk_index(), Some(0));
}

#[test]
fn diff_view_jump_to_previous_from_inside_second_hunk() {
    let mut diff_view = DiffView::new(two_hunk_diff(), view_settings());
    diff_view.update_viewport_height(3);
    diff_view.scroll_down(4);
    assert_eq!(diff_view.scroll_position(), 4);
    diff_view.jump_to_previous_hunk();
    assert_eq!(diff_view.scroll_position(), 3);
    assert_eq!(diff_view.get_current_hunk_index(), Some(1));
    diff_view.jump_to_previous_hunk();
    assert_eq!(diff_view.scroll_position(), 0);
    assert_eq!(diff_view.get_current_hunk_index(), Some(0));
}

#[test]
fn diff_view_go_to_bottom_stops_at_last_screen() {
    let mut diff_view = DiffView::new(two_hunk_diff(), view_settings());
    diff_view.update_viewport_height(5);
    diff_view.go_to_bottom();
    assert_eq!(diff_view.scroll_position(), 4);
    assert_eq!(diff_view.get_current_hunk_index(), Some(1));
}

#[test]
fn diff_errors_show_their_messages() {
    assert_eq!(DiffError::FileNotFound("a.rs".to_string()).to_display_string(), "File not found: a.rs");
    assert_eq!(
        DiffError::FileTooLarge(20, "big.bin".to_string()).to_display_string(),
        "File too large (20 bytes): big.bin"
    );
    assert_eq!(
        DiffError::BinaryFile("x.png".to_string()).to_display_string(),
        "Binary file not supported for diff: x.png"
    );
    assert!(DiffError::Io(std::io::Error::other("disk")).to_display_string().starts_with("I/O error: "));
    let notice = mahgit::ui::diff_view::error_notice(&DiffError::FileTooLarge(7, "f".to_string()));
    assert_eq!(notice.text, "File too large (7 bytes) - cannot display diff");
    assert_eq!(mahgit::ui::diff_view::binary_notice().text, "Binary file - cannot display diff");
}
