use mahgit::ui::diff_renderer::{diff_is_drawable, line_is_drawable};
use mahgit::diff::{Diff, DiffContext, DiffHunk, DiffLine, HunkHeader, LineRange, LineType};
use mahgit::ui::diff_renderer::{DiffRenderSettings, DiffRenderer};
use mahgit::ui::styled::ThemeColor;

fn renderer_settings() -> DiffRenderSettings {
    DiffRenderSettings { tab_width: 4, show_line_numbers: true }
}

fn renderer_test_diff() -> Diff {
    let hunk = DiffHunk {
        header: HunkHeader {
            raw: "@@ -1,3 +1,4 @@".to_string(),
            old_start: 1,
            old_lines: 3,
            new_start: 1,
            new_lines: 4,
        },
        old_range: LineRange { start: 1, count: 3 },
        new_range: LineRange { start: 1, count: 4 },
        stageable: true,
        context_lines: 3,
        lines: vec![
            DiffLine {
                content: "line 1".to_string(),
                line_type: LineType::Context,
                old_line_no: Some(1),
                new_line_no: Some(1),
                inline_diff: None,
            },
            DiffLine {
                content: "old line".to_string(),
                line_type: LineType::Deletion,
                old_line_no: Some(2),
                new_line_no: None,
                inline_diff: None,
            },
            DiffLine {
                content: "new line".to_string(),
                line_type: LineType::Addition,
                old_line_no: None,
                new_line_no: Some(2),
                inline_diff: None,
            },
        ],
    };

    Diff {
        file_path: "test.txt".to_string(),
        context: DiffContext::WorkingTreeToIndex,
        hunks: vec![hunk],
        binary: false,
    }
}

#[test]
fn test_line_number_width_calculation() {
    let diff = renderer_test_diff();
    let widths = DiffRenderer::calculate_line_number_widths(&diff);
    assert_eq!(widths.old, 1);
    assert_eq!(widths.new, 1);
}

#[test]
fn test_format_line_number() {
    assert_eq!(DiffRenderer::format_line_number(Some(1), 3), "  1");
    assert_eq!(DiffRenderer::format_line_number(Some(10), 3), " 10");
    assert_eq!(DiffRenderer::format_line_number(Some(100), 3), "100");
    assert_eq!(DiffRenderer::format_line_number(None, 3), "   ");
}

#[test]
fn test_format_diff_line_with_line_numbers() {
    let renderer = DiffRenderer::new(renderer_settings());
    let diff = renderer_test_diff();
    let widths = DiffRenderer::calculate_line_number_widths(&diff);

    let line = renderer.format_diff_line(&diff.hunks[0].lines[0], Some(&widths), false, None);

    assert!(line.len() >= 7);
    assert_eq!(line[0].text, "1");
    assert_eq!(line[2].text, "1");
    assert_eq!(line[4].text, "|");
}

#[test]
fn test_format_diff_line_without_line_numbers() {
    let mut settings = renderer_settings();
    settings.show_line_numbers = false;
    let renderer = DiffRenderer::new(settings);
    let diff = renderer_test_diff();

    let line = renderer.format_diff_line(&diff.hunks[0].lines[0], None, false, None);

    assert_eq!(line.len(), 3);
    assert_eq!(line[0].text, "|");
}

#[test]
fn test_format_diff_line_with_prefix() {
    let renderer = DiffRenderer::new(renderer_settings());
    let diff = renderer_test_diff();

    let line = renderer.format_diff_line(&diff.hunks[0].lines[0], None, false, Some("    "));

    assert_eq!(line[0].text, "    ");
    assert_eq!(line[1].text, "|");
}

#[test]
fn test_generate_diff_lines() {
    let renderer = DiffRenderer::new(renderer_settings());
    let diff = renderer_test_diff();

    let lines = renderer.generate_diff_lines(&diff, None, None);

    assert_eq!(lines.len(), 4);
    assert!(lines[0].iter().any(|s| s.text.contains("@@")));
}

#[test]
fn test_hunk_highlighting() {
    let renderer = DiffRenderer::new(renderer_settings());
    let diff = renderer_test_diff();
    let widths = DiffRenderer::calculate_line_number_widths(&diff);

    let line_no_highlight = renderer.format_diff_line(&diff.hunks[0].lines[0], Some(&widths), false, None);
    assert_eq!(line_no_highlight[0].style.bg, None);

    let line_with_highlight = renderer.format_diff_line(&diff.hunks[0].lines[0], Some(&widths), true, None);
    assert_eq!(line_with_highlight[0].style.bg, Some(ThemeColor::HunkHighlight));
}

#[test]
fn renderer_expands_tabs_in_content() {
    let renderer = DiffRenderer::new(DiffRenderSettings { tab_width: 4, show_line_numbers: false });
    let line = DiffLine {
        content: "a\tb".to_string(),
        line_type: LineType::Addition,
        old_line_no: None,
        new_line_no: Some(1),
        inline_diff: None,
    };
    let spans = renderer.format_diff_line(&line, None, false, None);
    assert_eq!(spans.len(), 3);
    assert_eq!(spans[2].text, "+a   b");
    assert_eq!(spans[2].style.fg, Some(ThemeColor::Staged));
}

#[test]
fn renderer_dims_context_outside_active_hunk() {
    let renderer = DiffRenderer::new(DiffRenderSettings { tab_width: 4, show_line_numbers: false });
    let diff = renderer_test_diff();
    let inactive = renderer.format_diff_line(&diff.hunks[0].lines[0], None, false, None);
    assert!(inactive[2].style.dim);
    let active = renderer.format_diff_line(&diff.hunks[0].lines[0], None, true, None);
    assert!(!active[2].style.dim);
    assert_eq!(active[0].style.bg, Some(ThemeColor::GutterFocused));
}

#[test]
fn drawability_needs_a_tab_width_for_tabs() {
    let line = |content: &str| DiffLine {
        content: content.to_string(),
        line_type: LineType::Addition,
        old_line_no: None,
        new_line_no: Some(1),
        inline_diff: None,
    };
    assert!(line_is_drawable(&line("a\tb"), 4));
    assert!(!line_is_drawable(&line("a\tb"), 0));
    assert!(line_is_drawable(&line("no tabs"), 0));
    let hunk = DiffHunk {
        header: HunkHeader { raw: "@@ -1 +1 @@".to_string(), old_start: 1, old_lines: 1, new_start: 1, new_lines: 1 },
        lines: vec![line("x"), line("\ty")],
        old_range: LineRange { start: 1, count: 1 },
        new_range: LineRange { start: 1, count: 1 },
        stageable: true,
        context_lines: 3,
    };
    assert!(diff_is_drawable(&vec![hunk.clone()], 8));
    assert!(!diff_is_drawable(&vec![hunk], 0));
    assert!(diff_is_drawable(&vec![], 0));
}
