use mahgit::diff::{Diff, DiffContext, DiffHunk, DiffLine, HunkHeader, LineRange, LineType};
use mahgit::status::{FileEntry, FileStatus, RepositoryStatus};
use mahgit::ui::diff_renderer::DiffRenderSettings;
use mahgit::ui::navigation::{FileContext, FileDiffKey, NavigationState, SelectionCursor, StatusSection};
use mahgit::ui::status_view::{
    HunkOverlay, StatusView, active_overlay, ranges_intersect, section_label, sticky_header_height,
    sticky_overlay_line,
};
use mahgit::ui::styled::{StyledText, ThemeColor};

fn text_of(row: &[StyledText]) -> String {
    row.iter().map(|piece| piece.text.as_str()).collect()
}

fn mixed_status() -> RepositoryStatus {
    RepositoryStatus {
        branch_name: "main".to_string(),
        staged: vec![FileEntry::new_renamed("a.txt".to_string(), "b.txt".to_string())],
        unstaged: vec![FileEntry::new("src/lib.rs".to_string(), FileStatus::Modified)],
        untracked: vec!["notes/new.txt".to_string()],
        conflicted: vec!["dir/c.txt".to_string()],
    }
}

fn status_hunk(raw: &str, lines: usize) -> DiffHunk {
    DiffHunk {
        header: HunkHeader { raw: raw.to_string(), old_start: 1, old_lines: 1, new_start: 1, new_lines: 1 },
        lines: (0..lines)
            .map(|i| DiffLine {
                content: format!("text {i}"),
                line_type: LineType::Deletion,
                old_line_no: Some(i + 1),
                new_line_no: None,
                inline_diff: None,
            })
            .collect(),
        old_range: LineRange { start: 1, count: 1 },
        new_range: LineRange { start: 1, count: 1 },
        stageable: true,
        context_lines: 3,
    }
}

fn plain_settings() -> DiffRenderSettings {
    DiffRenderSettings { tab_width: 4, show_line_numbers: false }
}

#[test]
fn status_list_lays_out_sections_in_order() {
    let status = mixed_status();
    let navigation = NavigationState::new(&status);
    let view = StatusView::new(&status, &navigation, plain_settings());
    let list = view.status_items();
    let rows: Vec<String> = list.rows.iter().map(|r| text_of(r)).collect();
    assert_eq!(
        rows,
        vec![
            "▾ Conflicted files (1)",
            ">   ▸ conflict c.txt",
            "",
            "▾ Unstaged changes (1)",
            "    ▸ modified src/lib.rs",
            "",
            "▾ Untracked files (1)",
            "    ▸ new notes/new.txt",
            "",
            "▾ Staged changes (1)",
            "    ▸ renamed a.txt -> b.txt",
            "",
        ]
    );
    assert_eq!(list.selected, Some(1));
    assert_eq!(list.scroll_targets, vec![1]);
    assert_eq!(list.rows[1][3].style.bg, Some(ThemeColor::SelectedBg));
    assert_eq!(list.rows[4][3].style.fg, Some(ThemeColor::Unstaged));
    assert!(list.overlays.is_empty());
}

#[test]
fn status_list_collapsed_section_hides_files() {
    let status = mixed_status();
    let mut navigation = NavigationState::new(&status);
    navigation.toggle_section_collapsed(StatusSection::Unstaged);
    let view = StatusView::new(&status, &navigation, plain_settings());
    let list = view.status_items();
    assert_eq!(text_of(&list.rows[3]), "▸ Unstaged changes (1)");
    assert_eq!(text_of(&list.rows[4]), "");
    assert_eq!(list.rows.len(), 11);
}

#[test]
fn status_list_shows_inline_diff_hunks_with_overlays() {
    let status = mixed_status();
    let mut navigation = NavigationState::new(&status);
    let key = FileDiffKey::new("src/lib.rs".to_string(), FileContext::Unstaged);
    let diff = Diff {
        file_path: "src/lib.rs".to_string(),
        context: DiffContext::WorkingTreeToIndex,
        hunks: vec![status_hunk("@@ -1 +1 @@", 2), status_hunk("@@ -9 +9 @@", 1)],
        binary: false,
    };
    navigation.set_file_diff(key.clone(), diff, DiffContext::WorkingTreeToIndex);
    navigation.toggle_hunk_collapsed(&key, 1);
    let view = StatusView::new(&status, &navigation, plain_settings());
    let list = view.status_items();
    assert_eq!(text_of(&list.rows[4]), "    ▾ modified src/lib.rs");
    assert_eq!(text_of(&list.rows[5]), "    ▾ @@ -1 +1 @@");
    assert_eq!(text_of(&list.rows[6]), "      | -text 0");
    assert_eq!(text_of(&list.rows[7]), "      | -text 1");
    assert_eq!(text_of(&list.rows[8]), "");
    assert_eq!(text_of(&list.rows[9]), "    ▸ @@ -9 +9 @@");
    assert_eq!(text_of(&list.rows[10]), "");
    assert_eq!(list.overlays.len(), 2);
    assert_eq!((list.overlays[0].start_line, list.overlays[0].end_line), (5, 9));
    assert_eq!((list.overlays[1].start_line, list.overlays[1].end_line), (9, 11));
    assert_eq!(list.overlays[0].section_label, "Unstaged changes");
    assert_eq!(list.rows.len(), 12 + 6);
}

#[test]
fn status_list_marks_selected_hunk() {
    let status = RepositoryStatus {
        branch_name: "main".to_string(),
        staged: vec![],
        unstaged: vec![FileEntry::new("f.txt".to_string(), FileStatus::Modified)],
        untracked: vec![],
        conflicted: vec![],
    };
    let mut navigation = NavigationState::new(&status);
    let key = FileDiffKey::new("f.txt".to_string(), FileContext::Unstaged);
    let diff = Diff {
        file_path: "f.txt".to_string(),
        context: DiffContext::WorkingTreeToIndex,
        hunks: vec![status_hunk("@@ -1 +1 @@", 1)],
        binary: false,
    };
    navigation.set_file_diff(key, diff, DiffContext::WorkingTreeToIndex);
    navigation.move_to_next(&status);
    assert_eq!(
        navigation.current_cursor(),
        Some(SelectionCursor::Hunk { section: StatusSection::Unstaged, file_index: 0, hunk_index: 0 })
    );
    let view = StatusView::new(&status, &navigation, plain_settings());
    let list = view.status_items();
    assert_eq!(list.selected, Some(2));
    assert_eq!(list.rows[2][0].style.bg, Some(ThemeColor::SelectedBg));
    assert!(list.overlays[0].selected);
    assert_eq!(list.rows.len(), 5);
}

#[test]
fn status_list_notes_binary_and_loading_diffs() {
    let status = RepositoryStatus {
        branch_name: "main".to_string(),
        staged: vec![],
        unstaged: vec![
            FileEntry::new("img.png".to_string(), FileStatus::Modified),
            FileEntry::new("slow.txt".to_string(), FileStatus::Modified),
        ],
        untracked: vec![],
        conflicted: vec![],
    };
    let mut navigation = NavigationState::new(&status);
    let binary = Diff {
        file_path: "img.png".to_string(),
        context: DiffContext::WorkingTreeToIndex,
        hunks: vec![],
        binary: true,
    };
    navigation.set_file_diff(FileDiffKey::new("img.png".to_string(), FileContext::Unstaged), binary, DiffContext::WorkingTreeToIndex);
    navigation.toggle_file_diff_expanded(FileDiffKey::new("slow.txt".to_string(), FileContext::Unstaged), DiffContext::WorkingTreeToIndex);
    let view = StatusView::new(&status, &navigation, plain_settings());
    let list = view.status_items();
    assert_eq!(text_of(&list.rows[2]), "    Binary file (not shown)");
    assert_eq!(list.rows[2][0].style.fg, Some(ThemeColor::DiffNoNewline));
    assert!(list.rows[2][0].style.italic);
    assert_eq!(text_of(&list.rows[4]), "    Loading diff...");
}

fn overlay(start: usize, end: usize, selected: bool) -> HunkOverlay {
    HunkOverlay {
        start_line: start,
        end_line: end,
        section_label: "Unstaged changes".to_string(),
        file_path: "f.txt".to_string(),
        header: "@@ -1 +1 @@".to_string(),
        selected,
    }
}

#[test]
fn active_overlay_prefers_selected_in_view() {
    let overlays = vec![overlay(0, 5, false), overlay(5, 10, true), overlay(10, 20, false)];
    assert_eq!(active_overlay(&overlays, 6, 3), Some(1));
    assert_eq!(active_overlay(&overlays, 11, 3), Some(2));
    assert_eq!(active_overlay(&overlays, 30, 3), Some(0));
    assert_eq!(active_overlay(&Vec::new(), 0, 3), None);
    assert_eq!(sticky_header_height(&overlays, Some(1), 6, 10), 1);
    assert_eq!(sticky_header_height(&overlays, Some(1), 5, 10), 0);
    assert_eq!(sticky_header_height(&overlays, Some(1), 6, 1), 0);
}

#[test]
fn sticky_overlay_line_names_section_file_and_header() {
    let row = sticky_overlay_line(&overlay(0, 3, false));
    assert_eq!(text_of(&row), "Unstaged changes • f.txt • @@ -1 +1 @@");
    assert_eq!(row[2].style.fg, Some(ThemeColor::SelectedFg));
}

#[test]
fn ranges_and_labels() {
    assert!(ranges_intersect(0, 5, 4, 6));
    assert!(!ranges_intersect(0, 5, 5, 6));
    assert_eq!(section_label(StatusSection::Conflicted), "Conflicted files");
    assert_eq!(section_label(StatusSection::Staged), "Staged changes");
}
