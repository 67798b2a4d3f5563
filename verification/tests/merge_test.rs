use mahgit::diff::{generate_hunk_header, merge_adjacent_hunks};
use mahgit::diff::{Diff, DiffContext, DiffHunk, DiffLine, HunkHeader, LineRange, LineType};

fn line(text: &str) -> DiffLine {
    DiffLine {
        content: text.to_string(),
        line_type: LineType::Context,
        old_line_no: None,
        new_line_no: None,
        inline_diff: None,
    }
}

fn hunk(old_start: u32, old_count: u32, new_start: u32, new_count: u32, text: &str) -> DiffHunk {
    let old_range = LineRange { start: old_start, count: old_count };
    let new_range = LineRange { start: new_start, count: new_count };
    DiffHunk {
        header: generate_hunk_header(&old_range, &new_range),
        lines: vec![line(text)],
        old_range,
        new_range,
        stageable: true,
        context_lines: 3,
    }
}

fn diff_of(hunks: Vec<DiffHunk>) -> Diff {
    Diff {
        file_path: "f.rs".to_string(),
        context: DiffContext::WorkingTreeToIndex,
        hunks,
        binary: false,
    }
}

#[test]
fn hunk_header_text_names_both_ranges() {
    let header = generate_hunk_header(&LineRange { start: 12, count: 3 }, &LineRange { start: 7, count: 0 });
    assert_eq!(header.raw, "@@ -12,3 +7,0 @@");
    assert_eq!(header.old_start, 12);
    assert_eq!(header.old_lines, 3);
    assert_eq!(header.new_start, 7);
    assert_eq!(header.new_lines, 0);
}

#[test]
fn touching_hunks_are_merged_and_far_ones_kept() {
    let merged = merge_adjacent_hunks(diff_of(vec![
        hunk(1, 3, 1, 3, "a"),
        hunk(4, 2, 4, 5, "b"),
        hunk(20, 1, 23, 1, "c"),
    ]));
    assert_eq!(merged.hunks.len(), 2);
    let first = &merged.hunks[0];
    assert_eq!(first.old_range, LineRange { start: 1, count: 5 });
    assert_eq!(first.new_range, LineRange { start: 1, count: 8 });
    assert_eq!(first.header.raw, "@@ -1,5 +1,8 @@");
    let texts: Vec<&str> = first.lines.iter().map(|l| l.content.as_str()).collect();
    assert_eq!(texts, vec!["a", "b"]);
    assert_eq!(merged.hunks[1].lines[0].content, "c");
}

#[test]
fn merging_keeps_every_line_in_order_and_twice_changes_nothing() {
    let input = diff_of(vec![
        hunk(1, 2, 1, 2, "a"),
        hunk(3, 2, 3, 2, "b"),
        hunk(5, 1, 5, 1, "c"),
        hunk(30, 1, 30, 1, "d"),
    ]);
    let once = merge_adjacent_hunks(input);
    let all: Vec<String> = once.hunks.iter().flat_map(|h| h.lines.iter().map(|l| l.content.clone())).collect();
    assert_eq!(all, vec!["a", "b", "c", "d"]);
    let count = once.hunks.len();
    let headers: Vec<String> = once.hunks.iter().map(|h| h.header.raw.clone()).collect();
    let twice = merge_adjacent_hunks(once);
    assert_eq!(twice.hunks.len(), count);
    let headers_twice: Vec<String> = twice.hunks.iter().map(|h| h.header.raw.clone()).collect();
    assert_eq!(headers, headers_twice);
}

#[test]
fn merging_unstageable_hunk_makes_result_unstageable() {
    let mut second = hunk(2, 1, 2, 1, "b");
    second.stageable = false;
    let merged = merge_adjacent_hunks(diff_of(vec![hunk(1, 1, 1, 1, "a"), second]));
    assert_eq!(merged.hunks.len(), 1);
    assert!(!merged.hunks[0].stageable);
}

#[test]
fn merging_no_hunks_returns_diff_unchanged() {
    let merged = merge_adjacent_hunks(diff_of(vec![]));
    assert!(merged.hunks.is_empty());
    assert_eq!(merged.file_path, "f.rs");
}
