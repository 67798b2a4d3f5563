use mahgit::diff::inline::{build_inline_segments, compute_inline_diffs};
use mahgit::diff::{Diff, DiffContext, DiffHunk, DiffLine, HunkHeader, InlineChange, LineRange, LineType};

fn build_diff(lines: Vec<(LineType, &str)>) -> Diff {
    let mut old_counter = 1usize;
    let mut new_counter = 1usize;
    let diff_lines = lines
        .into_iter()
        .map(|(line_type, content)| {
            let (old_line_no, new_line_no) = match line_type {
                LineType::Deletion => {
                    let num = old_counter;
                    old_counter += 1;
                    (Some(num), None)
                }
                LineType::Addition => {
                    let num = new_counter;
                    new_counter += 1;
                    (None, Some(num))
                }
                _ => {
                    let old = old_counter;
                    let new = new_counter;
                    old_counter += 1;
                    new_counter += 1;
                    (Some(old), Some(new))
                }
            };

            DiffLine {
                content: content.to_string(),
                line_type,
                old_line_no,
                new_line_no,
                inline_diff: None,
            }
        })
        .collect();

    Diff {
        file_path: "file".to_string(),
        context: DiffContext::WorkingTreeToIndex,
        hunks: vec![DiffHunk {
            header: HunkHeader {
                raw: "@@ -1,1 +1,1 @@".to_string(),
                old_start: 1,
                old_lines: old_counter as u32,
                new_start: 1,
                new_lines: new_counter as u32,
            },
            lines: diff_lines,
            old_range: LineRange {
                start: 1,
                count: old_counter as u32,
            },
            new_range: LineRange {
                start: 1,
                count: new_counter as u32,
            },
            stageable: true,
            context_lines: 3,
        }],
        binary: false,
    }
}

#[test]
fn addition_only_block_gets_inline_highlights() {
    let mut diff = build_diff(vec![
        (LineType::Addition, "new line one"),
        (LineType::Addition, "new line two"),
    ]);

    compute_inline_diffs(&mut diff);
    let hunk = &diff.hunks[0];

    for line in &hunk.lines {
        let inline = line.inline_diff.as_ref().unwrap();
        assert!(inline.segments.iter().all(|s| s.change == InlineChange::Added));
    }
}

#[test]
fn marks_unpaired_lines_against_empty_counterpart() {
    let mut diff = build_diff(vec![
        (LineType::Deletion, "old only line"),
        (LineType::Deletion, "another old line"),
        (LineType::Addition, "new only line"),
    ]);

    compute_inline_diffs(&mut diff);
    let hunk = &diff.hunks[0];

    let old_only = hunk.lines[0].inline_diff.as_ref().unwrap();
    assert!(old_only.segments.iter().any(|s| s.change == InlineChange::Removed));

    let another_old = hunk.lines[1].inline_diff.as_ref().unwrap();
    assert!(another_old.segments.iter().any(|s| s.change == InlineChange::Removed));

    let new_only = hunk.lines[2].inline_diff.as_ref().unwrap();
    assert!(new_only.segments.iter().any(|s| s.change == InlineChange::Added));
}

fn joined(segments: &[mahgit::diff::InlineDiffSegment]) -> String {
    segments.iter().map(|s| s.content.as_str()).collect()
}

#[test]
fn inline_segments_spell_both_lines() {
    let (old, new) = build_inline_segments("let x = 1;", "let y = 1;");
    assert_eq!(joined(&old), "let x = 1;");
    assert_eq!(joined(&new), "let y = 1;");
    assert!(old.iter().any(|s| s.change == InlineChange::Removed && s.content == "x"));
    assert!(new.iter().any(|s| s.change == InlineChange::Added && s.content == "y"));
    assert!(old.iter().all(|s| s.change != InlineChange::Added));
    assert!(new.iter().all(|s| s.change != InlineChange::Removed));
}

#[test]
fn context_lines_get_no_inline_diff() {
    let mut diff = build_diff(vec![
        (LineType::Context, "same"),
        (LineType::Deletion, "a b"),
        (LineType::Addition, "a c"),
    ]);
    compute_inline_diffs(&mut diff);
    let hunk = &diff.hunks[0];
    assert!(hunk.lines[0].inline_diff.is_none());
    let old = hunk.lines[1].inline_diff.as_ref().unwrap();
    let new = hunk.lines[2].inline_diff.as_ref().unwrap();
    assert_eq!(joined(&old.segments), "a b");
    assert_eq!(joined(&new.segments), "a c");
    assert!(old.segments.iter().any(|s| s.change == InlineChange::Unchanged));
}
