use mahgit::config::expand_tabs_with_width;
use mahgit::diff::{Diff, DiffContext, DiffHunk, DiffLine, HunkHeader, LineRange, LineType};
use mahgit::ui::diff_search::{
    build_regex_pattern, find_matches_in_diff, find_matches_in_diff_checked, DiffSearchError, DiffSearchFlags, DiffSearchMatch, PreparedSearch,
};

fn sample_diff() -> Diff {
    Diff {
        file_path: "file.txt".to_string(),
        context: DiffContext::WorkingTreeToIndex,
        binary: false,
        hunks: vec![DiffHunk {
            header: HunkHeader {
                raw: "@@ -1,2 +1,2 @@".to_string(),
                old_start: 1,
                old_lines: 2,
                new_start: 1,
                new_lines: 2,
            },
            old_range: LineRange { start: 1, count: 2 },
            new_range: LineRange { start: 1, count: 2 },
            stageable: true,
            context_lines: 2,
            lines: vec![
                DiffLine {
                    content: "Hello World".to_string(),
                    line_type: LineType::Context,
                    old_line_no: Some(1),
                    new_line_no: Some(1),
                    inline_diff: None,
                },
                DiffLine {
                    content: "hello\tplanet".to_string(),
                    line_type: LineType::Addition,
                    old_line_no: None,
                    new_line_no: Some(2),
                    inline_diff: None,
                },
            ],
        }],
    }
}

#[test]
fn literal_search_is_case_insensitive_by_default() {
    let diff = sample_diff();
    let flags = DiffSearchFlags::default();
    let matcher = PreparedSearch::new("hello", &flags).unwrap();

    let matches = diff
        .hunks
        .iter()
        .enumerate()
        .flat_map(|(hunk_idx, hunk)| {
            let matcher = matcher.clone();
            hunk.lines.iter().enumerate().flat_map(move |(line_idx, line)| {
                let matcher = matcher.clone();
                let text = format!(
                    "{}{}",
                    match line.line_type {
                        LineType::Addition => "+",
                        LineType::Deletion => "-",
                        LineType::Context => " ",
                        LineType::NoNewlineEOF => "\\",
                    },
                    expand_tabs_with_width(&line.content, 4)
                );
                matcher.find_in(&text).into_iter().map(move |(col, len)| DiffSearchMatch {
                    hunk_index: hunk_idx,
                    line_index: line_idx,
                    column: col,
                    length: len,
                })
            })
        })
        .collect::<Vec<_>>();

    assert_eq!(matches.len(), 2);
    assert_eq!(matches[0].column, 1);
    assert_eq!(matches[1].column, 1);
}

#[test]
fn diff_search_uses_prefix_and_tab_width() {
    let diff = sample_diff();
    let flags = DiffSearchFlags::default();
    let matches = find_matches_in_diff(&diff, "planet", &flags, 4).unwrap();

    assert_eq!(matches.len(), 1);
    let m = &matches[0];
    assert_eq!(m.hunk_index, 0);
    assert_eq!(m.line_index, 1);
    assert_eq!(m.column, 9);
}

#[test]
fn whole_word_wraps_pattern() {
    let flags = DiffSearchFlags { whole_word: true, ..Default::default() };
    let pattern = build_regex_pattern("foo", &flags);
    assert_eq!(pattern, r"\bfoo\b");
}

#[test]
fn invalid_regex_returns_error() {
    let flags = DiffSearchFlags { regex: true, ..Default::default() };
    let err = PreparedSearch::new("[unclosed", &flags).err().unwrap();
    assert!(matches!(err, DiffSearchError::InvalidPattern(_)));
    assert!(err.to_display_string().starts_with("Invalid search pattern: "));
}

#[test]
fn literal_pattern_is_escaped_for_whole_word_and_kept_for_regex() {
    let whole = DiffSearchFlags { whole_word: true, ..Default::default() };
    assert_eq!(build_regex_pattern("a.b-c", &whole), r"\ba\.b\-c\b");
    let regex = DiffSearchFlags { regex: true, ..Default::default() };
    assert_eq!(build_regex_pattern("a.b", &regex), "a.b");
    let both = DiffSearchFlags { regex: true, whole_word: true, ..Default::default() };
    assert_eq!(build_regex_pattern("x|y", &both), r"\b(?:x|y)\b");
    let neither = DiffSearchFlags::default();
    assert_eq!(build_regex_pattern("(a)", &neither), r"\(a\)");
}

#[test]
fn case_sensitive_literal_search_finds_non_overlapping_matches() {
    let flags = DiffSearchFlags { case_sensitive: true, ..Default::default() };
    let matcher = PreparedSearch::new("aa", &flags).unwrap();
    assert_eq!(matcher.find_in("aaaa Aa aa"), vec![(0, 2), (2, 2), (8, 2)]);
    let insensitive = PreparedSearch::new("aa", &DiffSearchFlags::default()).unwrap();
    assert_eq!(insensitive.find_in("aaaa Aa"), vec![(0, 2), (2, 2), (5, 2)]);
}

#[test]
fn whole_word_search_uses_word_boundaries() {
    let flags = DiffSearchFlags { whole_word: true, ..Default::default() };
    let diff = sample_diff();
    let matches = find_matches_in_diff(&diff, "hell", &flags, 4).unwrap();
    assert!(matches.is_empty());
    let matches = find_matches_in_diff(&diff, "world", &flags, 4).unwrap();
    assert_eq!(matches.len(), 1);
    assert_eq!(matches[0].column, 7);
    assert_eq!(matches[0].length, 5);
}

#[test]
fn empty_query_finds_nothing() {
    let diff = sample_diff();
    let matches = find_matches_in_diff(&diff, "", &DiffSearchFlags::default(), 4).unwrap();
    assert!(matches.is_empty());
}

#[test]
fn search_columns_count_characters_not_bytes() {
    let flags = DiffSearchFlags { case_sensitive: true, ..Default::default() };
    let matcher = PreparedSearch::new("b", &flags).unwrap();
    assert_eq!(matcher.find_in("\u{e9}\u{e9}b"), vec![(2, 1)]);
    let regex = DiffSearchFlags { regex: true, case_sensitive: true, ..Default::default() };
    let matcher = PreparedSearch::new("b+", &regex).unwrap();
    assert_eq!(matcher.find_in("\u{e9}bb\u{e9}b"), vec![(1, 2), (4, 1)]);
}

#[test]
fn insensitive_columns_count_the_bytes_of_the_lowercase_text_in_the_line() {
    // 'Ⱥ' takes two bytes and its lowercase 'ⱥ' three, so the match of "y",
    // at byte 4 of "ⱥxy", is given the column of byte 4 of "Ⱥxy".
    let matcher = PreparedSearch::new("Y", &DiffSearchFlags::default()).unwrap();
    assert_eq!(matcher.find_in("\u{23a}xy"), vec![(3, 1)]);
    assert_eq!(matcher.try_find_in("\u{23a}xy"), Some(vec![(3, 1)]));
    assert_eq!(matcher.try_find_in("xY"), Some(vec![(1, 1)]));
}

#[test]
fn insensitive_match_inside_a_character_of_the_line_has_no_column() {
    // "é" starts at byte 3 of "ⱥé", which falls inside the 'é' of "Ⱥé".
    let matcher = PreparedSearch::new("\u{e9}", &DiffSearchFlags::default()).unwrap();
    assert_eq!(matcher.try_find_in("\u{23a}\u{e9}"), None);
    let mut diff = sample_diff();
    diff.hunks[0].lines[0].content = "\u{23a}\u{e9}".to_string();
    assert!(find_matches_in_diff_checked(&diff, "\u{e9}", &DiffSearchFlags::default(), 4).is_none());
    let sensitive = DiffSearchFlags { case_sensitive: true, ..Default::default() };
    let found = find_matches_in_diff_checked(&diff, "\u{e9}", &sensitive, 4).unwrap().unwrap();
    assert_eq!(found, vec![DiffSearchMatch { hunk_index: 0, line_index: 0, column: 2, length: 1 }]);
    let plain = find_matches_in_diff_checked(&sample_diff(), "planet", &DiffSearchFlags::default(), 4).unwrap().unwrap();
    assert_eq!(plain, find_matches_in_diff(&sample_diff(), "planet", &DiffSearchFlags::default(), 4).unwrap());
    assert_eq!(plain.len(), 1);
}
