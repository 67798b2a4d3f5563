use mahgit::diff::syntax::{spans_of_pieces, syntax_found, SyntaxHighlighter};
use mahgit::theme::PaletteColor;

#[test]
fn test_create_highlighter() {
    let highlighter = SyntaxHighlighter::new();
    assert!(!highlighter.syntax_set().syntaxes().is_empty());
}

#[test]
fn test_detect_syntax_rust() {
    let highlighter = SyntaxHighlighter::new();
    let syntax = highlighter.detect_syntax("test.rs");
    assert!(syntax.is_some());
    assert_eq!(syntax.unwrap().name, "Rust");
}

#[test]
fn test_detect_syntax_markdown() {
    let highlighter = SyntaxHighlighter::new();
    let syntax = highlighter.detect_syntax("README.md");
    assert!(syntax.is_some());
    assert_eq!(syntax.unwrap().name, "Markdown");
}

#[test]
fn test_detect_syntax_unknown() {
    let highlighter = SyntaxHighlighter::new();
    let syntax = highlighter.detect_syntax("test.unknown");
    let _ = syntax;
}

#[test]
fn test_highlight_rust_code() {
    let highlighter = SyntaxHighlighter::new();
    let syntax = highlighter.detect_syntax("test.rs").unwrap();
    let mut highlight_lines = highlighter.create_highlighter(syntax);
    let line = "fn main() {";
    let spans = highlighter.highlight_line(line, syntax, &mut highlight_lines);
    assert!(!spans.is_empty());
    assert!(spans.iter().any(|(text, _)| text.contains("fn")));
}

#[test]
fn highlighted_line_pieces_cover_the_line_in_rgb() {
    let highlighter = SyntaxHighlighter::new();
    let syntax = highlighter.detect_syntax("main.rs").unwrap();
    let mut highlight_lines = highlighter.create_highlighter(syntax);
    let line = "let x = 1;\n";
    let spans = highlighter.highlight_line(line, syntax, &mut highlight_lines);
    let joined: String = spans.iter().map(|(t, _)| t.as_str()).collect();
    assert_eq!(joined, line);
    assert!(spans.iter().all(|(_, c)| matches!(c, PaletteColor::Rgb(..))));
}

#[test]
fn pieces_become_rgb_spans_and_failures_none() {
    let spans = spans_of_pieces(Ok(vec![("fn".to_string(), (255, 128, 64)), (" main".to_string(), (1, 2, 3))]));
    assert_eq!(
        spans,
        vec![("fn".to_string(), PaletteColor::Rgb(255, 128, 64)), (" main".to_string(), PaletteColor::Rgb(1, 2, 3))]
    );
    let failed = spans_of_pieces(Err(syntect::Error::Io(std::io::Error::other("unreadable"))));
    assert!(failed.is_empty());
}

#[test]
fn test_syntect_to_ratatui_color() {
    let test_cases = vec![
        ((255, 128, 64), PaletteColor::Rgb(255, 128, 64)),
        ((200, 100, 200), PaletteColor::Rgb(200, 100, 200)),
        ((100, 200, 200), PaletteColor::Rgb(100, 200, 200)),
        ((200, 200, 100), PaletteColor::Rgb(200, 200, 100)),
        ((128, 128, 128), PaletteColor::Rgb(128, 128, 128)),
    ];
    for ((r, g, b), expected) in test_cases {
        let spans = spans_of_pieces(Ok(vec![("x".to_string(), (r, g, b))]));
        assert_eq!(spans[0].1, expected, "Failed for RGB({}, {}, {})", r, g, b);
    }
}

#[test]
fn lookups_give_the_syntax_found_or_none() {
    let highlighter = SyntaxHighlighter::new();
    let rust = highlighter.detect_syntax("lib.rs").unwrap();
    assert_eq!(syntax_found(Ok(Some(rust))).unwrap().name, "Rust");
    assert!(syntax_found(Ok(None)).is_none());
    assert!(syntax_found(Err(std::io::Error::other("unreadable"))).is_none());
}

fn distinct_colors(spans: &[(String, PaletteColor)]) -> usize {
    let mut seen: Vec<PaletteColor> = Vec::new();
    for (_, color) in spans {
        if !seen.contains(color) {
            seen.push(*color);
        }
    }
    seen.len()
}

#[test]
fn test_syntax_highlighter_basic() {
    let highlighter = SyntaxHighlighter::new();
    let syntax = highlighter.detect_syntax("test.rs");
    assert!(syntax.is_some(), "Should detect Rust syntax");
}

#[test]
fn test_syntax_highlighter_produces_colored_spans() {
    let highlighter = SyntaxHighlighter::new();
    let syntax = highlighter.detect_syntax("test.rs").unwrap();
    let mut hl = highlighter.create_highlighter(syntax);
    let line = "fn main() {";
    let spans = highlighter.highlight_line(line, syntax, &mut hl);
    assert!(spans.len() > 1, "Should have multiple spans");
    assert!(distinct_colors(&spans) > 1, "Should have different colors");
}

#[test]
fn test_syntax_highlighter_actually_highlights() {
    let highlighter = SyntaxHighlighter::new();
    let syntax = highlighter.detect_syntax("test.rs");
    assert!(syntax.is_some(), "Should detect Rust syntax for .rs files");
    let syntax_ref = syntax.unwrap();
    assert_eq!(syntax_ref.name, "Rust");
    let mut hl = highlighter.create_highlighter(syntax_ref);
    let line = "fn main() {";
    let highlighted = highlighter.highlight_line(line, syntax_ref, &mut hl);
    assert!(
        highlighted.len() >= 3,
        "Expected at least 3 segments from syntax highlighting 'fn main() {{', got {}",
        highlighted.len()
    );
    let unique = distinct_colors(&highlighted);
    assert!(unique >= 2, "Expected at least 2 different colors for 'fn main() {{', got {}", unique);
}

#[test]
fn test_syntax_detection_for_rust_file() {
    let highlighter = SyntaxHighlighter::new();
    let test_paths = vec!["test.rs", "src/main.rs", "lib.rs", "src/diff/syntax.rs"];
    for path in test_paths {
        let syntax = highlighter.detect_syntax(path);
        assert!(syntax.is_some(), "Should detect Rust syntax for path: {}", path);
        assert_eq!(syntax.unwrap().name, "Rust", "Path: {}", path);
    }
}

#[test]
fn test_syntax_highlighter_detects_rust() {
    let highlighter = SyntaxHighlighter::new();
    let syntax = highlighter.detect_syntax("test.rs");
    assert!(syntax.is_some());
    assert_eq!(syntax.unwrap().name, "Rust");
}

#[test]
fn list_available_themes() {
    let theme_set = syntect::highlighting::ThemeSet::load_defaults();
    assert!(!theme_set.themes.is_empty());
}

#[test]
fn test_syntax_highlighter_highlights_rust_code() {
    let highlighter = SyntaxHighlighter::new();
    let syntax = highlighter.detect_syntax("test.rs").unwrap();
    let mut hl = highlighter.create_highlighter(syntax);
    let line = "fn main() {";
    let spans = highlighter.highlight_line(line, syntax, &mut hl);
    assert!(spans.len() > 1, "Should have multiple syntax-highlighted spans");
    assert!(distinct_colors(&spans) > 1, "Should have different colors for different tokens");
}
