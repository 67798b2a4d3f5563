use mahgit::config::Config;
use mahgit::diff::{InlineChange, InlineDiff, InlineDiffSegment};
use mahgit::theme::Theme;
use mahgit::ui::inline_diff::InlineDiffRenderer;
use mahgit::ui::styled::{ThemeColor, plain};

fn inline_config() -> Config {
    Config { theme: Theme::from_name("github-dark").unwrap(), tab_width: 4 }
}

#[test]
fn renderer_expands_tabs_and_applies_styles() {
    let config = inline_config();
    let renderer = InlineDiffRenderer::new(&config);
    let inline_diff = InlineDiff {
        segments: vec![
            InlineDiffSegment { content: "ab\t".to_string(), change: InlineChange::Unchanged },
            InlineDiffSegment { content: "X".to_string(), change: InlineChange::Added },
            InlineDiffSegment { content: "Y".to_string(), change: InlineChange::Removed },
        ],
    };

    let spans = renderer.inline_content_spans(&inline_diff, plain(), "+");

    assert_eq!(spans[0].text, "+");
    assert_eq!(spans[1].text, "ab  ");
    assert_eq!(spans[2].text, "X");
    assert_eq!(spans[3].text, "Y");

    assert_eq!(spans[2].style.bg, Some(ThemeColor::InlineAddition));
    assert!(spans[2].style.bold);
    assert_eq!(spans[3].style.bg, Some(ThemeColor::InlineDeletion));
    assert!(spans[3].style.bold);
    assert!(spans[1].style.bg.is_none());
}

#[test]
fn renderer_keeps_prefix_separate_from_content() {
    let config = inline_config();
    let renderer = InlineDiffRenderer::new(&config);
    let inline_diff =
        InlineDiff { segments: vec![InlineDiffSegment { content: "line".to_string(), change: InlineChange::Added }] };

    let spans = renderer.inline_content_spans(&inline_diff, plain(), "-");
    assert_eq!(spans.len(), 2);
    assert_eq!(spans[0].text, "-");
    assert_eq!(spans[1].text, "line");
}
