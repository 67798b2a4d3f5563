use vstd::prelude::*;
use crate::config::Config;
use crate::diff::InlineDiff;
use crate::ui::diff_renderer::{inline_content_spans, inline_pieces, segments_fit};
use crate::ui::styled::{StyledText, TextStyle, line_view};

verus! {

/// Draws the inline (word-level) diff of a line with the configured tab width.
pub struct InlineDiffRenderer<'a> {
    config: &'a Config,
}

impl<'a> InlineDiffRenderer<'a> {
    /// The configuration the renderer draws with.
    pub closed spec fn config_spec(&self) -> &'a Config {
        self.config
    }

    pub fn new(config: &'a Config) -> (renderer: Self)
        ensures
            renderer.config_spec() == config,
    {
        Self { config }
    }

    /// The prefix in the base style, then each segment with its tabs
    /// expanded (columns counted across segments), changed segments on the
    /// addition or deletion background in bold.
    pub fn inline_content_spans(&self, inline_diff: &InlineDiff, base_style: TextStyle, prefix: &str) -> (spans: Vec<
        StyledText,
    >)
        requires
            segments_fit(inline_diff@, self.config_spec().tab_width as nat, 0),
        ensures
            line_view(spans@) == inline_pieces(inline_diff@, base_style, prefix@, self.config_spec().tab_width as nat),
    {
        inline_content_spans(inline_diff, base_style, prefix, self.config.tab_width)
    }
}

} // verus!
