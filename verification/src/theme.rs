use vstd::prelude::*;
use crate::ui::styled::ThemeColor;

verus! {

/// A color of a palette: a 24-bit RGB color, or the terminal's yellow.
#[derive(Debug, Clone, Copy, PartialEq, Eq, Structural)]
pub enum PaletteColor {
    Rgb(u8, u8, u8),
    Yellow,
}

/// A whole style of a palette: a foreground color where set, and bold.
#[derive(Debug, Clone, Copy, PartialEq, Eq, Structural)]
pub struct PaletteStyle {
    pub fg: Option<PaletteColor>,
    pub bold: bool,
}

/// Theme defines all colors and styles used throughout the application.
#[derive(Debug, Clone, Copy, PartialEq, Eq, Structural)]
pub struct Theme {
    pub staged: PaletteColor,
    pub unstaged: PaletteColor,
    pub untracked: PaletteColor,
    pub conflicted: PaletteColor,
    pub selected_fg: PaletteColor,
    pub selected_bg: PaletteColor,
    pub section_header: PaletteStyle,
    pub diff_context: PaletteColor,
    pub diff_hunk_header: PaletteStyle,
    pub diff_no_newline: PaletteColor,
    pub diff_line_number: PaletteColor,
    pub diff_gutter_addition: PaletteColor,
    pub diff_gutter_deletion: PaletteColor,
    pub diff_gutter_context: PaletteColor,
    pub diff_gutter_focused: PaletteColor,
    pub diff_hunk_highlight: PaletteColor,
    pub diff_inline_addition: PaletteColor,
    pub diff_inline_deletion: PaletteColor,
    pub help_key: PaletteColor,
    pub help_desc: PaletteColor,
}

/// GitHub Dark: 24-bit RGB colors matching GitHub's dark theme.
pub open spec fn github_dark_spec() -> Theme {
    Theme {
        staged: PaletteColor::Rgb(63, 185, 80),
        unstaged: PaletteColor::Rgb(248, 81, 73),
        untracked: PaletteColor::Rgb(188, 140, 255),
        conflicted: PaletteColor::Rgb(219, 171, 9),
        selected_fg: PaletteColor::Rgb(255, 255, 255),
        selected_bg: PaletteColor::Rgb(45, 51, 59),
        section_header: PaletteStyle { fg: Some(PaletteColor::Rgb(127, 219, 202)), bold: true },
        diff_context: PaletteColor::Rgb(201, 209, 217),
        diff_hunk_header: PaletteStyle { fg: Some(PaletteColor::Rgb(224, 175, 104)), bold: true },
        diff_no_newline: PaletteColor::Rgb(110, 118, 129),
        diff_line_number: PaletteColor::Rgb(110, 118, 129),
        diff_gutter_addition: PaletteColor::Rgb(46, 160, 67),
        diff_gutter_deletion: PaletteColor::Rgb(190, 74, 72),
        diff_gutter_context: PaletteColor::Rgb(99, 110, 123),
        diff_gutter_focused: PaletteColor::Rgb(78, 87, 99),
        diff_hunk_highlight: PaletteColor::Rgb(45, 51, 59),
        diff_inline_addition: PaletteColor::Rgb(35, 76, 38),
        diff_inline_deletion: PaletteColor::Rgb(81, 38, 33),
        help_key: PaletteColor::Rgb(127, 219, 202),
        help_desc: PaletteColor::Rgb(201, 209, 217),
    }
}

/// The color a theme gives a role, where it has one: the hunk header's
/// foreground (yellow where it sets none) for the hunk-header role; none for
/// the log's roles, which this theme leaves to the terminal.
pub open spec fn role_color(theme: Theme, role: ThemeColor) -> Option<PaletteColor> {
    match role {
        ThemeColor::Staged => Some(theme.staged),
        ThemeColor::Unstaged => Some(theme.unstaged),
        ThemeColor::Untracked => Some(theme.untracked),
        ThemeColor::Conflicted => Some(theme.conflicted),
        ThemeColor::SelectedFg => Some(theme.selected_fg),
        ThemeColor::SelectedBg => Some(theme.selected_bg),
        ThemeColor::DiffContext => Some(theme.diff_context),
        ThemeColor::DiffNoNewline => Some(theme.diff_no_newline),
        ThemeColor::DiffLineNumber => Some(theme.diff_line_number),
        ThemeColor::GutterAddition => Some(theme.diff_gutter_addition),
        ThemeColor::GutterDeletion => Some(theme.diff_gutter_deletion),
        ThemeColor::GutterContext => Some(theme.diff_gutter_context),
        ThemeColor::GutterFocused => Some(theme.diff_gutter_focused),
        ThemeColor::HunkHighlight => Some(theme.diff_hunk_highlight),
        ThemeColor::InlineAddition => Some(theme.diff_inline_addition),
        ThemeColor::InlineDeletion => Some(theme.diff_inline_deletion),
        ThemeColor::HunkHeaderFg => Some(
            match theme.diff_hunk_header.fg {
                Some(c) => c,
                None => PaletteColor::Yellow,
            },
        ),
        ThemeColor::HelpKey => Some(theme.help_key),
        ThemeColor::HelpDesc => Some(theme.help_desc),
        ThemeColor::LogHash => None,
        ThemeColor::LogAuthor => None,
        ThemeColor::LogDate => None,
    }
}

impl Default for Theme {
    fn default() -> (theme: Self)
        ensures
            theme == github_dark_spec(),
    {
        Self::github_dark()
    }
}

impl Theme {
    /// Load a theme by name. Returns None if the theme name is unknown.
    pub fn from_name(name: &str) -> (theme: Option<Self>)
        ensures
            theme == (if name@ == "github-dark"@ { Some(github_dark_spec()) } else { None }),
    {
        if crate::text::same_text(name, "github-dark") {
            Some(Self::github_dark())
        } else {
            None
        }
    }

    /// GitHub Dark - modern 24-bit RGB colors matching GitHub's dark theme
    pub fn github_dark() -> (theme: Self)
        ensures
            theme == github_dark_spec(),
    {
        Self {
            staged: PaletteColor::Rgb(63, 185, 80),
            unstaged: PaletteColor::Rgb(248, 81, 73),
            untracked: PaletteColor::Rgb(188, 140, 255),
            conflicted: PaletteColor::Rgb(219, 171, 9),
            selected_fg: PaletteColor::Rgb(255, 255, 255),
            selected_bg: PaletteColor::Rgb(45, 51, 59),
            section_header: PaletteStyle { fg: Some(PaletteColor::Rgb(127, 219, 202)), bold: true },
            diff_context: PaletteColor::Rgb(201, 209, 217),
            diff_hunk_header: PaletteStyle { fg: Some(PaletteColor::Rgb(224, 175, 104)), bold: true },
            diff_no_newline: PaletteColor::Rgb(110, 118, 129),
            diff_line_number: PaletteColor::Rgb(110, 118, 129),
            diff_gutter_addition: PaletteColor::Rgb(46, 160, 67),
            diff_gutter_deletion: PaletteColor::Rgb(190, 74, 72),
            diff_gutter_context: PaletteColor::Rgb(99, 110, 123),
            diff_gutter_focused: PaletteColor::Rgb(78, 87, 99),
            diff_hunk_highlight: PaletteColor::Rgb(45, 51, 59),
            diff_inline_addition: PaletteColor::Rgb(35, 76, 38),
            diff_inline_deletion: PaletteColor::Rgb(81, 38, 33),
            help_key: PaletteColor::Rgb(127, 219, 202),
            help_desc: PaletteColor::Rgb(201, 209, 217),
        }
    }

    /// The color this theme gives a role (see `role_color`).
    pub fn color(&self, role: ThemeColor) -> (color: Option<PaletteColor>)
        ensures
            color == role_color(*self, role),
    {
        match role {
            ThemeColor::Staged => Some(self.staged),
            ThemeColor::Unstaged => Some(self.unstaged),
            ThemeColor::Untracked => Some(self.untracked),
            ThemeColor::Conflicted => Some(self.conflicted),
            ThemeColor::SelectedFg => Some(self.selected_fg),
            ThemeColor::SelectedBg => Some(self.selected_bg),
            ThemeColor::DiffContext => Some(self.diff_context),
            ThemeColor::DiffNoNewline => Some(self.diff_no_newline),
            ThemeColor::DiffLineNumber => Some(self.diff_line_number),
            ThemeColor::GutterAddition => Some(self.diff_gutter_addition),
            ThemeColor::GutterDeletion => Some(self.diff_gutter_deletion),
            ThemeColor::GutterContext => Some(self.diff_gutter_context),
            ThemeColor::GutterFocused => Some(self.diff_gutter_focused),
            ThemeColor::HunkHighlight => Some(self.diff_hunk_highlight),
            ThemeColor::InlineAddition => Some(self.diff_inline_addition),
            ThemeColor::InlineDeletion => Some(self.diff_inline_deletion),
            ThemeColor::HunkHeaderFg => Some(
                match self.diff_hunk_header.fg {
                    Some(c) => c,
                    None => PaletteColor::Yellow,
                },
            ),
            ThemeColor::HelpKey => Some(self.help_key),
            ThemeColor::HelpDesc => Some(self.help_desc),
            ThemeColor::LogHash => None,
            ThemeColor::LogAuthor => None,
            ThemeColor::LogDate => None,
        }
    }
}

} // verus!
