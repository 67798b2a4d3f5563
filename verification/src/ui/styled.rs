use vstd::prelude::*;

verus! {

/// The colors of the theme a piece of text can be drawn in.
#[derive(Debug, Clone, Copy, PartialEq, Eq, Structural)]
pub enum ThemeColor {
    Staged,
    Unstaged,
    Untracked,
    Conflicted,
    SelectedFg,
    SelectedBg,
    DiffContext,
    DiffNoNewline,
    DiffLineNumber,
    GutterAddition,
    GutterDeletion,
    GutterContext,
    GutterFocused,
    HunkHighlight,
    InlineAddition,
    InlineDeletion,
    /// The foreground of the hunk-header style (yellow where it has none).
    HunkHeaderFg,
    HelpKey,
    HelpDesc,
    LogHash,
    LogAuthor,
    LogDate,
}

/// The whole styles of the theme a piece of text can start from.
#[derive(Debug, Clone, Copy, PartialEq, Eq, Structural)]
pub enum BaseStyle {
    Plain,
    SectionHeader,
    HunkHeader,
}

/// How a piece of text is drawn: a base style, then a foreground and a
/// background color where set, and the bold, dim and italic modifiers.
#[derive(Debug, Clone, Copy, PartialEq, Eq, Structural)]
pub struct TextStyle {
    pub base: BaseStyle,
    pub fg: Option<ThemeColor>,
    pub bg: Option<ThemeColor>,
    pub bold: bool,
    pub dim: bool,
    pub italic: bool,
}

/// A piece of text with its style.
#[derive(Debug, Clone)]
pub struct StyledText {
    pub text: String,
    pub style: TextStyle,
}

impl View for StyledText {
    type V = (Seq<char>, TextStyle);

    open spec fn view(&self) -> (Seq<char>, TextStyle) {
        (self.text@, self.style)
    }
}

/// The texts and styles of a line of pieces.
pub open spec fn line_view(line: Seq<StyledText>) -> Seq<(Seq<char>, TextStyle)> {
    line.map_values(|t: StyledText| t@)
}

/// The plain style.
pub open spec fn plain_spec() -> TextStyle {
    TextStyle { base: BaseStyle::Plain, fg: None, bg: None, bold: false, dim: false, italic: false }
}

/// The plain style.
pub fn plain() -> (style: TextStyle)
    ensures
        style == plain_spec(),
{
    TextStyle { base: BaseStyle::Plain, fg: None, bg: None, bold: false, dim: false, italic: false }
}

/// Plain text in one color.
pub open spec fn colored_spec(color: ThemeColor) -> TextStyle {
    TextStyle { fg: Some(color), ..plain_spec() }
}

/// Plain text in one color.
pub fn colored(color: ThemeColor) -> (style: TextStyle)
    ensures
        style == colored_spec(color),
{
    TextStyle { base: BaseStyle::Plain, fg: Some(color), bg: None, bold: false, dim: false, italic: false }
}

/// The style of the selected row.
pub open spec fn selected_spec() -> TextStyle {
    TextStyle {
        base: BaseStyle::Plain,
        fg: Some(ThemeColor::SelectedFg),
        bg: Some(ThemeColor::SelectedBg),
        bold: true,
        dim: false,
        italic: false,
    }
}

/// The style of the selected row.
pub fn selected_style() -> (style: TextStyle)
    ensures
        style == selected_spec(),
{
    TextStyle {
        base: BaseStyle::Plain,
        fg: Some(ThemeColor::SelectedFg),
        bg: Some(ThemeColor::SelectedBg),
        bold: true,
        dim: false,
        italic: false,
    }
}

/// The style of a placeholder note: a muted color in italics.
pub open spec fn note_spec() -> TextStyle {
    TextStyle { fg: Some(ThemeColor::DiffNoNewline), italic: true, ..plain_spec() }
}

/// A piece of text.
pub fn piece(text: String, style: TextStyle) -> (t: StyledText)
    ensures
        t@ == (text@, style),
{
    StyledText { text, style }
}

} // verus!
