use vstd::prelude::*;
use syntect::easy::HighlightLines;
use syntect::highlighting::{Theme as SyntectTheme, ThemeSet};
use syntect::parsing::{SyntaxReference, SyntaxSet};
use crate::theme::PaletteColor;

verus! {

#[verifier::external_type_specification]
#[verifier::external_body]
pub struct ExSyntaxSet(SyntaxSet);

#[verifier::external_type_specification]
#[verifier::external_body]
pub struct ExSyntaxReference(SyntaxReference);

#[verifier::external_type_specification]
#[verifier::external_body]
pub struct ExSyntectTheme(SyntectTheme);

#[verifier::external_type_specification]
#[verifier::external_body]
pub struct ExHighlightLines<'a>(HighlightLines<'a>);

#[verifier::external_type_specification]
#[verifier::external_body]
pub struct ExSyntectError(syntect::Error);

/// The name of the theme the highlighter prefers.
pub open spec fn preferred_theme_name() -> Seq<char> {
    "base16-ocean.dark"@
}

/// `SyntaxSet::load_defaults_newlines`: syntect's bundled syntax
/// definitions, for lines that keep their line feed. Nothing is claimed of
/// the set.
#[verifier::external_body]
fn default_syntaxes() -> (syntaxes: SyntaxSet) {
    SyntaxSet::load_defaults_newlines()
}

/// `ThemeSet::load_defaults` and a lookup of `name` in its map of themes,
/// cloned. syntect documents `base16-ocean.dark` among the keys of its
/// default set, so that name is found; of other names nothing is claimed.
#[verifier::external_body]
fn default_theme(name: &str) -> (theme: Option<SyntectTheme>)
    ensures
        name@ == preferred_theme_name() ==> theme is Some,
{
    ThemeSet::load_defaults().themes.get(name).cloned()
}

/// `SyntaxSet::find_syntax_for_file`: the syntax for a file by its name or
/// extension, else by its first line, which syntect reads from disk (the
/// error is that of the read). What comes back depends on the disk, so
/// nothing is claimed of it.
#[verifier::external_body]
fn find_syntax_for_file<'a>(syntaxes: &'a SyntaxSet, path: &str) -> (found: Result<
    Option<&'a SyntaxReference>,
    std::io::Error,
>) {
    syntaxes.find_syntax_for_file(path)
}

/// `HighlightLines::new`: a line highlighter for `syntax` in `theme`.
#[verifier::external_body]
fn new_highlight_lines<'a>(syntax: &SyntaxReference, theme: &'a SyntectTheme) -> (lines:
    HighlightLines<'a>) {
    HighlightLines::new(syntax, theme)
}

/// The texts of pieces, one after the other.
pub open spec fn joined(texts: Seq<Seq<char>>) -> Seq<char>
    decreases texts.len(),
{
    if texts.len() == 0 {
        Seq::empty()
    } else {
        joined(texts.drop_last()) + texts.last()
    }
}

/// The texts of highlighted pieces.
pub open spec fn piece_texts(pieces: Seq<(String, (u8, u8, u8))>) -> Seq<Seq<char>> {
    pieces.map_values(|p: (String, (u8, u8, u8))| p.0@)
}

/// `HighlightLines::highlight_line`, each piece's style taken by its
/// foreground color. Which styles the pieces get depends on the lines
/// highlighted before and is not claimed. syntect's iterator cuts the line
/// from its start, one non-empty slice after the next (empty slices are
/// skipped), so the pieces spell a prefix of the line; its documentation
/// promises the whole line, but its source stops early where the scope
/// stack fails, so only a prefix is claimed.
#[verifier::external_body]
fn highlight_pieces(highlighter: &mut HighlightLines, line: &str, syntaxes: &SyntaxSet) -> (pieces: Result<
    Vec<(String, (u8, u8, u8))>,
    syntect::Error,
>)
    ensures
        pieces matches Ok(v) ==> joined(piece_texts(v@)).is_prefix_of(line@) && forall|i: int|
            0 <= i < v@.len() ==> (#[trigger] v@[i]).0@.len() > 0,
{
    highlighter.highlight_line(line, syntaxes).map(
        |ranges| ranges.into_iter().map(|(style, text)| (text.to_string(), (style.foreground.r, style.foreground.g, style.foreground.b))).collect(),
    )
}

/// The colored spans of one highlighted piece: its text in its RGB color.
pub open spec fn colored_piece(piece: (String, (u8, u8, u8))) -> (Seq<char>, PaletteColor) {
    (piece.0@, PaletteColor::Rgb(piece.1.0, piece.1.1, piece.1.2))
}

/// The texts of colored spans.
pub open spec fn span_texts(spans: Seq<(String, PaletteColor)>) -> Seq<Seq<char>> {
    spans.map_values(|s: (String, PaletteColor)| s.0@)
}

/// The spans of a highlighted line: one per piece, in order, or none where
/// highlighting failed.
pub fn spans_of_pieces(pieces: Result<Vec<(String, (u8, u8, u8))>, syntect::Error>) -> (spans: Vec<
    (String, PaletteColor),
>)
    ensures
        pieces is Err ==> spans@.len() == 0,
        pieces matches Ok(v) ==> spans@.len() == v@.len() && forall|i: int|
            0 <= i < v@.len() ==> (#[trigger] spans@[i]).0@ == colored_piece(v@[i]).0 && spans@[i].1
                == colored_piece(v@[i]).1,
        pieces matches Ok(v) ==> span_texts(spans@) == piece_texts(v@),
{
    let mut spans: Vec<(String, PaletteColor)> = Vec::new();
    match pieces {
        Ok(v) => {
            let mut rest = v;
            let ghost all = rest@;
            let mut taken: Vec<(String, PaletteColor)> = Vec::new();
            let mut i: usize = 0;
            while i < rest.len()
                invariant
                    rest@ == all,
                    i <= all.len(),
                    taken@.len() == i,
                    forall|j: int|
                        0 <= j < i ==> (#[trigger] taken@[j]).0@ == colored_piece(all[j]).0 && taken@[j].1
                            == colored_piece(all[j]).1,
                decreases all.len() - i,
            {
                let text = rest[i].0.clone();
                let (r, g, b) = rest[i].1;
                taken.push((text, PaletteColor::Rgb(r, g, b)));
                i += 1;
            }
            assert(span_texts(taken@) =~= piece_texts(all));
            spans = taken;
        },
        Err(_) => {},
    }
    spans
}

/// The syntax a lookup found: the one found, none where none was found or
/// the lookup's read of the file failed.
pub fn syntax_found<'a>(found: Result<Option<&'a SyntaxReference>, std::io::Error>) -> (syntax: Option<
    &'a SyntaxReference,
>)
    ensures
        found matches Ok(Some(s)) ==> syntax == Some(s),
        !(found matches Ok(Some(_))) ==> syntax is None,
{
    match found {
        Ok(Some(syntax)) => Some(syntax),
        _ => None,
    }
}

/// SyntaxHighlighter provides syntax highlighting for diff content using syntect.
pub struct SyntaxHighlighter {
    syntax_set: SyntaxSet,
    theme: SyntectTheme,
}

impl SyntaxHighlighter {
    /// The syntax definitions held.
    pub closed spec fn syntaxes(&self) -> SyntaxSet {
        self.syntax_set
    }

    /// A highlighter over syntect's default syntaxes, in the dark theme
    /// `base16-ocean.dark` (`Solarized (dark)` where that is missing).
    pub fn new() -> (highlighter: Self) {
        let syntax_set = default_syntaxes();
        let preferred = default_theme("base16-ocean.dark");
        proof {
            reveal_strlit("base16-ocean.dark");
        }
        let theme = match preferred {
            Some(theme) => theme,
            None => default_theme("Solarized (dark)").unwrap(),
        };
        SyntaxHighlighter { syntax_set, theme }
    }

    /// The syntax definitions the highlighter knows.
    pub fn syntax_set(&self) -> (syntaxes: &SyntaxSet)
        ensures
            *syntaxes == self.syntaxes(),
    {
        &self.syntax_set
    }

    /// Detect the programming language from a file path: `None` where it
    /// cannot be detected, or where reading the file's first line failed.
    pub fn detect_syntax(&self, path: &str) -> (syntax: Option<&SyntaxReference>) {
        syntax_found(find_syntax_for_file(&self.syntax_set, path))
    }

    /// Highlight a single line of code and return colored spans, none where
    /// highlighting fails: non-empty pieces of the line, in order from its
    /// start, each in a 24-bit color.
    pub fn highlight_line(&self, line: &str, _syntax: &SyntaxReference, highlighter: &mut HighlightLines) -> (spans:
        Vec<(String, PaletteColor)>)
        ensures
            joined(span_texts(spans@)).is_prefix_of(line@),
            forall|i: int| 0 <= i < spans@.len() ==> (#[trigger] spans@[i]).0@.len() > 0 && spans@[i].1 is Rgb,
    {
        let pieces = highlight_pieces(highlighter, line, &self.syntax_set);
        let ghost outcome = pieces;
        let spans = spans_of_pieces(pieces);
        proof {
            if outcome is Err {
                assert(span_texts(spans@) =~= Seq::<Seq<char>>::empty());
            } else {
                let v = outcome->Ok_0;
                assert forall|i: int| 0 <= i < spans@.len() implies (#[trigger] spans@[i]).0@.len() > 0 && spans@[i].1 is Rgb by {
                    assert(v@[i].0@.len() > 0);
                }
            }
        }
        spans
    }

    /// Create a new HighlightLines instance for syntax highlighting.
    pub fn create_highlighter<'a>(&'a self, syntax: &SyntaxReference) -> (lines: HighlightLines<'a>) {
        new_highlight_lines(syntax, &self.theme)
    }
}

} // verus!
