use vstd::prelude::*;
use crate::config::{expand_tabs_spec, expand_tabs_with_width};
use crate::diff::{Diff, DiffHunk, DiffLine, InlineChange, InlineDiff, InlineDiffSegment, LineType};
use crate::text::{decimal, decimal_string, owned, push_char, push_str, spaces};
use crate::ui::styled::{
    BaseStyle, StyledText, TextStyle, ThemeColor, colored, line_view, piece, plain, plain_spec,
};

verus! {

#[derive(Debug, Clone, Copy, PartialEq, Eq, Structural)]
pub struct LineNumberWidths {
    pub old: usize,
    pub new: usize,
}

/// What diff rendering needs from the configuration.
#[derive(Debug, Clone, Copy, PartialEq, Eq, Structural)]
pub struct DiffRenderSettings {
    pub tab_width: usize,
    pub show_line_numbers: bool,
}

/// The larger of two numbers.
pub open spec fn max_nat(a: nat, b: nat) -> nat {
    if a >= b { a } else { b }
}

/// The largest old (or new) line number among the lines, zero for none.
pub open spec fn max_line_number(lines: Seq<DiffLine>, old: bool) -> nat
    decreases lines.len(),
{
    if lines.len() == 0 {
        0
    } else {
        let n = if old { lines.last().old_line_no } else { lines.last().new_line_no };
        max_nat(
            max_line_number(lines.drop_last(), old),
            match n {
                Some(k) => k as nat,
                None => 0,
            },
        )
    }
}

/// The largest old (or new) line number in the hunks, zero for none.
pub open spec fn max_hunk_line_number(hunks: Seq<DiffHunk>, old: bool) -> nat
    decreases hunks.len(),
{
    if hunks.len() == 0 {
        0
    } else {
        max_nat(max_hunk_line_number(hunks.drop_last(), old), max_line_number(hunks.last().lines@, old))
    }
}

proof fn lemma_max_line_number_bound(lines: Seq<DiffLine>, old: bool)
    ensures
        max_line_number(lines, old) <= usize::MAX,
    decreases lines.len(),
{
    if lines.len() > 0 {
        lemma_max_line_number_bound(lines.drop_last(), old);
    }
}

proof fn lemma_max_hunk_line_number_bound(hunks: Seq<DiffHunk>, old: bool)
    ensures
        max_hunk_line_number(hunks, old) <= usize::MAX,
    decreases hunks.len(),
{
    if hunks.len() > 0 {
        lemma_max_hunk_line_number_bound(hunks.drop_last(), old);
        lemma_max_line_number_bound(hunks.last().lines@, old);
    }
}

/// The number of decimal digits of `n`.
pub fn digit_width(value: usize) -> (width: usize)
    ensures
        width == decimal(value as nat).len(),
        width <= value + 1,
    decreases value,
{
    if value >= 10 {
        digit_width(value / 10) + 1
    } else {
        1
    }
}

fn max_line_number_in(lines: &Vec<DiffLine>, old: bool) -> (max: usize)
    ensures
        max == max_line_number(lines@, old),
{
    let mut max: usize = 0;
    let mut i: usize = 0;
    while i < lines.len()
        invariant
            i <= lines@.len(),
            max == max_line_number(lines@.take(i as int), old),
        decreases lines.len() - i,
    {
        assert(lines@.take(i + 1).drop_last() =~= lines@.take(i as int));
        let n = if old { lines[i].old_line_no } else { lines[i].new_line_no };
        match n {
            Some(k) => {
                if k > max {
                    max = k;
                }
            },
            None => {},
        }
        i += 1;
    }
    assert(lines@.take(lines@.len() as int) =~= lines@);
    max
}

/// A line number right-aligned in `width` columns; blank for none.
pub open spec fn formatted_line_number(number: Option<usize>, width: nat) -> Seq<char> {
    let text = match number {
        Some(n) => decimal(n as nat),
        None => Seq::empty(),
    };
    if text.len() >= width {
        text
    } else {
        spaces((width - text.len()) as nat) + text
    }
}

/// `text` with tabs expanded, starting at column `col` of the output.
pub open spec fn expand_from(text: Seq<char>, tab_width: nat, col: nat) -> Seq<char>
    decreases text.len(),
{
    if text.len() == 0 {
        Seq::empty()
    } else {
        let before = expand_from(text.drop_last(), tab_width, col);
        if text.last() == '\t' {
            before + spaces((tab_width - (col + before.len()) % tab_width) as nat)
        } else {
            before.push(text.last())
        }
    }
}

proof fn lemma_expand_from_monotone(text: Seq<char>, tab_width: nat, col: nat, i: int, j: int)
    requires
        0 <= i <= j <= text.len(),
        tab_width > 0 || !text.contains('\t'),
    ensures
        expand_from(text.take(i), tab_width, col).len() <= expand_from(text.take(j), tab_width, col).len(),
    decreases j - i,
{
    if i < j {
        lemma_expand_from_monotone(text, tab_width, col, i, j - 1);
        assert(text.take(j).drop_last() =~= text.take(j - 1));
    }
}

fn expand_tabs_from(text: &str, tab_width: usize, col: usize) -> (expanded: String)
    requires
        tab_width > 0 || !text@.contains('\t'),
        col + expand_from(text@, tab_width as nat, col as nat).len() <= usize::MAX,
    ensures
        expanded@ == expand_from(text@, tab_width as nat, col as nat),
{
    let ghost t = text@;
    let mut result = String::new();
    let mut len: usize = 0;
    for ch in it: text.chars()
        invariant
            it.seq() == t,
            t == text@,
            tab_width > 0 || !t.contains('\t'),
            col + expand_from(t, tab_width as nat, col as nat).len() <= usize::MAX,
            result@ == expand_from(t.take(it.index() as int), tab_width as nat, col as nat),
            len == result@.len(),
    {
        proof {
            assert(t.take(it.index() + 1).drop_last() =~= t.take(it.index() as int));
            lemma_expand_from_monotone(t, tab_width as nat, col as nat, it.index() + 1, t.len() as int);
            assert(t.take(t.len() as int) =~= t);
        }
        if ch == '\t' {
            let need = tab_width - ((col + len) % tab_width);
            let mut k: usize = 0;
            while k < need
                invariant
                    k <= need,
                    result@ == expand_from(t.take(it.index() as int), tab_width as nat, col as nat) + spaces(
                        k as nat,
                    ),
                decreases need - k,
            {
                push_char(&mut result, ' ');
                k += 1;
                assert(result@ =~= expand_from(t.take(it.index() as int), tab_width as nat, col as nat) + spaces(
                    k as nat,
                ));
            }
            len += need;
        } else {
            push_char(&mut result, ch);
            len += 1;
        }
    }
    assert(t.take(t.len() as int) =~= t);
    result
}

/// The marker a diff line is drawn with.
pub open spec fn line_marker(line_type: LineType) -> Seq<char> {
    match line_type {
        LineType::Addition => "+"@,
        LineType::Deletion => "-"@,
        LineType::Context => " "@,
        LineType::NoNewlineEOF => "\\"@,
    }
}

/// The color of a diff line's text.
pub open spec fn content_color(line_type: LineType) -> ThemeColor {
    match line_type {
        LineType::Addition => ThemeColor::Staged,
        LineType::Deletion => ThemeColor::Unstaged,
        LineType::Context => ThemeColor::DiffContext,
        LineType::NoNewlineEOF => ThemeColor::DiffNoNewline,
    }
}

/// The color of a diff line's gutter bar.
pub open spec fn gutter_color(line_type: LineType) -> ThemeColor {
    match line_type {
        LineType::Addition => ThemeColor::GutterAddition,
        LineType::Deletion => ThemeColor::GutterDeletion,
        LineType::Context => ThemeColor::GutterContext,
        LineType::NoNewlineEOF => ThemeColor::DiffNoNewline,
    }
}

/// In the active hunk, a style with no background gets the hunk highlight.
pub open spec fn highlight(style: TextStyle, active: bool) -> TextStyle {
    if active && style.bg is None {
        TextStyle { bg: Some(ThemeColor::HunkHighlight), ..style }
    } else {
        style
    }
}

/// Context lines outside the active hunk are dimmed.
pub open spec fn dimmed(style: TextStyle, line_type: LineType, active: bool) -> TextStyle {
    if line_type == LineType::Context && !active {
        TextStyle { dim: true, ..style }
    } else {
        style
    }
}

/// The style of a diff line's text: its color (none when the line has an
/// inline diff), dimmed and highlighted as the hunk calls for.
pub open spec fn content_style_spec(line: DiffLine, active: bool) -> TextStyle {
    let base = if line.inline_diff is Some {
        plain_spec()
    } else {
        TextStyle { fg: Some(content_color(line.line_type)), ..plain_spec() }
    };
    highlight(dimmed(base, line.line_type, active), active)
}

/// The style of a diff line's gutter bar.
pub open spec fn gutter_style_spec(line: DiffLine, active: bool) -> TextStyle {
    let base = dimmed(TextStyle { fg: Some(gutter_color(line.line_type)), ..plain_spec() }, line.line_type, active);
    let focused = if active { TextStyle { bg: Some(ThemeColor::GutterFocused), ..base } } else { base };
    highlight(focused, active)
}

/// The style of a diff line's line numbers.
pub open spec fn number_style_spec(line: DiffLine, active: bool) -> TextStyle {
    highlight(
        dimmed(TextStyle { fg: Some(ThemeColor::DiffLineNumber), ..plain_spec() }, line.line_type, active),
        active,
    )
}

/// The style of an inline-diff segment: the line's style, with the addition
/// or deletion background and bold for changed words.
pub open spec fn segment_style(base: TextStyle, change: InlineChange) -> TextStyle {
    match change {
        InlineChange::Unchanged => base,
        InlineChange::Added => TextStyle { bg: Some(ThemeColor::InlineAddition), bold: true, ..base },
        InlineChange::Removed => TextStyle { bg: Some(ThemeColor::InlineDeletion), bold: true, ..base },
    }
}

/// The pieces of the segments from column `col` on: each segment's text
/// with tabs expanded where it starts, in its style.
pub open spec fn segment_pieces(
    segments: Seq<(Seq<char>, InlineChange)>,
    base: TextStyle,
    tab_width: nat,
    col: nat,
) -> Seq<(Seq<char>, TextStyle)>
    decreases segments.len(),
{
    if segments.len() == 0 {
        Seq::empty()
    } else {
        let text = expand_from(segments[0].0, tab_width, col);
        seq![(text, segment_style(base, segments[0].1))] + segment_pieces(
            segments.drop_first(),
            base,
            tab_width,
            col + text.len(),
        )
    }
}

/// The segments can be expanded: no tab without a tab width, and every
/// column stays within `usize`.
pub open spec fn segments_fit(segments: Seq<(Seq<char>, InlineChange)>, tab_width: nat, col: nat) -> bool
    decreases segments.len(),
{
    if segments.len() == 0 {
        col <= usize::MAX
    } else {
        let text = expand_from(segments[0].0, tab_width, col);
        &&& tab_width > 0 || !segments[0].0.contains('\t')
        &&& col + text.len() <= usize::MAX
        &&& segments_fit(segments.drop_first(), tab_width, col + text.len())
    }
}

/// The pieces of a line drawn from its inline diff: the marker, then the segments.
pub open spec fn inline_pieces(
    segments: Seq<(Seq<char>, InlineChange)>,
    base: TextStyle,
    marker: Seq<char>,
    tab_width: nat,
) -> Seq<(Seq<char>, TextStyle)> {
    seq![(marker, base)] + segment_pieces(segments, base, tab_width, 0)
}

/// Draws an inline diff: the marker in the line's style, then each segment
/// with tabs expanded (columns counted across segments) and changed words
/// highlighted.
pub fn inline_content_spans(inline_diff: &InlineDiff, base_style: TextStyle, prefix: &str, tab_width: usize) -> (spans:
    Vec<StyledText>)
    requires
        segments_fit(inline_diff@, tab_width as nat, 0),
    ensures
        line_view(spans@) == inline_pieces(inline_diff@, base_style, prefix@, tab_width as nat),
{
    let ghost all = inline_diff@;
    let mut spans: Vec<StyledText> = Vec::new();
    spans.push(piece(owned(prefix), base_style));
    assert(all.skip(0) =~= all);
    assert(line_view(spans@) =~= seq![(prefix@, base_style)]);
    let mut col: usize = 0;
    let mut i: usize = 0;
    let n = inline_diff.segments.len();
    while i < n
        invariant
            n == all.len(),
            all == inline_diff@,
            i <= n,
            segments_fit(all.skip(i as int), tab_width as nat, col as nat),
            line_view(spans@) + segment_pieces(all.skip(i as int), base_style, tab_width as nat, col as nat)
                == inline_pieces(all, base_style, prefix@, tab_width as nat),
        decreases n - i,
    {
        let segment = &inline_diff.segments[i];
        let ghost rest = all.skip(i as int);
        assert(rest[0] == segment@);
        assert(rest.drop_first() =~= all.skip(i + 1));
        let expanded = expand_tabs_from(segment.content.as_str(), tab_width, col);
        let len = expanded.as_str().unicode_len();
        let style = match segment.change {
            InlineChange::Unchanged => base_style,
            InlineChange::Added => TextStyle { bg: Some(ThemeColor::InlineAddition), bold: true, ..base_style },
            InlineChange::Removed => TextStyle { bg: Some(ThemeColor::InlineDeletion), bold: true, ..base_style },
        };
        let ghost before = line_view(spans@);
        spans.push(piece(expanded, style));
        proof {
            assert(line_view(spans@) =~= before.push((expand_from(rest[0].0, tab_width as nat, col as nat), style)));
            assert(seq![(expand_from(rest[0].0, tab_width as nat, col as nat), style)] + segment_pieces(
                all.skip(i + 1),
                base_style,
                tab_width as nat,
                (col + len) as nat,
            ) == segment_pieces(rest, base_style, tab_width as nat, col as nat));
            assert(line_view(spans@) + segment_pieces(all.skip(i + 1), base_style, tab_width as nat, (col + len) as nat)
                =~= before + segment_pieces(rest, base_style, tab_width as nat, col as nat));
        }
        col = col + len;
        i += 1;
    }
    assert(all.skip(n as int) =~= Seq::<(Seq<char>, InlineChange)>::empty());
    assert(line_view(spans@) =~= line_view(spans@) + Seq::<(Seq<char>, TextStyle)>::empty());
    spans
}


/// A line can be drawn: its text (and inline diff) can have its tabs
/// expanded within `usize` columns.
pub open spec fn line_drawable(line: DiffLine, tab_width: nat) -> bool {
    &&& tab_width > 0 || !line.content@.contains('\t')
    &&& expand_tabs_spec(line.content@, tab_width).len() < usize::MAX
    &&& match line.inline_diff {
        Some(d) => segments_fit(d@, tab_width, 0),
        None => true,
    }
}

/// The pieces a diff line is drawn as: an optional indent, the line numbers
/// where widths are given, the gutter bar, then the marker and text (or the
/// inline diff).
pub open spec fn diff_line_pieces(
    line: DiffLine,
    widths: Option<LineNumberWidths>,
    active: bool,
    prefix: Option<Seq<char>>,
    tab_width: nat,
) -> Seq<(Seq<char>, TextStyle)> {
    let head = match prefix {
        Some(p) => seq![(p, plain_spec())],
        None => Seq::empty(),
    };
    let ns = number_style_spec(line, active);
    let numbers = match widths {
        Some(w) => seq![
            (formatted_line_number(line.old_line_no, w.old as nat), ns),
            (" "@, ns),
            (formatted_line_number(line.new_line_no, w.new as nat), ns),
            (" "@, ns),
        ],
        None => Seq::empty(),
    };
    let gutter = seq![("|"@, gutter_style_spec(line, active)), (" "@, highlight(plain_spec(), active))];
    let content = match line.inline_diff {
        Some(d) => inline_pieces(d@, content_style_spec(line, active), line_marker(line.line_type), tab_width),
        None => seq![
            (line_marker(line.line_type) + expand_tabs_spec(line.content@, tab_width), content_style_spec(line, active)),
        ],
    };
    head + numbers + gutter + content
}


/// A hunk header as drawn: an optional indent, then the header in the
/// hunk-header style.
pub open spec fn header_pieces(hunk: DiffHunk, prefix: Option<Seq<char>>) -> Seq<(Seq<char>, TextStyle)> {
    let header = (hunk.header.raw@, TextStyle { base: BaseStyle::HunkHeader, ..plain_spec() });
    match prefix {
        Some(p) => seq![(p, plain_spec()), header],
        None => seq![header],
    }
}

/// The drawn lines of the first `k` hunks: each hunk's header, then its
/// lines, highlighted in the active hunk.
pub open spec fn diff_rows(
    hunks: Seq<DiffHunk>,
    widths: Option<LineNumberWidths>,
    active: Option<usize>,
    prefix: Option<Seq<char>>,
    tab_width: nat,
    k: int,
) -> Seq<Seq<(Seq<char>, TextStyle)>>
    decreases k,
{
    if k <= 0 {
        Seq::empty()
    } else {
        let hunk = hunks[k - 1];
        let is_active = active == Some((k - 1) as usize);
        diff_rows(hunks, widths, active, prefix, tab_width, k - 1) + seq![header_pieces(hunk, prefix)]
            + hunk.lines@.map_values(|l: DiffLine| diff_line_pieces(l, widths, is_active, prefix, tab_width))
    }
}

/// Every line of every hunk can be drawn.
pub open spec fn diff_drawable(hunks: Seq<DiffHunk>, tab_width: nat) -> bool {
    forall|h: int, l: int|
        0 <= h < hunks.len() && 0 <= l < hunks[h].lines@.len() ==> line_drawable(
            #[trigger] hunks[h].lines@[l],
            tab_width,
        )
}

/// The rows of drawn lines.
pub open spec fn rows_view(rows: Seq<Vec<StyledText>>) -> Seq<Seq<(Seq<char>, TextStyle)>> {
    rows.map_values(|r: Vec<StyledText>| line_view(r@))
}

/// Draws diff lines and hunk headers.
pub struct DiffRenderer {
    pub settings: DiffRenderSettings,
}

fn marker_str(line_type: LineType) -> (marker: &'static str)
    ensures
        marker@ == line_marker(line_type),
{
    match line_type {
        LineType::Addition => "+",
        LineType::Deletion => "-",
        LineType::Context => " ",
        LineType::NoNewlineEOF => "\\",
    }
}

fn highlight_style(style: TextStyle, active: bool) -> (result: TextStyle)
    ensures
        result == highlight(style, active),
{
    if active && style.bg.is_none() {
        TextStyle { bg: Some(ThemeColor::HunkHighlight), ..style }
    } else {
        style
    }
}

fn dim_style(style: TextStyle, line_type: LineType, active: bool) -> (result: TextStyle)
    ensures
        result == dimmed(style, line_type, active),
{
    if line_type == LineType::Context && !active {
        TextStyle { dim: true, ..style }
    } else {
        style
    }
}

impl DiffRenderer {
    pub fn new(settings: DiffRenderSettings) -> (renderer: Self)
        ensures
            renderer.settings == settings,
    {
        Self { settings }
    }

    /// The widths of the old and new line-number columns: the digits of the
    /// largest number in each.
    pub fn calculate_line_number_widths(diff: &Diff) -> (widths: LineNumberWidths)
        ensures
            widths.old == decimal(max_hunk_line_number(diff.hunks@, true)).len(),
            widths.new == decimal(max_hunk_line_number(diff.hunks@, false)).len(),
    {
        let mut max_old: usize = 0;
        let mut max_new: usize = 0;
        let mut h: usize = 0;
        while h < diff.hunks.len()
            invariant
                h <= diff.hunks@.len(),
                max_old == max_hunk_line_number(diff.hunks@.take(h as int), true),
                max_new == max_hunk_line_number(diff.hunks@.take(h as int), false),
            decreases diff.hunks.len() - h,
        {
            assert(diff.hunks@.take(h + 1).drop_last() =~= diff.hunks@.take(h as int));
            let o = max_line_number_in(&diff.hunks[h].lines, true);
            let n = max_line_number_in(&diff.hunks[h].lines, false);
            if o > max_old {
                max_old = o;
            }
            if n > max_new {
                max_new = n;
            }
            h += 1;
        }
        assert(diff.hunks@.take(diff.hunks@.len() as int) =~= diff.hunks@);
        LineNumberWidths { old: digit_width(max_old), new: digit_width(max_new) }
    }

    /// A line number right-aligned in `width` columns; blank for none.
    pub fn format_line_number(number: Option<usize>, width: usize) -> (text: String)
        ensures
            text@ == formatted_line_number(number, width as nat),
    {
        let digits = match number {
            Some(n) => decimal_string(n as u64),
            None => String::new(),
        };
        let len = digits.as_str().unicode_len();
        let mut text = String::new();
        if len < width {
            let mut k: usize = 0;
            while k < width - len
                invariant
                    len < width,
                    k <= width - len,
                    text@ == spaces(k as nat),
                decreases width - len - k,
            {
                push_char(&mut text, ' ');
                k += 1;
                assert(text@ =~= spaces(k as nat));
            }
        }
        push_str(&mut text, digits.as_str());
        assert(text@ =~= formatted_line_number(number, width as nat));
        text
    }


    /// Draws one diff line.
    pub fn format_diff_line(
        &self,
        diff_line: &DiffLine,
        line_number_widths: Option<&LineNumberWidths>,
        is_active_hunk: bool,
        prefix: Option<&str>,
    ) -> (spans: Vec<StyledText>)
        requires
            line_drawable(*diff_line, self.settings.tab_width as nat),
        ensures
            line_view(spans@) == diff_line_pieces(
                *diff_line,
                match line_number_widths {
                    Some(w) => Some(*w),
                    None => None,
                },
                is_active_hunk,
                match prefix {
                    Some(p) => Some(p@),
                    None => None,
                },
                self.settings.tab_width as nat,
            ),
    {
        let active = is_active_hunk;
        let line_type = diff_line.line_type;
        let color = match line_type {
            LineType::Addition => ThemeColor::Staged,
            LineType::Deletion => ThemeColor::Unstaged,
            LineType::Context => ThemeColor::DiffContext,
            LineType::NoNewlineEOF => ThemeColor::DiffNoNewline,
        };
        let gutter = match line_type {
            LineType::Addition => ThemeColor::GutterAddition,
            LineType::Deletion => ThemeColor::GutterDeletion,
            LineType::Context => ThemeColor::GutterContext,
            LineType::NoNewlineEOF => ThemeColor::DiffNoNewline,
        };
        let base = if diff_line.inline_diff.is_some() { plain() } else { colored(color) };
        let content_style = highlight_style(dim_style(base, line_type, active), active);
        let gutter_base = dim_style(colored(gutter), line_type, active);
        let gutter_focused = if active { TextStyle { bg: Some(ThemeColor::GutterFocused), ..gutter_base } } else { gutter_base };
        let gutter_style = highlight_style(gutter_focused, active);
        let number_style = highlight_style(dim_style(colored(ThemeColor::DiffLineNumber), line_type, active), active);

        let mut spans: Vec<StyledText> = Vec::new();
        match prefix {
            Some(indent) => spans.push(piece(owned(indent), plain())),
            None => {},
        }
        let ghost head = line_view(spans@);
        match line_number_widths {
            Some(widths) => {
                spans.push(piece(Self::format_line_number(diff_line.old_line_no, widths.old), number_style));
                spans.push(piece(owned(" "), number_style));
                spans.push(piece(Self::format_line_number(diff_line.new_line_no, widths.new), number_style));
                spans.push(piece(owned(" "), number_style));
            },
            None => {},
        }
        let ghost numbered = line_view(spans@);
        spans.push(piece(owned("|"), gutter_style));
        spans.push(piece(owned(" "), highlight_style(plain(), active)));
        let ghost guttered = line_view(spans@);
        let marker = marker_str(line_type);
        match &diff_line.inline_diff {
            Some(inline_diff) => {
                let content = inline_content_spans(inline_diff, content_style, marker, self.settings.tab_width);
                let ghost pieces = content@;
                for item in it: content
                    invariant
                        it.seq() == pieces,
                        line_view(spans@) == guttered + line_view(pieces.take(it.index() as int)),
                {
                    let ghost before = line_view(spans@);
                    let ghost item_view = item@;
                    spans.push(item);
                    assert(line_view(spans@) =~= before.push(item_view));
                    assert(pieces.take(it.index() + 1) =~= pieces.take(it.index() as int).push(pieces[it.index() as int]));
                    assert(line_view(pieces.take(it.index() + 1)) =~= line_view(pieces.take(it.index() as int)).push(
                        item_view,
                    ));
                    assert(line_view(spans@) =~= guttered + line_view(pieces.take(it.index() + 1)));
                }
                assert(pieces.take(pieces.len() as int) =~= pieces);
            },
            None => {
                let expanded = expand_tabs_with_width(diff_line.content.as_str(), self.settings.tab_width);
                let mut text = owned(marker);
                push_str(&mut text, expanded.as_str());
                spans.push(piece(text, content_style));
            },
        }
        proof {
            reveal_strlit(" ");
            reveal_strlit("|");
        }
        assert(line_view(spans@) =~= diff_line_pieces(
            *diff_line,
            match line_number_widths {
                Some(w) => Some(*w),
                None => None,
            },
            is_active_hunk,
            match prefix {
                Some(p) => Some(p@),
                None => None,
            },
            self.settings.tab_width as nat,
        ));
        spans
    }

    /// Draws a diff: each hunk's header, then its lines; line numbers are
    /// shown when the settings ask for them, and the hunk at
    /// `active_hunk_index` is highlighted.
    pub fn generate_diff_lines(&self, diff: &Diff, active_hunk_index: Option<usize>, prefix: Option<&str>) -> (rows: Vec<
        Vec<StyledText>,
    >)
        requires
            diff_drawable(diff.hunks@, self.settings.tab_width as nat),
        ensures
            rows_view(rows@) == diff_rows(
                diff.hunks@,
                if self.settings.show_line_numbers {
                    Some(
                        LineNumberWidths {
                            old: decimal(max_hunk_line_number(diff.hunks@, true)).len() as usize,
                            new: decimal(max_hunk_line_number(diff.hunks@, false)).len() as usize,
                        },
                    )
                } else {
                    None
                },
                active_hunk_index,
                match prefix {
                    Some(p) => Some(p@),
                    None => None,
                },
                self.settings.tab_width as nat,
                diff.hunks@.len() as int,
            ),
    {
        let widths = if self.settings.show_line_numbers {
            Some(Self::calculate_line_number_widths(diff))
        } else {
            None
        };
        let ghost w = widths;
        let ghost p = match prefix {
            Some(p) => Some(p@),
            None => None,
        };
        let tw = self.settings.tab_width;
        let mut rows: Vec<Vec<StyledText>> = Vec::new();
        let mut h: usize = 0;
        while h < diff.hunks.len()
            invariant
                h <= diff.hunks@.len(),
                tw == self.settings.tab_width,
                diff_drawable(diff.hunks@, tw as nat),
                w == widths,
                p == match prefix {
                    Some(p) => Some(p@),
                    None => None::<Seq<char>>,
                },
                rows_view(rows@) == diff_rows(diff.hunks@, w, active_hunk_index, p, tw as nat, h as int),
            decreases diff.hunks.len() - h,
        {
            let hunk = &diff.hunks[h];
            let is_active = match active_hunk_index {
                Some(a) => a == h,
                None => false,
            };
            let mut header: Vec<StyledText> = Vec::new();
            match prefix {
                Some(indent) => header.push(piece(owned(indent), plain())),
                None => {},
            }
            header.push(piece(hunk.header.raw.clone(), TextStyle { base: BaseStyle::HunkHeader, ..plain() }));
            let ghost before = rows_view(rows@);
            assert(line_view(header@) =~= header_pieces(*hunk, p));
            rows.push(header);
            assert(rows_view(rows@) =~= before.push(header_pieces(*hunk, p)));
            let ghost with_header = rows_view(rows@);
            let mut l: usize = 0;
            while l < hunk.lines.len()
                invariant
                    h < diff.hunks@.len(),
                    *hunk == diff.hunks@[h as int],
                    l <= hunk.lines@.len(),
                    tw == self.settings.tab_width,
                    diff_drawable(diff.hunks@, tw as nat),
                    w == widths,
                    p == match prefix {
                        Some(p) => Some(p@),
                        None => None::<Seq<char>>,
                    },
                    rows_view(rows@) == with_header + hunk.lines@.take(l as int).map_values(
                        |x: DiffLine| diff_line_pieces(x, w, is_active, p, tw as nat),
                    ),
                decreases hunk.lines.len() - l,
            {
                assert(diff.hunks@[h as int].lines@[l as int] == hunk.lines@[l as int]);
                let line = self.format_diff_line(&hunk.lines[l], widths.as_ref(), is_active, prefix);
                let ghost before_line = rows_view(rows@);
                rows.push(line);
                proof {
                    assert(rows_view(rows@) =~= before_line.push(diff_line_pieces(hunk.lines@[l as int], w, is_active, p, tw as nat)));
                    assert(hunk.lines@.take(l + 1) =~= hunk.lines@.take(l as int).push(hunk.lines@[l as int]));
                    assert(hunk.lines@.take(l + 1).map_values(|x: DiffLine| diff_line_pieces(x, w, is_active, p, tw as nat))
                        =~= hunk.lines@.take(l as int).map_values(
                        |x: DiffLine| diff_line_pieces(x, w, is_active, p, tw as nat),
                    ).push(diff_line_pieces(hunk.lines@[l as int], w, is_active, p, tw as nat)));
                }
                l += 1;
            }
            assert(hunk.lines@.take(hunk.lines@.len() as int) =~= hunk.lines@);
            h += 1;
        }
        rows
    }
}

proof fn lemma_expand_tabs_is_expand_from_zero(text: Seq<char>, tab_width: nat)
    ensures
        expand_tabs_spec(text, tab_width) == expand_from(text, tab_width, 0),
    decreases text.len(),
{
    if text.len() > 0 {
        lemma_expand_tabs_is_expand_from_zero(text.drop_last(), tab_width);
    }
}

/// The column after `text` expanded from column `col`, where its tabs can
/// be expanded and it ends within `usize`; none otherwise.
fn expanded_end(text: &str, tab_width: usize, col: usize) -> (end: Option<usize>)
    ensures
        end matches Some(e) ==> (tab_width > 0 || !text@.contains('\t')) && e == col + expand_from(
            text@,
            tab_width as nat,
            col as nat,
        ).len(),
        end is None ==> !((tab_width > 0 || !text@.contains('\t')) && col + expand_from(
            text@,
            tab_width as nat,
            col as nat,
        ).len() <= usize::MAX),
{
    let ghost t = text@;
    let chars = crate::text::chars_vec(text);
    let mut cur: usize = col;
    let mut i: usize = 0;
    while i < chars.len()
        invariant
            chars@ == t,
            t == text@,
            i <= t.len(),
            tab_width > 0 || !t.take(i as int).contains('\t'),
            cur == col + expand_from(t.take(i as int), tab_width as nat, col as nat).len(),
        decreases chars.len() - i,
    {
        assert(t.take(i + 1).drop_last() =~= t.take(i as int));
        assert(t.take(i + 1).last() == chars@[i as int]);
        let add: usize = if chars[i] == '\t' {
            if tab_width == 0 {
                assert(t[i as int] == '\t');
                return None;
            }
            tab_width - (cur % tab_width)
        } else {
            1
        };
        if cur > usize::MAX - add {
            proof {
                if tab_width > 0 || !t.contains('\t') {
                    lemma_expand_from_monotone(t, tab_width as nat, col as nat, i + 1, t.len() as int);
                    assert(t.take(t.len() as int) =~= t);
                }
            }
            return None;
        }
        cur = cur + add;
        proof {
            if tab_width == 0 {
                assert(!t.take(i + 1).contains('\t')) by {
                    if t.take(i + 1).contains('\t') {
                        let k = choose|k: int| 0 <= k < t.take(i + 1).len() && #[trigger] t.take(i + 1)[k] == '\t';
                        if k < i {
                            assert(t.take(i as int)[k] == t.take(i + 1)[k]);
                        }
                    }
                }
            }
        }
        i += 1;
    }
    assert(t.take(t.len() as int) =~= t);
    Some(cur)
}

fn segments_fit_exec(segments: &Vec<InlineDiffSegment>, tab_width: usize) -> (fit: bool)
    ensures
        fit == segments_fit(segments@.map_values(|s: InlineDiffSegment| s@), tab_width as nat, 0),
{
    let ghost all = segments@.map_values(|s: InlineDiffSegment| s@);
    let mut col: usize = 0;
    let mut i: usize = 0;
    assert(all.skip(0) =~= all);
    while i < segments.len()
        invariant
            i <= segments@.len(),
            all == segments@.map_values(|s: InlineDiffSegment| s@),
            segments_fit(all, tab_width as nat, 0) == segments_fit(all.skip(i as int), tab_width as nat, col as nat),
        decreases segments.len() - i,
    {
        assert(all.skip(i as int)[0] == segments@[i as int]@);
        assert(all.skip(i as int).drop_first() =~= all.skip(i + 1));
        match expanded_end(segments[i].content.as_str(), tab_width, col) {
            Some(end) => {
                col = end;
            },
            None => {
                return false;
            },
        }
        i += 1;
    }
    assert(all.skip(segments@.len() as int).len() == 0);
    true
}

/// Whether a diff line can be drawn with tabs `tab_width` wide.
pub fn line_is_drawable(line: &DiffLine, tab_width: usize) -> (drawable: bool)
    ensures
        drawable == line_drawable(*line, tab_width as nat),
{
    proof {
        lemma_expand_tabs_is_expand_from_zero(line.content@, tab_width as nat);
    }
    let text_fits = match expanded_end(line.content.as_str(), tab_width, 0) {
        Some(end) => end < usize::MAX,
        None => false,
    };
    if !text_fits {
        return false;
    }
    match &line.inline_diff {
        Some(d) => segments_fit_exec(&d.segments, tab_width),
        None => true,
    }
}

/// Whether every line of every hunk can be drawn with tabs `tab_width`
/// wide: what drawing a diff needs.
pub fn diff_is_drawable(hunks: &Vec<DiffHunk>, tab_width: usize) -> (drawable: bool)
    ensures
        drawable == diff_drawable(hunks@, tab_width as nat),
{
    let mut h: usize = 0;
    while h < hunks.len()
        invariant
            h <= hunks@.len(),
            forall|a: int, l: int|
                0 <= a < h && 0 <= l < hunks@[a].lines@.len() ==> line_drawable(
                    #[trigger] hunks@[a].lines@[l],
                    tab_width as nat,
                ),
        decreases hunks.len() - h,
    {
        let lines = &hunks[h].lines;
        let mut l: usize = 0;
        while l < lines.len()
            invariant
                h < hunks@.len(),
                *lines == hunks@[h as int].lines,
                l <= lines@.len(),
                forall|a: int, k: int|
                    0 <= a < h && 0 <= k < hunks@[a].lines@.len() ==> line_drawable(
                        #[trigger] hunks@[a].lines@[k],
                        tab_width as nat,
                    ),
                forall|k: int| 0 <= k < l ==> line_drawable(#[trigger] hunks@[h as int].lines@[k], tab_width as nat),
            decreases lines.len() - l,
        {
            if !line_is_drawable(&lines[l], tab_width) {
                return false;
            }
            l += 1;
        }
        h += 1;
    }
    true
}

} // verus!
