use vstd::prelude::*;
use crate::text::{chars_vec, owned, push_char};
use crate::ui::input::{InputHandler, help_text_lines};
use crate::ui::styled::{StyledText, TextStyle, ThemeColor, colored, colored_spec, line_view, piece, plain_spec};

verus! {

/// Five spaces start at `i`: the gap between a key and its description.
pub open spec fn gap_at(s: Seq<char>, i: int) -> bool {
    &&& 0 <= i
    &&& i + 5 <= s.len()
    &&& forall|k: int| 0 <= k < 5 ==> #[trigger] s[i + k] == ' '
}

/// The first gap at or after `i`.
pub open spec fn first_gap_from(s: Seq<char>, i: int) -> Option<int>
    decreases s.len() - i,
{
    if i < 0 || i + 5 > s.len() {
        None
    } else if gap_at(s, i) {
        Some(i)
    } else {
        first_gap_from(s, i + 1)
    }
}

/// The style of a help header: the key color, bold.
pub open spec fn help_header_style() -> TextStyle {
    TextStyle { fg: Some(ThemeColor::HelpKey), bold: true, ..plain_spec() }
}

/// The pieces a line of help text is drawn as: nothing for a blank line; a
/// header (a line not indented by two spaces) whole in the header style; a
/// key binding split at the first gap of five spaces into the key, in the
/// key color, and the description, in the description color; an indented
/// line without a gap whole in the description color.
pub open spec fn help_row_spec(text: Seq<char>) -> Seq<(Seq<char>, TextStyle)> {
    if text.len() == 0 {
        Seq::empty()
    } else if !(text.len() >= 2 && text[0] == ' ' && text[1] == ' ') {
        seq![(text, help_header_style())]
    } else {
        match first_gap_from(text, 0) {
            Some(p) => seq![
                (text.subrange(0, p), colored_spec(ThemeColor::HelpKey)),
                (text.subrange(p, text.len() as int), colored_spec(ThemeColor::HelpDesc)),
            ],
            None => seq![(text, colored_spec(ThemeColor::HelpDesc))],
        }
    }
}

fn first_gap(chars: &Vec<char>) -> (gap: Option<usize>)
    ensures
        gap matches Some(p) ==> first_gap_from(chars@, 0) == Some(p as int) && p + 5 <= chars@.len(),
        gap is None ==> first_gap_from(chars@, 0) is None,
{
    let n = chars.len();
    let mut i: usize = 0;
    while n >= 5 && i <= n - 5
        invariant
            n == chars@.len(),
            first_gap_from(chars@, 0) == first_gap_from(chars@, i as int),
        decreases n - i,
    {
        if chars[i] == ' ' && chars[i + 1] == ' ' && chars[i + 2] == ' ' && chars[i + 3] == ' ' && chars[i + 4]
            == ' ' {
            assert forall|k: int| 0 <= k < 5 implies #[trigger] chars@[i + k] == ' ' by {
                assert(k == 0 || k == 1 || k == 2 || k == 3 || k == 4);
            }
            return Some(i);
        }
        assert(!gap_at(chars@, i as int)) by {
            if gap_at(chars@, i as int) {
                assert(chars@[i + 0] == ' ' && chars@[i + 1] == ' ' && chars@[i + 2] == ' ' && chars@[i + 3] == ' '
                    && chars@[i + 4] == ' ');
            }
        }
        i += 1;
    }
    None
}

fn collect_chars(chars: &Vec<char>, from: usize, to: usize) -> (text: String)
    requires
        from <= to <= chars@.len(),
    ensures
        text@ == chars@.subrange(from as int, to as int),
{
    let mut text = String::new();
    let mut i = from;
    while i < to
        invariant
            from <= i <= to <= chars@.len(),
            text@ == chars@.subrange(from as int, i as int),
        decreases to - i,
    {
        push_char(&mut text, chars[i]);
        i += 1;
        assert(text@ =~= chars@.subrange(from as int, i as int));
    }
    text
}

/// The pieces one line of help text is drawn as.
pub fn help_row(text: &str) -> (row: Vec<StyledText>)
    ensures
        line_view(row@) == help_row_spec(text@),
{
    let chars = chars_vec(text);
    let mut row: Vec<StyledText> = Vec::new();
    if chars.len() == 0 {
        assert(line_view(row@) =~= help_row_spec(text@));
        return row;
    }
    if !(chars.len() >= 2 && chars[0] == ' ' && chars[1] == ' ') {
        row.push(piece(owned(text), TextStyle { bold: true, ..colored(ThemeColor::HelpKey) }));
        assert(line_view(row@) =~= help_row_spec(text@));
        return row;
    }
    match first_gap(&chars) {
        Some(p) => {
            row.push(piece(collect_chars(&chars, 0, p), colored(ThemeColor::HelpKey)));
            row.push(piece(collect_chars(&chars, p, chars.len()), colored(ThemeColor::HelpDesc)));
        },
        None => {
            row.push(piece(owned(text), colored(ThemeColor::HelpDesc)));
        },
    }
    assert(line_view(row@) =~= help_row_spec(text@));
    row
}

/// The rows of the help panel, one per line of the help text.
pub fn help_rows() -> (rows: Vec<Vec<StyledText>>)
    ensures
        rows@.len() == help_text_lines().len(),
        forall|i: int| 0 <= i < rows@.len() ==> line_view(#[trigger] rows@[i]@) == help_row_spec(help_text_lines()[i]),
{
    let lines = InputHandler::get_help_text();
    let ghost texts = lines@.map_values(|l: &str| l@);
    let mut rows: Vec<Vec<StyledText>> = Vec::new();
    let mut i: usize = 0;
    while i < lines.len()
        invariant
            i <= lines@.len(),
            texts == lines@.map_values(|l: &str| l@),
            texts == help_text_lines(),
            rows@.len() == i,
            forall|j: int| 0 <= j < i ==> line_view(#[trigger] rows@[j]@) == help_row_spec(help_text_lines()[j]),
        decreases lines.len() - i,
    {
        let row = help_row(lines[i]);
        assert(texts[i as int] == lines@[i as int]@);
        rows.push(row);
        i += 1;
    }
    rows
}

/// How many rows the help panel's content takes: the lines of help, at
/// most the area's height less two rows of border, at least five.
pub open spec fn help_panel_height_spec(line_count: u16, area_height: u16) -> u16 {
    let room: u16 = if area_height >= 2 { (area_height - 2) as u16 } else { 0 };
    let fitted: u16 = if line_count <= room { line_count } else { room };
    if fitted >= 5 { fitted } else { 5 }
}

/// The rows the help panel's content takes in an area `area_height` high.
pub fn help_panel_height(line_count: u16, area_height: u16) -> (height: u16)
    ensures
        height == help_panel_height_spec(line_count, area_height),
{
    let room: u16 = if area_height >= 2 { area_height - 2 } else { 0 };
    let fitted: u16 = if line_count <= room { line_count } else { room };
    if fitted >= 5 { fitted } else { 5 }
}

} // verus!
