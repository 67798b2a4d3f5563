use vstd::prelude::*;
use crate::ui::input::Command;
use crate::text::{owned, push_char, spaces};
use crate::ui::styled::{StyledText, TextStyle, ThemeColor, colored, colored_spec, line_view, piece, plain, plain_spec};

pub mod commit;
pub mod confirm;
pub mod log;

pub use commit::CommitModal;
pub use confirm::ConfirmModal;
pub use log::LogModal;

verus! {

/// Represents the type of modal currently active
#[derive(Debug, Clone, Copy, PartialEq, Eq, Structural)]
pub enum ModalContext {
    /// No modal is open.
    Inactive,
    Commit,
    Confirm,
    Log,
}

/// A bottom-panel dialog that offers a set of options, each chosen by a key.
pub trait Modal {
    /// The title shown at the top of the panel.
    fn title(&self) -> &str;

    /// The options as (key, short label, description).
    fn options(&self) -> Vec<(char, &str, &str)>;

    /// The command a key selects; `None` for a key that matches no option.
    fn handle_key(&self, key: char) -> Option<Command>;
}

/// An option's label padded with spaces to fifteen characters.
pub open spec fn padded_label(label: Seq<char>) -> Seq<char> {
    if label.len() < 15 {
        label + spaces((15 - label.len()) as nat)
    } else {
        label
    }
}

/// The pieces of one option row of a modal panel: a space, the key in the
/// key color and bold, two spaces, the padded label in the key color, a
/// space, and the description in the description color.
pub open spec fn option_row_spec(key: char, label: Seq<char>, description: Seq<char>) -> Seq<(Seq<char>, TextStyle)> {
    seq![
        (" "@, plain_spec()),
        (seq![key], TextStyle { fg: Some(ThemeColor::HelpKey), bold: true, ..plain_spec() }),
        ("  "@, plain_spec()),
        (padded_label(label), colored_spec(ThemeColor::HelpKey)),
        (" "@, plain_spec()),
        (description, colored_spec(ThemeColor::HelpDesc)),
    ]
}

fn padded(label: &str) -> (text: String)
    ensures
        text@ == padded_label(label@),
{
    let mut text = owned(label);
    let n = label.unicode_len();
    let mut i = n;
    while i < 15
        invariant
            n == label@.len(),
            n <= i <= 15 || (n > 15 && i == n),
            text@ == label@ + spaces((i - n) as nat),
        decreases 15 - i,
    {
        push_char(&mut text, ' ');
        i += 1;
        assert(text@ =~= label@ + spaces((i - n) as nat));
    }
    assert(label@.len() >= 15 ==> text@ =~= label@);
    text
}

/// The pieces of one option row of a modal panel.
pub fn option_row(key: char, label: &str, description: &str) -> (row: Vec<StyledText>)
    ensures
        line_view(row@) == option_row_spec(key, label@, description@),
{
    let mut key_text = String::new();
    push_char(&mut key_text, key);
    let row = vec![
        piece(owned(" "), plain()),
        piece(key_text, TextStyle { bold: true, ..colored(ThemeColor::HelpKey) }),
        piece(owned("  "), plain()),
        piece(padded(label), colored(ThemeColor::HelpKey)),
        piece(owned(" "), plain()),
        piece(owned(description), colored(ThemeColor::HelpDesc)),
    ];
    assert(line_view(row@) =~= option_row_spec(key, label@, description@));
    row
}

/// The rows of a modal panel, one per option.
pub fn option_rows(options: &Vec<(char, &str, &str)>) -> (rows: Vec<Vec<StyledText>>)
    ensures
        rows@.len() == options@.len(),
        forall|i: int|
            0 <= i < rows@.len() ==> line_view(#[trigger] rows@[i]@) == option_row_spec(
                options@[i].0,
                options@[i].1@,
                options@[i].2@,
            ),
{
    let mut rows: Vec<Vec<StyledText>> = Vec::new();
    let mut i: usize = 0;
    while i < options.len()
        invariant
            i <= options@.len(),
            rows@.len() == i,
            forall|j: int|
                0 <= j < i ==> line_view(#[trigger] rows@[j]@) == option_row_spec(
                    options@[j].0,
                    options@[j].1@,
                    options@[j].2@,
                ),
        decreases options.len() - i,
    {
        let (key, label, description) = options[i];
        rows.push(option_row(key, label, description));
        i += 1;
    }
    rows
}

/// The height of a modal panel: a row per option and three more, at most
/// the area's height less two.
pub fn modal_panel_height(option_count: usize, area_height: u16) -> (height: u16)
    requires
        area_height >= 2,
        option_count + 3 <= u16::MAX,
    ensures
        height == if option_count + 3 <= area_height - 2 { option_count + 3 } else { area_height - 2 },
{
    let wanted: u16 = option_count as u16 + 3;
    let room: u16 = area_height - 2;
    if wanted <= room { wanted } else { room }
}

} // verus!
