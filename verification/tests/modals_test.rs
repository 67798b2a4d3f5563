use mahgit::ui::input::{Command, CommitMode};
use mahgit::ui::modals::{
    modal_panel_height, option_row, option_rows, CommitModal, ConfirmModal, LogModal, Modal, ModalContext,
};
use mahgit::ui::styled::{colored, plain, ThemeColor};

struct TestModal;

impl Modal for TestModal {
    fn title(&self) -> &str {
        "Test Modal"
    }

    fn options(&self) -> Vec<(char, &str, &str)> {
        vec![('a', "option-a", "Description A"), ('b', "option-b", "Description B")]
    }

    fn handle_key(&self, key: char) -> Option<Command> {
        match key {
            'a' => Some(Command::RefreshStatus),
            'b' => Some(Command::Quit),
            _ => None,
        }
    }
}

#[test]
fn test_modal_basic() {
    let modal = TestModal;
    assert_eq!(modal.title(), "Test Modal");
    assert_eq!(modal.options().len(), 2);
    assert_eq!(modal.handle_key('a'), Some(Command::RefreshStatus));
    assert_eq!(modal.handle_key('b'), Some(Command::Quit));
    assert_eq!(modal.handle_key('c'), None);
}

#[test]
fn test_commit_modal_options() {
    let modal = CommitModal::new();
    let options = modal.options();
    assert_eq!(options.len(), 4);
    assert_eq!(options[0], ('c', "commit", "Create commit"));
    assert_eq!(options[1], ('a', "amend", "Amend HEAD"));
}

#[test]
fn test_commit_modal_key_handling() {
    let modal = CommitModal::new();
    assert_eq!(modal.handle_key('c'), Some(Command::Commit(CommitMode::Normal)));
    assert_eq!(modal.handle_key('a'), Some(Command::Commit(CommitMode::Amend)));
    assert_eq!(modal.handle_key('e'), Some(Command::Commit(CommitMode::Extend)));
    assert_eq!(modal.handle_key('w'), Some(Command::Commit(CommitMode::Reword)));
    assert_eq!(modal.handle_key('x'), None);
}

#[test]
fn test_confirm_modal_yes() {
    let modal = ConfirmModal::new("Discard changes?".to_string(), Command::RefreshStatus);
    assert_eq!(modal.title(), "Confirm");
    assert_eq!(modal.options().len(), 2);
    assert_eq!(modal.handle_key('y'), Some(Command::RefreshStatus));
    assert_eq!(modal.handle_key('Y'), Some(Command::RefreshStatus));
    assert_eq!(modal.handle_key('n'), None);
    assert_eq!(modal.handle_key('N'), None);
    assert_eq!(modal.handle_key('x'), None);
}

#[test]
fn test_log_modal_options() {
    let modal = LogModal::new();
    let options = modal.options();
    assert_eq!(options.len(), 1);
    assert_eq!(options[0], ('l', "log", "Log current branch"));
}

#[test]
fn test_log_modal_key_handling() {
    let modal = LogModal::new();
    assert_eq!(modal.handle_key('l'), Some(Command::OpenLog));
    assert_eq!(modal.handle_key('x'), None);
}

#[test]
fn confirm_modal_shows_its_question_as_the_yes_option() {
    let modal = ConfirmModal::new("Discard file.txt?".to_string(), Command::ConfirmDiscard);
    let options = modal.options();
    assert_eq!(options[0], ('y', "yes", "Discard file.txt?"));
    assert_eq!(options[1], ('n', "no", "Cancel operation"));
    assert_eq!(modal.handle_key('y'), Some(Command::ConfirmDiscard));
    assert_ne!(ModalContext::Inactive, ModalContext::Confirm);
}

#[test]
fn option_rows_pad_labels_and_color_keys() {
    let row = option_row('c', "commit", "Create a new commit");
    let texts: Vec<&str> = row.iter().map(|p| p.text.as_str()).collect();
    assert_eq!(texts, vec![" ", "c", "  ", "commit         ", " ", "Create a new commit"]);
    assert_eq!(row[0].style, plain());
    assert_eq!(row[1].style.fg, Some(ThemeColor::HelpKey));
    assert!(row[1].style.bold);
    assert_eq!(row[3].style, colored(ThemeColor::HelpKey));
    assert_eq!(row[5].style, colored(ThemeColor::HelpDesc));
    let long = option_row('x', "a-label-longer-than-fifteen", "d");
    assert_eq!(long[3].text, "a-label-longer-than-fifteen");
    let rows = option_rows(&vec![('y', "yes", "Confirm"), ('n', "no", "Cancel")]);
    assert_eq!(rows.len(), 2);
    assert_eq!(rows[1][1].text, "n");
    assert_eq!(modal_panel_height(2, 40), 5);
    assert_eq!(modal_panel_height(10, 8), 6);
}
