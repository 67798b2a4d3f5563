use vstd::prelude::*;
use super::Modal;
use crate::ui::input::{Command, CommitMode};

verus! {

/// The commit modes offered, by key.
pub open spec fn commit_modal_command(key: char) -> Option<Command> {
    if key == 'c' {
        Some(Command::Commit(CommitMode::Normal))
    } else if key == 'a' {
        Some(Command::Commit(CommitMode::Amend))
    } else if key == 'e' {
        Some(Command::Commit(CommitMode::Extend))
    } else if key == 'w' {
        Some(Command::Commit(CommitMode::Reword))
    } else {
        None
    }
}

/// Modal for commit operations: normal commit, amend, extend and reword.
#[derive(Default)]
pub struct CommitModal;

impl CommitModal {
    pub fn new() -> Self {
        Self
    }
}

impl Modal for CommitModal {
    fn title(&self) -> (title: &str)
        ensures
            title@ == "Commit"@,
    {
        "Commit"
    }

    fn options(&self) -> (options: Vec<(char, &str, &str)>)
        ensures
            options@.len() == 4,
            options@[0].0 == 'c' && options@[0].1@ == "commit"@ && options@[0].2@ == "Create commit"@,
            options@[1].0 == 'a' && options@[1].1@ == "amend"@ && options@[1].2@ == "Amend HEAD"@,
            options@[2].0 == 'e' && options@[2].1@ == "extend"@ && options@[2].2@ == "Extend HEAD"@,
            options@[3].0 == 'w' && options@[3].1@ == "reword"@ && options@[3].2@ == "Reword HEAD"@,
    {
        vec![
            ('c', "commit", "Create commit"),
            ('a', "amend", "Amend HEAD"),
            ('e', "extend", "Extend HEAD"),
            ('w', "reword", "Reword HEAD"),
        ]
    }

    fn handle_key(&self, key: char) -> (command: Option<Command>)
        ensures
            command == commit_modal_command(key),
    {
        match key {
            'c' => Some(Command::Commit(CommitMode::Normal)),
            'a' => Some(Command::Commit(CommitMode::Amend)),
            'e' => Some(Command::Commit(CommitMode::Extend)),
            'w' => Some(Command::Commit(CommitMode::Reword)),
            _ => None,
        }
    }
}

} // verus!
