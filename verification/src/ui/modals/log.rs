use vstd::prelude::*;
use super::Modal;
use crate::ui::input::Command;

verus! {

/// Modal for log operations.
#[derive(Default)]
pub struct LogModal;

impl LogModal {
    pub fn new() -> Self {
        Self
    }
}

impl Modal for LogModal {
    fn title(&self) -> (title: &str)
        ensures
            title@ == "Log"@,
    {
        "Log"
    }

    fn options(&self) -> (options: Vec<(char, &str, &str)>)
        ensures
            options@.len() == 1,
            options@[0].0 == 'l' && options@[0].1@ == "log"@ && options@[0].2@ == "Log current branch"@,
    {
        vec![('l', "log", "Log current branch")]
    }

    fn handle_key(&self, key: char) -> (command: Option<Command>)
        ensures
            command == if key == 'l' {
                Some(Command::OpenLog)
            } else {
                None
            },
    {
        match key {
            'l' => Some(Command::OpenLog),
            _ => None,
        }
    }
}

} // verus!
