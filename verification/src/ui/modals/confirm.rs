use vstd::prelude::*;
use super::Modal;
use crate::ui::input::Command;

verus! {

/// A yes/no prompt for confirming a destructive operation.
pub struct ConfirmModal {
    message: String,
    confirm_command: Command,
}

impl ConfirmModal {
    /// The question asked.
    pub closed spec fn message(&self) -> Seq<char> {
        self.message@
    }

    /// The command run on "yes".
    pub closed spec fn confirm_command(&self) -> Command {
        self.confirm_command
    }

    pub fn new(message: String, confirm_command: Command) -> (modal: Self)
        ensures
            modal.message() == message@,
            modal.confirm_command() == confirm_command,
    {
        Self { message, confirm_command }
    }
}

impl Modal for ConfirmModal {
    fn title(&self) -> (title: &str)
        ensures
            title@ == "Confirm"@,
    {
        "Confirm"
    }

    fn options(&self) -> (options: Vec<(char, &str, &str)>)
        ensures
            options@.len() == 2,
            options@[0].0 == 'y' && options@[0].1@ == "yes"@ && options@[0].2@ == self.message(),
            options@[1].0 == 'n' && options@[1].1@ == "no"@ && options@[1].2@ == "Cancel operation"@,
    {
        vec![('y', "yes", self.message.as_str()), ('n', "no", "Cancel operation")]
    }

    fn handle_key(&self, key: char) -> (command: Option<Command>)
        ensures
            command == if key == 'y' || key == 'Y' {
                Some(self.confirm_command())
            } else {
                None
            },
    {
        match key {
            'y' | 'Y' => Some(self.confirm_command),
            _ => None,
        }
    }
}

} // verus!
