use vstd::prelude::*;
use crate::text::{owned, push_str};

pub mod commit;
pub mod discard;
pub mod editor;
pub mod staging;

verus! {

#[derive(Debug, Clone)]
pub struct OperationResult {
    pub message: String,
}

/// The text shown for an operation's result: a check mark, a space, the message.
pub open spec fn result_display_text(message: Seq<char>) -> Seq<char> {
    "\u{2713} "@ + message
}

impl OperationResult {
    pub fn new(message: String) -> (result: Self)
        ensures
            result.message == message,
    {
        Self { message }
    }

    /// The result as it is shown to the user.
    pub fn to_display_string(&self) -> (text: String)
        ensures
            text@ == result_display_text(self.message@),
    {
        let mut text = owned("\u{2713} ");
        push_str(&mut text, self.message.as_str());
        text
    }
}

} // verus!
