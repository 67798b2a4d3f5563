use vstd::prelude::*;
use std::time::Instant;
use crate::clock::{current_instant, nanos_between};
use crate::operations::OperationResult;

verus! {

/// How long a result stays on screen, in nanoseconds: three seconds.
pub const MESSAGE_DISPLAY_NANOS: u128 = 3000000000;

pub struct FeedbackManager {
    current_message: Option<OperationResult>,
    /// The moment the current message was shown.
    pub shown_at: Option<Instant>,
}

impl FeedbackManager {
    /// The message kept for display, if any.
    pub closed spec fn message(&self) -> Option<Seq<char>> {
        match self.current_message {
            Some(m) => Some(m.message@),
            None => None,
        }
    }

    /// The moment the message was shown is known.
    pub closed spec fn has_shown_time(&self) -> bool {
        self.shown_at is Some
    }

    pub fn new() -> (manager: Self)
        ensures
            manager.message() is None,
            !manager.has_shown_time(),
    {
        Self { current_message: None, shown_at: None }
    }

    /// Shows `result` from now on, replacing any earlier message; it stays
    /// for `MESSAGE_DISPLAY_NANOS` from the moment of this call.
    pub fn show_result(&mut self, result: OperationResult)
        ensures
            final(self).message() == Some(result.message@),
            final(self).has_shown_time(),
    {
        self.current_message = Some(result);
        self.shown_at = Some(current_instant());
    }

    /// The message, given the time passed since it was shown (none where
    /// that time is unknown): it is shown for less than three seconds.
    pub fn message_shown(&self, elapsed_nanos: Option<u128>) -> (message: Option<&OperationResult>)
        ensures
            message is Some <==> (elapsed_nanos matches Some(e) && e < MESSAGE_DISPLAY_NANOS
                && self.message() is Some),
            message matches Some(m) ==> self.message() == Some(m.message@),
    {
        match elapsed_nanos {
            Some(e) => if e < MESSAGE_DISPLAY_NANOS {
                match &self.current_message {
                    Some(m) => Some(m),
                    None => None,
                }
            } else {
                None
            },
            None => None,
        }
    }

    /// The time since the message was shown, read from the clock now; none
    /// where no message was shown.
    fn elapsed_since_shown(&self) -> (elapsed: Option<u128>)
        ensures
            elapsed is Some == self.has_shown_time(),
    {
        match &self.shown_at {
            Some(shown) => {
                let now = current_instant();
                Some(nanos_between(shown, &now))
            },
            None => None,
        }
    }

    /// The message while less than three seconds have passed since it was
    /// shown. The time passed is read from the clock; the answer is that of
    /// `message_shown` for the time read.
    pub fn get_current_message(&self) -> (message: Option<&OperationResult>)
        ensures
            message is Some ==> self.has_shown_time() && self.message() is Some,
            message matches Some(m) ==> self.message() == Some(m.message@),
    {
        let elapsed = self.elapsed_since_shown();
        self.message_shown(elapsed)
    }

    /// Removes the message.
    pub fn clear_message(&mut self)
        ensures
            final(self).message() is None,
            !final(self).has_shown_time(),
    {
        self.current_message = None;
        self.shown_at = None;
    }

    /// Whether a message is on screen now.
    pub fn has_active_message(&self) -> (active: bool)
        ensures
            active ==> self.has_shown_time() && self.message() is Some,
    {
        self.get_current_message().is_some()
    }
}

impl Default for FeedbackManager {
    fn default() -> (manager: Self)
        ensures
            manager.message() is None,
            !manager.has_shown_time(),
    {
        Self::new()
    }
}

} // verus!
