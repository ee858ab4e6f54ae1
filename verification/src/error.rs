//! The failure taxonomy shared by every operation of the library.

use vstd::prelude::*;

verus! {

/// Why an operation failed. Every failure is local to one operation; nothing
/// in the library terminates the process.
#[derive(Clone, Copy, Debug, PartialEq, Eq, Structural)]
pub enum TaskError {
    /// The identity gateway could not be reached.
    AuthUnavailable,
    /// The task a mutation names does not exist.
    NotFound,
    /// The task store could not be read or written.
    StoreError,
    /// The request itself is not acceptable (an empty title).
    ValidationError,
}

impl TaskError {
    /// The text shown to a user for this failure.
    pub open spec fn spec_message(self) -> Seq<char> {
        match self {
            TaskError::AuthUnavailable => "Auth session missing."@,
            TaskError::NotFound => "Task not found."@,
            TaskError::StoreError => "Pool missing."@,
            TaskError::ValidationError => "Title must not be empty."@,
        }
    }

    /// The failure that a message stands for: the failure with that
    /// message, or `StoreError` for any other text, which stands for a
    /// failure below the service.
    pub open spec fn spec_classify(text: Seq<char>) -> TaskError {
        if text == TaskError::AuthUnavailable.spec_message() {
            TaskError::AuthUnavailable
        } else if text == TaskError::NotFound.spec_message() {
            TaskError::NotFound
        } else if text == TaskError::ValidationError.spec_message() {
            TaskError::ValidationError
        } else {
            TaskError::StoreError
        }
    }

    /// Reads a failure back from its message.
    pub fn classify(text: &String) -> (error: TaskError)
        ensures
            error == Self::spec_classify(text@),
    {
        if *text == TaskError::AuthUnavailable.message() {
            TaskError::AuthUnavailable
        } else if *text == TaskError::NotFound.message() {
            TaskError::NotFound
        } else if *text == TaskError::ValidationError.message() {
            TaskError::ValidationError
        } else {
            TaskError::StoreError
        }
    }

    /// A failure is read back from its own message.
    pub proof fn lemma_message_round_trip(self)
        ensures
            Self::spec_classify(self.spec_message()) == self,
    {
        reveal_strlit("Auth session missing.");
        reveal_strlit("Task not found.");
        reveal_strlit("Pool missing.");
        reveal_strlit("Title must not be empty.");
        assert("Auth session missing."@.len() == 21);
        assert("Task not found."@.len() == 15);
        assert("Pool missing."@.len() == 13);
        assert("Title must not be empty."@.len() == 24);
    }

    /// Renders the failure as the message a client displays.
    pub fn message(&self) -> (text: String)
        ensures
            text@ == self.spec_message(),
    {
        match self {
            TaskError::AuthUnavailable => "Auth session missing.".to_owned(),
            TaskError::NotFound => "Task not found.".to_owned(),
            TaskError::StoreError => "Pool missing.".to_owned(),
            TaskError::ValidationError => "Title must not be empty.".to_owned(),
        }
    }
}

} // verus!
