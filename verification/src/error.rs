//! Why an operation on the store changed nothing.

use crate::text::{append_decimal, not_found_text};
use vstd::prelude::*;
use vstd::string::StringExecFns;

verus! {

/// Why an operation on the store changed nothing.
#[derive(Debug, Clone, Copy, PartialEq, Eq, Structural)]
pub enum TaskError {
    /// No task carries the id that was asked for, which is the one given
    /// here.
    NotFound(usize),
}

impl TaskError {
    /// The message that tells the user of this error.
    pub open spec fn message_text(self) -> Seq<char> {
        match self {
            TaskError::NotFound(id) => not_found_text(id as nat),
        }
    }

    /// The message that tells the user of this error.
    pub fn message(&self) -> (message: String)
        ensures
            message@ == self.message_text(),
    {
        match self {
            TaskError::NotFound(id) => {
                let mut message = String::from_str("Task with ID ");
                append_decimal(&mut message, *id);
                message.append(" not found.");
                message
            },
        }
    }
}

} // verus!
