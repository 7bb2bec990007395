//! The reasons for which a context is done.
use vstd::prelude::*;

verus! {

/// Why a context is done.
#[derive(Debug, Clone, Copy, PartialEq, Eq, Structural)]
pub enum ContextError {
    /// The context, or one of its ancestors, was canceled.
    Canceled,
    /// The deadline of the context, or of one of its ancestors, has passed.
    DeadlineExceeded,
}

impl ContextError {
    /// The text that describes the error.
    pub open spec fn message_spec(self) -> Seq<char> {
        match self {
            ContextError::Canceled => "context canceled"@,
            ContextError::DeadlineExceeded => "deadline exceeded"@,
        }
    }

    /// The text that describes the error: "context canceled" or "deadline exceeded".
    pub fn message(&self) -> (text: &'static str)
        ensures
            text@ == self.message_spec(),
    {
        match self {
            ContextError::Canceled => "context canceled",
            ContextError::DeadlineExceeded => "deadline exceeded",
        }
    }
}

} // verus!
