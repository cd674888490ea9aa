//! Why an action is refused.

use vstd::prelude::*;

verus! {

/// Why an action is refused.
#[derive(Debug)]
pub enum EngineError {
    /// The action makes no sense as things stand.
    InvalidAction(String),
    /// The action makes sense, but a rule forbids it.
    ActionNotAllowed(String),
}

/// The action is refused as one that a rule forbids, with this text.
pub open spec fn forbidden<T>(r: Result<T, EngineError>, text: Seq<char>) -> bool {
    match r {
        Err(EngineError::ActionNotAllowed(s)) => s@ == text,
        _ => false,
    }
}

/// The action is refused as one that makes no sense, with this text.
pub open spec fn invalid<T>(r: Result<T, EngineError>, text: Seq<char>) -> bool {
    match r {
        Err(EngineError::InvalidAction(s)) => s@ == text,
        _ => false,
    }
}

/// Refuses an action as one that a rule forbids.
pub fn forbid<T>(text: &str) -> (r: Result<T, EngineError>)
    ensures
        forbidden(r, text@),
{
    Err(EngineError::ActionNotAllowed(text.to_owned()))
}

/// Refuses an action as one that makes no sense.
pub fn refuse<T>(text: &str) -> (r: Result<T, EngineError>)
    ensures
        invalid(r, text@),
{
    Err(EngineError::InvalidAction(text.to_owned()))
}

} // verus!
