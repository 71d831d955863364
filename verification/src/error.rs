//! The player's error type.
use vstd::prelude::*;

verus! {

/// An error of the player; the text says what went wrong.
#[derive(Debug, Clone)]
pub enum PlayerError {
    Internal(String),
}

/// The result type used throughout the player.
pub type PlayerResult<T> = Result<T, PlayerError>;

impl PlayerError {
    /// The text of the error as the player shows it: `error: ` followed by the message.
    pub fn message(&self) -> (r: String)
        ensures
            r@ == "error: "@ + match self {
                PlayerError::Internal(s) => s@,
            },
    {
        match self {
            PlayerError::Internal(s) => {
                let prefix = String::from_str("error: ");
                prefix.concat(s.as_str())
            },
        }
    }
}

} // verus!
