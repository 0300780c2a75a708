//! Session-boundary errors: rejections a client can receive before or
//! instead of a game action taking effect.

use vstd::prelude::*;

verus! {

/// Why a session-level request was rejected.
#[derive(Debug)]
pub enum GameError {
    GameNotFound,
    GameAlreadyStarted,
    NotEnoughPlayers,
    GameFull,
    InvalidOperation(String),
}

/// The wording of each rejection.
pub open spec fn error_message(e: GameError) -> Seq<char> {
    match e {
        GameError::GameNotFound => "Game not found"@,
        GameError::GameAlreadyStarted => "Game already started"@,
        GameError::NotEnoughPlayers => "Not enough players"@,
        GameError::GameFull => "Game is full"@,
        GameError::InvalidOperation(s) => "Invalid operation: "@ + s@,
    }
}

/// The HTTP status code each rejection is reported with.
pub open spec fn error_status_code(e: GameError) -> u16 {
    match e {
        GameError::GameNotFound => 404,
        GameError::GameAlreadyStarted => 400,
        GameError::GameFull => 400,
        GameError::InvalidOperation(_) => 400,
        GameError::NotEnoughPlayers => 500,
    }
}

impl GameError {
    /// Human-readable description of the rejection.
    pub fn message(&self) -> (r: String)
        ensures
            r@ == error_message(*self),
    {
        match self {
            GameError::GameNotFound => String::from_str("Game not found"),
            GameError::GameAlreadyStarted => String::from_str("Game already started"),
            GameError::NotEnoughPlayers => String::from_str("Not enough players"),
            GameError::GameFull => String::from_str("Game is full"),
            GameError::InvalidOperation(s) => String::from_str("Invalid operation: ").concat(
                s.as_str(),
            ),
        }
    }

    /// The HTTP status code this rejection is reported with.
    pub fn status_code(&self) -> (r: u16)
        ensures
            r == error_status_code(*self),
    {
        match self {
            GameError::GameNotFound => 404,
            GameError::GameAlreadyStarted => 400,
            GameError::GameFull => 400,
            GameError::InvalidOperation(_) => 400,
            GameError::NotEnoughPlayers => 500,
        }
    }
}

} // verus!
