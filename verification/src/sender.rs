//! Outcome classification for one send: every HTTP response reports its
//! status code, every transport-level failure reports the zero sentinel.

use vstd::prelude::*;

verus! {

use crate::types::Command;

/// The status code that stands for a transport-level failure.
pub const TRANSPORT_ERROR_CODE: u16 = 0;

/// The classified result of one HTTP attempt: a status code, or the
/// transport-failure sentinel for any non-HTTP-level error.
#[derive(Debug, Clone, Copy, PartialEq, Eq, Structural)]
pub enum Outcome {
    StatusCode(u16),
    TransportError,
}

/// The command a sender posts for an outcome: the response's status code,
/// or the zero sentinel for a transport failure — never a made-up HTTP code.
pub fn command_for_outcome(outcome: Outcome) -> (r: Command)
    ensures
        match outcome {
            Outcome::StatusCode(code) => r == Command::Increment(code),
            Outcome::TransportError => r == Command::Increment(TRANSPORT_ERROR_CODE),
        },
{
    match outcome {
        Outcome::StatusCode(code) => Command::Increment(code),
        Outcome::TransportError => Command::Increment(TRANSPORT_ERROR_CODE),
    }
}

} // verus!
