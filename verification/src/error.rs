//! The error taxonomy of the canvas server: recoverable decode failures and
//! fatal per-connection failures.

use vstd::prelude::*;
use crate::Pos;

verus! {

/// A colour token that could not be parsed; carries the offending token.
#[derive(Debug)]
pub struct ParseColorError(pub String);

impl ParseColorError {
    /// Wraps the offending token.
    pub fn new(s: &str) -> (r: Self)
        ensures
            r.0@ == s@,
    {
        ParseColorError(s.to_owned())
    }
}

/// Everything that can go wrong while decoding or executing a command.
///
/// Decode failures (`ParseColorError`, `UnknownCommand`, `InvalidInput`) are
/// recoverable at the connection level; a `GetPxOutside` bounds failure is
/// fatal to the connection.
#[derive(Debug)]
pub enum MyError {
    /// A colour token that did not parse.
    ParseColorError(ParseColorError),
    /// A successfully decoded pixel command whose coordinate lies outside
    /// the canvas.
    GetPxOutside(Pos),
    /// A non-blank line that is no command at all; carries the line.
    UnknownCommand(String),
    /// A malformed `PX` line: bad coordinates, wrong token count, or a bad
    /// colour token.
    InvalidInput,
}

/// The usual result type of the protocol layer.
pub type MyResult<T = ()> = Result<T, MyError>;

} // verus!
