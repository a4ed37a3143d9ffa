//! Generation of simulated vehicle telemetry.
//!
//! *Models* produce streams of positions by implementing [`model::TelemStream`];
//! *protocols* turn a position into a message of some wire format by implementing
//! [`protocol::TelemMsg`].
//!
//! Every quantity is a whole number: angles count units of 1e-7 degree, lengths
//! millimetres or micrometres, durations milliseconds, sines and cosines parts per
//! billion. The library evaluates no sine and no cosine; where it needs one, the caller
//! hands it in.
use vstd::prelude::*;

pub mod coord;
pub mod decimal;
pub mod model;
pub mod protocol;

verus! {

/// Result type of this library.
pub type TGResult<T> = Result<T, Error>;

/// Error type of this library. Each variant carries a description of what was wrong.
#[derive(Debug)]
pub enum Error {
    /// The bytes handed to a decoder are not a well-formed frame.
    ParseError(String),
    /// A latitude or longitude lies outside its legal range.
    InvalidCoord(String),
}

impl Error {
    /// The error in words: its kind, then its description.
    pub open spec fn spec_message(self) -> Seq<char> {
        match self {
            Error::ParseError(text) => "Parse error: "@ + text@,
            Error::InvalidCoord(text) => "Invalid coordinate: "@ + text@,
        }
    }

    /// The error in words: its kind, then its description.
    pub fn message(&self) -> (text: String)
        ensures
            text@ == self.spec_message(),
    {
        match self {
            Error::ParseError(text) => String::from_str("Parse error: ").concat(text.as_str()),
            Error::InvalidCoord(text) => String::from_str("Invalid coordinate: ").concat(
                text.as_str(),
            ),
        }
    }
}

} // verus!
