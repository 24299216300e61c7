//! The errors of parsing.
use vstd::prelude::*;
use crate::lines::Position;

verus! {

/// Why parsing failed.
#[derive(Debug, PartialEq)]
pub enum ParseError {
    /// The token stream ended before the program did.
    UnexpectedEoF,
    /// A part was asked for after the end of the text was reached.
    ParseAfterEoF,
    /// A token that does not fit the grammar at this point.
    UnexpectedToken(Position, String),
    /// An expression that cannot stand where a pattern or identifier must.
    UnableToReinterpret(Position, String, String),
    /// A name declared twice.
    Redecl(Position, String),
    /// An internal operation that could not be completed.
    OperationError(Position, String),
    /// A getter that takes parameters.
    InvalidGetterParams(Position),
    /// A setter that does not take exactly one plain parameter.
    InvalidSetterParams(Position),
    /// A construct that strict mode code does not allow.
    NonStrictFeatureInStrictContext(Position, String),
    /// The text could not be split into tokens.
    ScannerError(Position, String),
}

} // verus!
