//! The error taxonomy of the decoder: value-level failures, row-shape
//! failures, and credential failures. Every failure keeps the original wire
//! text or the field that failed, so a caller can reconstruct it without
//! re-running the decode.

use vstd::prelude::*;

verus! {

/// A failure to decode one cell into a typed value.
#[derive(Debug)]
pub enum Error {
    /// An absent cell where a value was required.
    UnexpectedNull,
    /// The cell text could not be parsed as the target type; `given` is the
    /// original wire text.
    Format { given: String, err: String },
    /// The cell text parsed but denotes no representable value; `given` is
    /// the original wire text.
    Value { given: String, err: String },
    /// A failure inside a named field of a larger value.
    Field { field: &'static str, err: Box<Error> },
    /// A condition not otherwise classified.
    Other(String),
}

impl Error {
    /// Wraps a free-form message.
    pub fn other(msg: &str) -> (r: Self)
        ensures
            (r matches Error::Other(m) && m@ == msg@),
    {
        Error::Other(msg.to_owned())
    }

    /// A `Format` error that keeps the original wire text.
    pub fn format(given: &str, msg: &str) -> (r: Self)
        ensures
            (r matches Error::Format { given: g, err: _ } && g@ == given@),
    {
        Error::Format { given: given.to_owned(), err: msg.to_owned() }
    }
}

/// A failure to decode a whole row into a record.
#[derive(Debug)]
pub enum FromRowError {
    /// The cursor yielded an element that is not an optional string.
    NonStrField { field: &'static str, err: String },
    /// The cursor was exhausted before the field at `idx` was reached.
    MissingField { idx: usize, field: &'static str },
    /// The field's own value decoder failed.
    DeserializingField { field: &'static str, err: Error },
    /// A condition not otherwise classified.
    Custom(String),
}

/// A failure to build credentials for the warehouse.
#[derive(Debug)]
pub enum CredentialsError {
    PublicKey,
    PrivateKey,
    Token(String),
}

} // verus!
