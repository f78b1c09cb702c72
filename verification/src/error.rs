//! The error taxonomy shared by decoding and encoding.
//!
//! Every failure aborts the whole decode or encode call; the variants identify
//! the offending field or value so that the caller can diagnose the mismatch.

use vstd::prelude::*;

verus! {

/// Mathematical form of [`Error`]: string payloads are character sequences and
/// counters are unbounded integers. Contracts and the spec-level decoders and
/// encoders speak in this type.
pub enum ErrorSpec {
    /// A required field's key was absent from the header collection.
    MissingField(Seq<char>),
    /// A present value could not be converted; carries the raw text and a
    /// description of what was expected.
    InvalidValue(Seq<char>, Seq<char>),
    /// More fields were requested than the schema declares: the index that was
    /// asked for and the declared field count.
    InvalidLength(int, int),
    /// A header value's raw bytes were not valid UTF-8.
    InvalidUtf8,
    /// The requested shape has no decode or encode rule; carries a description
    /// of the unsupported shape.
    Unsupported(Seq<char>),
    /// Any other failure, such as a header charset violation on insertion.
    Custom(Seq<char>),
}

/// A decode or encode failure.
#[derive(Debug, Clone, PartialEq, Eq)]
pub enum Error {
    /// A required field's key was absent from the header collection.
    MissingField(String),
    /// A present value could not be converted; carries the raw text and a
    /// description of what was expected.
    InvalidValue(String, String),
    /// More fields were requested than the schema declares: the index that was
    /// asked for and the declared field count.
    InvalidLength(usize, usize),
    /// A header value's raw bytes were not valid UTF-8.
    InvalidUtf8,
    /// The requested shape has no decode or encode rule.
    Unsupported(String),
    /// Any other failure, such as a header charset violation on insertion.
    Custom(String),
}

impl View for Error {
    type V = ErrorSpec;

    open spec fn view(&self) -> ErrorSpec {
        match self {
            Error::MissingField(name) => ErrorSpec::MissingField(name@),
            Error::InvalidValue(raw, expected) => ErrorSpec::InvalidValue(raw@, expected@),
            Error::InvalidLength(actual, expected) => ErrorSpec::InvalidLength(
                *actual as int,
                *expected as int,
            ),
            Error::InvalidUtf8 => ErrorSpec::InvalidUtf8,
            Error::Unsupported(shape) => ErrorSpec::Unsupported(shape@),
            Error::Custom(message) => ErrorSpec::Custom(message@),
        }
    }
}

impl DeepView for Error {
    type V = ErrorSpec;

    open spec fn deep_view(&self) -> ErrorSpec {
        self.view()
    }
}

} // verus!
