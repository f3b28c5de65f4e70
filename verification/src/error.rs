//! The ways in which reading the system's report can fail.

use vstd::prelude::*;

verus! {

/// `std::string::FromUtf8Error`, carried as an opaque value: nothing is
/// claimed of what it holds.
#[verifier::external_type_specification]
#[verifier::external_body]
pub struct ExFromUtf8Error(std::string::FromUtf8Error);

/// `std::io::Error`, carried as an opaque value: nothing is claimed of what
/// it holds.
#[verifier::external_type_specification]
#[verifier::external_body]
pub struct ExIoError(std::io::Error);

/// Why a text is not an unsigned decimal number.
#[derive(Clone, Copy, Debug, PartialEq, Eq, Structural)]
pub enum IntErrorKind {
    /// The text is empty.
    Empty,
    /// A character is not a decimal digit.
    InvalidDigit,
    /// The number is too large for its type.
    PosOverflow,
}

/// A text that should have been a number was not.
#[derive(Clone, Copy, Debug, PartialEq, Eq, Structural)]
pub struct ParseIntError {
    pub kind: IntErrorKind,
}

/// An error of this library.
#[derive(Debug)]
#[allow(inconsistent_fields)]
pub enum Error {
    /// The text is too short or lacks what was looked for; holds the text.
    Parse(String),
    /// The external program could not be run.
    Io { source: std::io::Error },
    /// The program's output is not UTF-8.
    Utf8Conversion { source: std::string::FromUtf8Error },
    /// A field that should be a number is not.
    ParseInt { source: ParseIntError },
}

/// What an [`Error`] says, as a mathematical value.
pub enum Failure {
    Parse(Seq<char>),
    Io,
    Utf8Conversion,
    ParseInt(IntErrorKind),
}

impl View for Error {
    type V = Failure;

    open spec fn view(&self) -> Failure {
        match self {
            Error::Parse(text) => Failure::Parse(text@),
            Error::Io { .. } => Failure::Io,
            Error::Utf8Conversion { .. } => Failure::Utf8Conversion,
            Error::ParseInt { source } => Failure::ParseInt(source.kind),
        }
    }
}

impl From<std::io::Error> for Error {
    fn from(source: std::io::Error) -> (r: Error) {
        Error::Io { source }
    }
}

impl vstd::std_specs::convert::FromSpecImpl<std::io::Error> for Error {
    open spec fn obeys_from_spec() -> bool {
        true
    }

    open spec fn from_spec(source: std::io::Error) -> Error {
        Error::Io { source }
    }
}

impl From<std::string::FromUtf8Error> for Error {
    fn from(source: std::string::FromUtf8Error) -> (r: Error) {
        Error::Utf8Conversion { source }
    }
}

impl vstd::std_specs::convert::FromSpecImpl<std::string::FromUtf8Error> for Error {
    open spec fn obeys_from_spec() -> bool {
        true
    }

    open spec fn from_spec(source: std::string::FromUtf8Error) -> Error {
        Error::Utf8Conversion { source }
    }
}

impl From<ParseIntError> for Error {
    fn from(source: ParseIntError) -> (r: Error) {
        Error::ParseInt { source }
    }
}

impl vstd::std_specs::convert::FromSpecImpl<ParseIntError> for Error {
    open spec fn obeys_from_spec() -> bool {
        true
    }

    open spec fn from_spec(source: ParseIntError) -> Error {
        Error::ParseInt { source }
    }
}

} // verus!
