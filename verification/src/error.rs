//! The one error type of the crate.

use crate::num::IntErrorKind;
use vstd::prelude::*;
use vstd::string::*;

verus! {

/// Why a text is not a decimal number with an optional fraction and exponent.
#[derive(Clone, Copy, Debug, PartialEq, Eq, Structural)]
pub enum FloatErrorKind {
    /// The text is empty.
    Empty,
    /// The text is not a number.
    Invalid,
}

/// What can go wrong when a script is read.
#[allow(inconsistent_fields)]
#[derive(Debug, PartialEq, Eq)]
pub enum Error {
    /// A script type that is neither `v4.00` nor `v4.00+`.
    UnknownSSAVersion(String),
    /// A text that is not a value of the kind `ty`.
    ParseError { ty: &'static str, msg: String },
    /// A text that is not an integer; `msg` is the text.
    ParseIntError { error: IntErrorKind, msg: String },
    /// A text that is not a number; `msg` is the text.
    ParseFloatError { error: FloatErrorKind, msg: String },
    /// A style section or a style without the column `Name`.
    V4StyleNameNotFound,
    /// A value of another kind than `expected`.
    InvalidType { expected: String },
    /// Bytes that are not well-formed UTF-8.
    InvalidUTF8Encoding,
}

/// An [`Error`] with its texts as sequences of characters.
#[allow(inconsistent_fields)]
pub enum ErrorView {
    UnknownSSAVersion(Seq<char>),
    ParseError { ty: Seq<char>, msg: Seq<char> },
    ParseIntError { error: IntErrorKind, msg: Seq<char> },
    ParseFloatError { error: FloatErrorKind, msg: Seq<char> },
    V4StyleNameNotFound,
    InvalidType { expected: Seq<char> },
    InvalidUTF8Encoding,
}

impl View for Error {
    type V = ErrorView;

    open spec fn view(&self) -> ErrorView {
        match self {
            Error::UnknownSSAVersion(v) => ErrorView::UnknownSSAVersion(v@),
            Error::ParseError { ty, msg } => ErrorView::ParseError { ty: ty@, msg: msg@ },
            Error::ParseIntError { error, msg } => ErrorView::ParseIntError {
                error: *error,
                msg: msg@,
            },
            Error::ParseFloatError { error, msg } => ErrorView::ParseFloatError {
                error: *error,
                msg: msg@,
            },
            Error::V4StyleNameNotFound => ErrorView::V4StyleNameNotFound,
            Error::InvalidType { expected } => ErrorView::InvalidType { expected: expected@ },
            Error::InvalidUTF8Encoding => ErrorView::InvalidUTF8Encoding,
        }
    }
}

impl Clone for Error {
    fn clone(&self) -> (r: Self)
        ensures
            r@ == self@,
    {
        match self {
            Error::UnknownSSAVersion(v) => Error::UnknownSSAVersion(v.clone()),
            Error::ParseError { ty, msg } => Error::ParseError { ty: *ty, msg: msg.clone() },
            Error::ParseIntError { error, msg } => Error::ParseIntError {
                error: *error,
                msg: msg.clone(),
            },
            Error::ParseFloatError { error, msg } => Error::ParseFloatError {
                error: *error,
                msg: msg.clone(),
            },
            Error::V4StyleNameNotFound => Error::V4StyleNameNotFound,
            Error::InvalidType { expected } => Error::InvalidType { expected: expected.clone() },
            Error::InvalidUTF8Encoding => Error::InvalidUTF8Encoding,
        }
    }
}

impl ErrorView {
    /// The sentence that describes the error.
    pub open spec fn message(self) -> Seq<char> {
        match self {
            ErrorView::UnknownSSAVersion(v) => "unknown ssa file format version `"@ + v + "`"@,
            ErrorView::ParseError { ty, msg } => "parse to "@ + ty + " error, "@ + msg,
            ErrorView::ParseIntError { error, msg } => msg,
            ErrorView::ParseFloatError { error, msg } => msg,
            ErrorView::V4StyleNameNotFound => "v4 style name not found"@,
            ErrorView::InvalidType { expected } => "invalid type, expected "@ + expected,
            ErrorView::InvalidUTF8Encoding => "invalid utf-8 encoding"@,
        }
    }
}

impl Error {
    /// The error for the text `msg`, which is no value of the kind `ty`.
    pub fn parse_error(ty: &'static str, msg: &str) -> (e: Error)
        ensures
            e@ == (ErrorView::ParseError { ty: ty@, msg: msg@ }),
    {
        Error::ParseError { ty, msg: String::from_str(msg) }
    }

    /// The error for the text `msg`, which is no integer.
    pub fn parse_int_error(error: IntErrorKind, msg: &str) -> (e: Error)
        ensures
            e@ == (ErrorView::ParseIntError { error, msg: msg@ }),
    {
        Error::ParseIntError { error, msg: String::from_str(msg) }
    }

    /// The error for the text `msg`, which is no number.
    pub fn parse_float_error(error: FloatErrorKind, msg: &str) -> (e: Error)
        ensures
            e@ == (ErrorView::ParseFloatError { error, msg: msg@ }),
    {
        Error::ParseFloatError { error, msg: String::from_str(msg) }
    }

    /// The error for the script type `version`.
    pub fn unknown_version(version: &str) -> (e: Error)
        ensures
            e@ == ErrorView::UnknownSSAVersion(version@),
    {
        Error::UnknownSSAVersion(String::from_str(version))
    }

    /// The error for a value of another kind than `expected`.
    pub fn invalid_type(expected: &str) -> (e: Error)
        ensures
            e@ == (ErrorView::InvalidType { expected: expected@ }),
    {
        Error::InvalidType { expected: String::from_str(expected) }
    }

    /// The sentence that describes the error.
    pub fn to_string(&self) -> (s: String)
        ensures
            s@ == self@.message(),
    {
        match self {
            Error::UnknownSSAVersion(v) => String::from_str(
                "unknown ssa file format version `",
            ).concat(v.as_str()).concat("`"),
            Error::ParseError { ty, msg } => String::from_str("parse to ").concat(ty).concat(
                " error, ",
            ).concat(msg.as_str()),
            Error::ParseIntError { error, msg } => msg.clone(),
            Error::ParseFloatError { error, msg } => msg.clone(),
            Error::V4StyleNameNotFound => String::from_str("v4 style name not found"),
            Error::InvalidType { expected } => String::from_str("invalid type, expected ").concat(
                expected.as_str(),
            ),
            Error::InvalidUTF8Encoding => String::from_str("invalid utf-8 encoding"),
        }
    }
}

} // verus!
