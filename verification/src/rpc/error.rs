//! The failures that packet and message handling can report.

use tokio_postgres::Error as DbFailure;
use vstd::prelude::*;
use vstd::string::StringExecFns;

verus! {

/// `std::io::Error`, carried through unread.
#[verifier::external_type_specification]
#[verifier::external_body]
pub struct ExIoError(std::io::Error);

/// `std::str::Utf8Error`, carried through unread.
#[verifier::external_type_specification]
#[verifier::external_body]
pub struct ExUtf8Error(std::str::Utf8Error);

/// `tokio_postgres::Error`, carried through unread.
#[verifier::external_type_specification]
#[verifier::external_body]
pub struct ExDbError(DbFailure);

/// Everything that can go wrong between the byte stream and a typed message.
#[derive(Debug)]
pub enum Error {
    /// The stream ended before a complete packet had arrived.
    UnexpectedEof,
    /// A text field does not hold UTF-8.
    Utf8Error(std::str::Utf8Error),
    /// The transport failed.
    IOError(std::io::Error),
    /// A value could not be encoded or decoded; the text says why.
    Serde(String),
    /// The database failed while a request was being served.
    DbError(tokio_postgres::Error),
    /// The input is framed but meaningless: an unknown message code, or a
    /// declared length outside the accepted range.
    InvalidData,
    /// A buffer for a declared payload could not be allocated.
    OutOfMemory,
    /// A path that is not implemented.
    Todo,
}

impl From<std::io::Error> for Error {
    fn from(v: std::io::Error) -> (e: Error) {
        Error::IOError(v)
    }
}

impl vstd::std_specs::convert::FromSpecImpl<std::io::Error> for Error {
    open spec fn obeys_from_spec() -> bool {
        true
    }

    open spec fn from_spec(v: std::io::Error) -> Error {
        Error::IOError(v)
    }
}

impl From<std::str::Utf8Error> for Error {
    fn from(v: std::str::Utf8Error) -> (e: Error) {
        Error::Utf8Error(v)
    }
}

impl vstd::std_specs::convert::FromSpecImpl<std::str::Utf8Error> for Error {
    open spec fn obeys_from_spec() -> bool {
        true
    }

    open spec fn from_spec(v: std::str::Utf8Error) -> Error {
        Error::Utf8Error(v)
    }
}

impl From<tokio_postgres::Error> for Error {
    fn from(v: tokio_postgres::Error) -> (e: Error) {
        Error::DbError(v)
    }
}

impl vstd::std_specs::convert::FromSpecImpl<tokio_postgres::Error> for Error {
    open spec fn obeys_from_spec() -> bool {
        true
    }

    open spec fn from_spec(v: tokio_postgres::Error) -> Error {
        Error::DbError(v)
    }
}

impl From<std::collections::TryReserveError> for Error {
    fn from(v: std::collections::TryReserveError) -> (e: Error) {
        Error::OutOfMemory
    }
}

impl vstd::std_specs::convert::FromSpecImpl<std::collections::TryReserveError> for Error {
    open spec fn obeys_from_spec() -> bool {
        true
    }

    open spec fn from_spec(v: std::collections::TryReserveError) -> Error {
        Error::OutOfMemory
    }
}

/// The text that `Debug` gives for a string: the string in double quotes,
/// with what cannot stand there as it is written as an escape.
pub uninterp spec fn debug_quoted(text: Seq<char>) -> Seq<char>;

/// Formats a string with `Debug`, as `std` implements it for `str`.
#[verifier::external_body]
fn quote(text: &str) -> (quoted: String)
    ensures
        quoted@ == debug_quoted(text@),
{
    format!("{:?}", text)
}

/// Formats a `std::io::Error` with its own `Debug`. What comes out depends
/// on the error and on the system that raised it.
#[verifier::external_body]
fn describe_io(e: &std::io::Error) -> String {
    format!("{:?}", e)
}

/// Formats a `std::str::Utf8Error` with its own `Debug`.
#[verifier::external_body]
fn describe_utf8(e: &std::str::Utf8Error) -> String {
    format!("{:?}", e)
}

/// Formats a `tokio_postgres::Error` with its own `Debug`.
#[verifier::external_body]
fn describe_db(e: &DbFailure) -> String {
    format!("{:?}", e)
}

/// `name`, then `inner` in round brackets.
pub open spec fn bracketed(name: Seq<char>, inner: Seq<char>) -> Seq<char> {
    name + "("@ + inner + ")"@
}

/// Puts `inner` in round brackets behind `name`.
fn bracket(name: &str, inner: String) -> (text: String)
    ensures
        text@ == bracketed(name@, inner@),
{
    String::from_str(name).concat("(").concat(inner.as_str()).concat(")")
}

impl Error {
    /// Describes the error as text: the name of its kind and, for a kind
    /// that carries something, what it carries in round brackets, written as
    /// `Debug` writes it.
    pub fn to_string(&self) -> (text: String)
        ensures
            match self {
                Error::UnexpectedEof => text@ == "UnexpectedEof"@,
                Error::Utf8Error(_) => exists|inner: Seq<char>|
                    text@ == bracketed("Utf8Error"@, inner),
                Error::IOError(_) => exists|inner: Seq<char>| text@ == bracketed("IOError"@, inner),
                Error::Serde(msg) => text@ == bracketed("Serde"@, debug_quoted(msg@)),
                Error::DbError(_) => exists|inner: Seq<char>| text@ == bracketed("DbError"@, inner),
                Error::InvalidData => text@ == "InvalidData"@,
                Error::OutOfMemory => text@ == "OutOfMemory"@,
                Error::Todo => text@ == "Todo"@,
            },
    {
        match self {
            Error::UnexpectedEof => String::from_str("UnexpectedEof"),
            Error::Utf8Error(e) => bracket("Utf8Error", describe_utf8(e)),
            Error::IOError(e) => bracket("IOError", describe_io(e)),
            Error::Serde(msg) => bracket("Serde", quote(msg.as_str())),
            Error::DbError(e) => bracket("DbError", describe_db(e)),
            Error::InvalidData => String::from_str("InvalidData"),
            Error::OutOfMemory => String::from_str("OutOfMemory"),
            Error::Todo => String::from_str("Todo"),
        }
    }

    /// Builds the error that reports a value which could not be encoded or
    /// decoded, with `msg` as its text.
    pub fn custom(msg: &str) -> (e: Error)
        ensures
            e matches Error::Serde(text) && text@ == msg@,
    {
        Error::Serde(msg.to_owned())
    }
}

} // verus!
