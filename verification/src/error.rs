//! Errors raised while deserializing.

use vstd::prelude::*;

use crate::event::{AttributeError, Event};

verus! {

/// Why a string could not be read as an integer.
#[derive(Debug, Clone, Copy, PartialEq, Eq)]
pub enum IntErrorKind {
    /// The string is empty (or holds only a sign).
    Empty,
    /// The string holds a byte that is not a decimal digit.
    InvalidDigit,
    /// The value is larger than the largest value of the type.
    PosOverflow,
    /// The value is smaller than the smallest value of the type.
    NegOverflow,
}

/// Raised when a type parsed from a string rejects the string.
#[derive(Debug)]
pub struct DeserializeStrError<E> {
    /// Value that could not be parsed.
    pub value: String,
    /// Error reported by the parser.
    pub error: E,
}

/// Error that is raised while deserializing a value.
#[derive(Debug)]
pub enum Error {
    /// Bytes that should form a string are not valid UTF-8.
    InvalidUtf8,
    /// A text event could not be decoded.
    Encoding,
    /// Text holds a malformed or unknown entity or character reference.
    Escape,
    /// A value is not in the set of values its type accepts.
    UnknownOrInvalidValue(Vec<u8>),
    /// An attribute of a start tag could not be read.
    InvalidAttribute(AttributeError),
    /// The attribute with the given name occurs twice.
    DuplicateAttribute(Vec<u8>),
    /// The required attribute with the given name is missing.
    MissingAttribute(Vec<u8>),
    /// The attribute with the given name is not expected here.
    UnexpectedAttribute(Vec<u8>),
    /// The event is not expected here.
    UnexpectedEvent(Event),
    /// The element ended before it provided its content.
    MissingContent,
    /// The element with the given name occurs twice where it may occur once.
    DuplicateElement(Vec<u8>),
    /// The content of an element occurs twice where it may occur once.
    DuplicateContent,
    /// The required element with the given name is missing.
    MissingElement(Vec<u8>),
    /// A list holds another number of values than its type allows.
    InsufficientSize { min: usize, max: usize, actual: usize },
    /// A string could not be read as a number.
    InvalidNumber(DeserializeStrError<IntErrorKind>),
}

/// Two errors say the same: the same variant with fields of equal views
/// (events are compared as they are).
pub open spec fn same_error(a: Error, b: Error) -> bool {
    match (a, b) {
        (Error::InvalidUtf8, Error::InvalidUtf8) => true,
        (Error::Encoding, Error::Encoding) => true,
        (Error::Escape, Error::Escape) => true,
        (Error::UnknownOrInvalidValue(x), Error::UnknownOrInvalidValue(y)) => x@ == y@,
        (Error::InvalidAttribute(x), Error::InvalidAttribute(y)) => x == y,
        (Error::DuplicateAttribute(x), Error::DuplicateAttribute(y)) => x@ == y@,
        (Error::MissingAttribute(x), Error::MissingAttribute(y)) => x@ == y@,
        (Error::UnexpectedAttribute(x), Error::UnexpectedAttribute(y)) => x@ == y@,
        (Error::UnexpectedEvent(x), Error::UnexpectedEvent(y)) => x == y,
        (Error::MissingContent, Error::MissingContent) => true,
        (Error::DuplicateElement(x), Error::DuplicateElement(y)) => x@ == y@,
        (Error::DuplicateContent, Error::DuplicateContent) => true,
        (Error::MissingElement(x), Error::MissingElement(y)) => x@ == y@,
        (
            Error::InsufficientSize { min: a1, max: a2, actual: a3 },
            Error::InsufficientSize { min: b1, max: b2, actual: b3 },
        ) => a1 == b1 && a2 == b2 && a3 == b3,
        (Error::InvalidNumber(x), Error::InvalidNumber(y)) => x.value@ == y.value@ && x.error
            == y.error,
        _ => false,
    }
}

} // verus!
