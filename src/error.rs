//! The two error families: one for packing, one for unpacking.
use crate::code::Code;
use vstd::prelude::*;

verus! {

/// What a range error is about, with the value that did not fit.
#[derive(Debug, Clone, Copy, PartialEq, Eq, Structural)]
pub enum RangeError {
    /// A positive fix int holds 0..=127 only.
    PosFixInt(u8),
    /// A negative fix int holds -32..=-1 only.
    NegFixInt(i8),
    /// Negative extension types are reserved by the format.
    ExtType(i8),
    /// A timestamp64 holds seconds below 2^34 and nanoseconds below 2^30.
    Timestamp64(u64, u32),
}

/// Packing writes into a growable buffer and cannot fail on i/o; it fails
/// only on a value that the chosen encoding cannot hold.
#[derive(Debug, Clone, Copy, PartialEq, Eq, Structural)]
pub enum PackError {
    OutOfRange(RangeError),
}

/// Why the bytes could not be decoded.
#[derive(Debug, Clone, Copy, PartialEq, Eq, Structural)]
pub enum DataError {
    /// The input ended inside an element.
    UnexpectedEof,
    /// A string asked for as text holds invalid UTF-8.
    InvalidUtf8,
    /// The reserved byte `0xc1` stood where a code was expected.
    ReservedCode,
    /// An extension of type -1 does not have a timestamp's shape.
    InvalidTimestamp,
}

#[derive(Debug, Clone, Copy, PartialEq, Eq)]
pub enum UnpackError {
    InvalidData(DataError),
    /// The code read, and the name of the type that was expected.
    TypeMismatch(Code, &'static str),
}

pub open spec fn eof() -> UnpackError {
    UnpackError::InvalidData(DataError::UnexpectedEof)
}

} // verus!
