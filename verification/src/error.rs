//! Error taxonomy of the server.

use vstd::prelude::*;

verus! {

/// The class of an I/O failure.
#[derive(Debug, Clone, Copy, PartialEq, Eq, Structural)]
pub enum ErrorKind {
    /// The input ended before the requested bytes were available.
    UnexpectedEof,
    /// The bytes were readable but malformed.
    InvalidData,
    /// A file or entity was not found.
    NotFound,
    /// The listening address is already bound.
    AddrInUse,
    /// Any other I/O failure.
    Other,
}

/// The two ways in which a byte sequence can fail to parse.
#[derive(Debug, Clone, Copy, PartialEq, Eq, Structural)]
pub enum Fault {
    /// The bytes end before the value is complete.
    Truncated,
    /// The bytes violate the wire format.
    Malformed,
}

/// Main error type for the server.
#[derive(Debug)]
pub enum ServerError {
    /// I/O failure: lost connection, partial read, end of input.
    Io(ErrorKind),
    /// Protocol violation, with a human-readable reason.
    Protocol(String),
    /// The zlib compressor reported a failure.
    Compression,
    /// The zlib decompressor reported a failure.
    Decompression,
}

impl ErrorKind {
    /// The parse fault that an error of this class reports, if it reports
    /// one: a short input or malformed bytes.
    pub open spec fn fault(self) -> Option<Fault> {
        match self {
            ErrorKind::UnexpectedEof => Some(Fault::Truncated),
            ErrorKind::InvalidData => Some(Fault::Malformed),
            _ => None,
        }
    }
}

impl ServerError {
    /// The parse fault that this error reports, if it reports one.
    pub open spec fn fault(self) -> Option<Fault> {
        match self {
            ServerError::Io(ErrorKind::UnexpectedEof) => Some(Fault::Truncated),
            ServerError::Protocol(_) => Some(Fault::Malformed),
            _ => None,
        }
    }
}

impl ServerError {
    /// The class of I/O error that stands for this error where only such a
    /// class can be reported: protocol faults count as invalid data.
    pub fn kind(&self) -> (k: ErrorKind)
        ensures
            k == match *self {
                ServerError::Io(kind) => kind,
                ServerError::Protocol(_) => ErrorKind::InvalidData,
                _ => ErrorKind::Other,
            },
            self.fault() is Some ==> k.fault() == self.fault(),
    {
        match self {
            ServerError::Io(kind) => *kind,
            ServerError::Protocol(_) => ErrorKind::InvalidData,
            _ => ErrorKind::Other,
        }
    }
}

/// Convenience alias for results that fail with a [`ServerError`].
pub type Result<T> = std::result::Result<T, ServerError>;

/// Result of the byte-level readers, which fail with an I/O error class.
pub type IoResult<T> = std::result::Result<T, ErrorKind>;

} // verus!
