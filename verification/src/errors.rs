//! The error taxonomy of the cache client.

use vstd::prelude::*;

verus! {

/// What went wrong, without the payload: convenient for callers and tests
/// that only care which failure occurred.
#[derive(Clone, Copy, Debug, PartialEq, Eq, Structural)]
pub enum ErrorKind {
    CacheChunkChecksum,
    CacheChunkSize,
    CacheNotFound,
    CacheServiceStatus,
    CacheSize,
    CacheSizeTooLarge,
    InvalidHeaderValue,
    InvalidKeyComma,
    InvalidKeyLength,
    InvalidUrl,
}

/// A failure of a cache operation.
///
/// Transport-level failures (connection errors, JSON parse errors) arise in
/// the unverified shell that performs the I/O and are not represented here.
#[derive(Debug)]
pub enum Error {
    /// The MD5 of a downloaded chunk did not match its `Content-MD5` header.
    CacheChunkChecksum,
    /// A chunk's length was not the expected one.
    CacheChunkSize { expected_size: u64, actual_size: u64 },
    /// Lookup answered with a body that carries no archive location.
    CacheNotFound,
    /// The service answered with a non-success status.
    CacheServiceStatus { status: u16, message: String },
    /// The total artifact size contradicts the first chunk.
    CacheSize { expected_size: u64, actual_size: u64 },
    /// The artifact would not fit the wire protocol's signed 64-bit size.
    CacheSizeTooLarge(u64),
    /// The bearer token cannot be carried in an HTTP header.
    InvalidHeaderValue,
    /// A key contains a comma.
    InvalidKeyComma(String),
    /// A key is longer than the permitted 512 bytes.
    InvalidKeyLength(String),
    /// The configured base URL does not parse.
    InvalidUrl(String),
}

impl Error {
    /// The kind of this error, as a spec-level function.
    pub open spec fn kind_spec(&self) -> ErrorKind {
        match self {
            Error::CacheChunkChecksum => ErrorKind::CacheChunkChecksum,
            Error::CacheChunkSize { .. } => ErrorKind::CacheChunkSize,
            Error::CacheNotFound => ErrorKind::CacheNotFound,
            Error::CacheServiceStatus { .. } => ErrorKind::CacheServiceStatus,
            Error::CacheSize { .. } => ErrorKind::CacheSize,
            Error::CacheSizeTooLarge(..) => ErrorKind::CacheSizeTooLarge,
            Error::InvalidHeaderValue => ErrorKind::InvalidHeaderValue,
            Error::InvalidKeyComma(..) => ErrorKind::InvalidKeyComma,
            Error::InvalidKeyLength(..) => ErrorKind::InvalidKeyLength,
            Error::InvalidUrl(..) => ErrorKind::InvalidUrl,
        }
    }

    /// The kind of this error.
    pub fn kind(&self) -> (r: ErrorKind)
        ensures
            r == self.kind_spec(),
    {
        match self {
            Error::CacheChunkChecksum => ErrorKind::CacheChunkChecksum,
            Error::CacheChunkSize { .. } => ErrorKind::CacheChunkSize,
            Error::CacheNotFound => ErrorKind::CacheNotFound,
            Error::CacheServiceStatus { .. } => ErrorKind::CacheServiceStatus,
            Error::CacheSize { .. } => ErrorKind::CacheSize,
            Error::CacheSizeTooLarge(..) => ErrorKind::CacheSizeTooLarge,
            Error::InvalidHeaderValue => ErrorKind::InvalidHeaderValue,
            Error::InvalidKeyComma(..) => ErrorKind::InvalidKeyComma,
            Error::InvalidKeyLength(..) => ErrorKind::InvalidKeyLength,
            Error::InvalidUrl(..) => ErrorKind::InvalidUrl,
        }
    }
}

} // verus!
