//! Client-side core of a remote artifact cache: key validation, version
//! fingerprinting, chunked transfer planning and validation, and the
//! reserve / upload / commit protocol, with the decisions verified.

pub mod chunks;
pub mod client;
pub mod codec;
pub mod download;
pub mod errors;
pub mod protocol;

use vstd::prelude::*;

verus! {

/// Largest artifact size the wire protocol can carry: the reserve and commit
/// bodies hold the size as a signed 64-bit integer.
pub const MAX_WIRE_SIZE: u64 = 0x7fff_ffff_ffff_ffff;

} // verus!
