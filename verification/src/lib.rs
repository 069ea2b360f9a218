//! Probabilistic membership filters over 64-bit digests.
//!
//! Three filter families are provided, all built by hypergraph peeling and
//! queried by comparing a narrow fingerprint against the XOR of three slots:
//!
//! * [`xor8::Xor8`], the classical xor filter with three disjoint blocks and
//!   8-bit fingerprints, built through [`xor8::Xor8Builder`].
//! * [`Fuse8`] and [`Fuse16`], the binary-fuse construction with overlapping
//!   segments and 8-bit or 16-bit fingerprints.
//!
//! Keys are turned into digests by a pluggable hash builder; [`BuildHasherDefault`]
//! is the deterministic default and [`NoHash`] marks filters whose callers
//! supply ready-made digests.

use vstd::prelude::*;

mod codec;
mod fuse16;
mod fuse8;
mod fuse_core;
mod geometry;
mod hasher;
mod mix;
mod sorting;
mod xor8_old;

pub mod xor8;

pub use fuse16::Fuse16;
pub use fuse8::Fuse8;
pub use hasher::BuildHasherDefault;
pub use hasher::NoHash;
pub use xor8_old::Xor8;

verus! {

/// Error values returned by this package's API.
///
/// Each variant carries a prefix, typically identifying the error location,
/// and a message.
#[derive(Debug)]
pub enum Error {
    /// Building the filter failed: the peeling loop exceeded its retry cap.
    Fatal(String, String),
    /// A serialized filter could not be decoded.
    InvalidData(String, String),
}

impl Error {
    /// The human-readable message carried by this error.
    pub fn to_message(&self) -> (r: String)
        ensures
            r@ == (match self {
                Error::Fatal(_, m) => m@,
                Error::InvalidData(_, m) => m@,
            }),
    {
        match self {
            Error::Fatal(_, m) => m.clone(),
            Error::InvalidData(_, m) => m.clone(),
        }
    }
}

} // verus!
