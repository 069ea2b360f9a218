//! The xor8 filter: three disjoint blocks of 8-bit fingerprints, built by
//! hypergraph peeling over a digest set.

pub mod builder;
pub mod filter;

pub use builder::Xor8Builder;
pub use filter::Xor8;
