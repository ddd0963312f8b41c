//! ChibiHash: a small, fast, non-cryptographic 64-bit hash function.
//!
//! Two incompatible algorithm versions are provided, `v1` and `v2`, each with
//! a one-shot evaluator (`chibi_hash64`) and a streaming evaluator
//! (`StreamingChibiHasher`) that is proved to produce the digest of the
//! one-shot evaluator over the concatenation of all bytes fed to it, however
//! the input was split across `update` calls.
//!
//! The default (re-exported at the crate root) is version 1.

pub mod v1;
pub mod v2;
mod words;

pub use v1::chibi_hash64;
pub use v1::ChibiHasher;
pub use v1::StreamingChibiHasher;
