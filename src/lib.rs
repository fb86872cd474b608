//! Identity matching and access decisions over stored face embeddings.
//!
//! An embedding is a vector of intensity levels (`u8`, the level `k` standing
//! for the value `k / 255`). Two embeddings match when their cosine similarity
//! strictly exceeds nine tenths; the comparison is made exactly, in integers.
use vstd::prelude::*;

pub mod access;
pub mod identity;
pub mod matcher;
pub mod record;
pub mod store;
