//! An in-memory columnar data format together with a mechanism for
//! persisting row batches into a byte region and reconstructing them.
//!
//! Typed arrays of fixed-width values are laid out over raw byte buffers
//! with a validity bitmap; same-length arrays are composed under a schema
//! into row batches, and a writer/reader pair serializes a batch to a
//! byte region at a chosen offset and later rebuilds it.

use vstd::prelude::*;

pub mod adapter;
pub mod array;
pub mod buffer;
pub mod column;
pub mod memory;
pub mod memory_pool;
pub mod primitive;
pub mod status;
pub mod table;
pub mod ty;
