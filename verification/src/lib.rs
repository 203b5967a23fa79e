//! Image-processing core: exact pixel/vector value types, an opaque-handle
//! registry, and per-pixel compute kernels (normal maps, resizing,
//! procedural patterns, pointwise arithmetic) with a verified CPU
//! reference implementation and a backend-pluggable device boundary.

use vstd::prelude::*;

pub mod color;
pub mod image;
pub mod vector3;
pub mod registry;
pub mod numeric;
pub mod resize;
pub mod normal_map;
pub mod generator;
pub mod device;
pub mod codec;
pub mod ops;

verus! {

/// An error from the processing pipeline.
#[derive(Debug, Clone, PartialEq, Eq)]
pub enum ProcessorError {
    ImageSyncError(String),
}

/// The opaque form of an image handle at the host boundary: a single
/// 64-bit identifier. Zero is reserved for "invalid"; the host never sees
/// a raw address.
#[derive(Debug, Clone, Copy, PartialEq, Eq, Structural)]
pub struct SKIDImageHandle {
    pub id: u64,
}

impl SKIDImageHandle {
    /// Wraps a raw identifier.
    pub fn new(id: u64) -> (h: SKIDImageHandle)
        ensures
            h.id == id,
    {
        SKIDImageHandle { id }
    }

    /// The reserved invalid handle.
    pub fn invalid() -> (h: SKIDImageHandle)
        ensures
            h.id == 0,
    {
        SKIDImageHandle { id: 0 }
    }

    /// Whether this handle could denote a live image: the reserved zero
    /// never does.
    pub fn is_valid(&self) -> (v: bool)
        ensures
            v == (self.id != 0),
    {
        self.id != 0
    }
}

} // verus!
