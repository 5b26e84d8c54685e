//! Position records: fixed-size 2D/3D points with 32-bit or 64-bit
//! components. Components are carried as their IEEE 754 bit patterns, which
//! is what the codec, feature and hash layers read; the embedding host
//! converts to and from native floating point at its boundary.

use vstd::prelude::*;

verus! {

/// A 2D position with 32-bit components, each held as its bit pattern.
#[derive(Copy, Clone, Debug, PartialEq, Eq, Structural)]
pub struct Pos2d32 {
    pub x: u32,
    pub y: u32,
}

/// A 2D position with 64-bit components, each held as its bit pattern.
#[derive(Copy, Clone, Debug, PartialEq, Eq, Structural)]
pub struct Pos2d64 {
    pub x: u64,
    pub y: u64,
}

/// A 3D position with 32-bit components, each held as its bit pattern.
#[derive(Copy, Clone, Debug, PartialEq, Eq, Structural)]
pub struct Pos3d32 {
    pub x: u32,
    pub y: u32,
    pub z: u32,
}

/// A 3D position with 64-bit components, each held as its bit pattern.
#[derive(Copy, Clone, Debug, PartialEq, Eq, Structural)]
pub struct Pos3d64 {
    pub x: u64,
    pub y: u64,
    pub z: u64,
}

} // verus!
