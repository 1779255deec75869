//! Configuration constants of the streaming core: chunk layout, terrain
//! thresholds, cache budget and viewport-derived radius parameters.

use vstd::prelude::*;

verus! {

/// Tiles per chunk along the x axis.
pub const CHUNK_W: usize = 16;

/// Tiles per chunk along the y axis.
pub const CHUNK_H: usize = 16;

/// Tiles per chunk in all: the length of a row-major tile buffer,
/// `CHUNK_W * CHUNK_H`.
pub const CHUNK_AREA: usize = 256;

/// World units covered by one tile along the x axis.
pub const TILE_WORLD_W: i32 = 8;

/// World units covered by one tile along the y axis.
pub const TILE_WORLD_H: i32 = 10;

/// World units covered by one chunk along the x axis:
/// `CHUNK_W * TILE_WORLD_W`.
pub const CHUNK_WORLD_W: i32 = 128;

/// World units covered by one chunk along the y axis:
/// `CHUNK_H * TILE_WORLD_H`.
pub const CHUNK_WORLD_H: i32 = 160;

/// Raw samples below this cut point become terrain code 0.
pub const LOW_CUT: u8 = 115;

/// Raw samples below this cut point (and at or above `LOW_CUT`) become
/// terrain code 1; the rest become code 2.
pub const MID_CUT: u8 = 179;

/// Default number of chunk buffers the cache may hold at once.
pub const DEFAULT_CACHE_CAPACITY: usize = 256;

/// Minimum render radius in chunks per axis, and the fallback used when no
/// viewport data is available.
pub const MIN_RENDER_RADIUS: i32 = 3;

/// Default extra distance in chunks, beyond the render radius, that an
/// active chunk must cross before it is despawned.
pub const DEFAULT_HYSTERESIS_MARGIN: i32 = 1;

/// Fixed-point unit of the zoom scale: a scale of this many milli-units
/// means 1.0 (one world unit per screen pixel).
pub const SCALE_MILLI_ONE: u32 = 1000;

/// Largest zoom scale the radius computation honours, in milli-units: the
/// maximum zoom the camera allows plus a generation margin, so streaming
/// covers at least what the widest permitted zoom-out will reveal.
pub const MAX_GEN_SCALE_MILLI: u32 = 1000;

} // verus!
