//! Chunk coordinates and the map from world positions to the chunk grid.

use vstd::prelude::*;
use crate::config::{CHUNK_WORLD_W, CHUNK_WORLD_H};

verus! {

/// Identity of one grid cell: the pair of signed chunk indices.
#[derive(Clone, Copy, PartialEq, Eq, Hash, Debug, Structural)]
pub struct ChunkCoord {
    pub x: i32,
    pub y: i32,
}

/// The chunk index that contains world position `w` on an axis whose chunks
/// span `step` world units: the floor of `w / step`. Division on `int` is
/// Euclidean, which agrees with the floor for a positive divisor.
pub open spec fn spec_floor_div(w: int, step: int) -> int {
    w / step
}

/// The chunk that contains the world position `(wx, wy)`.
pub open spec fn spec_chunk_of_world(wx: int, wy: int) -> ChunkCoord {
    ChunkCoord {
        x: (wx / (CHUNK_WORLD_W as int)) as i32,
        y: (wy / (CHUNK_WORLD_H as int)) as i32,
    }
}

/// Floor division of a world coordinate by a positive axis step.
fn floor_div(w: i32, step: u32) -> (q: i64)
    requires
        1 <= step,
    ensures
        q == spec_floor_div(w as int, step as int),
{
    let s: u64 = step as u64;
    if w >= 0 {
        let n: u64 = w as u64;
        let q: u64 = n / s;
        (q as i64)
    } else {
        let n: u64 = (-(w as i64)) as u64;
        let up: u64 = (n + s - 1) / s;
        let q: i64 = -(up as i64);
        proof {
            let wi = w as int;
            let si = s as int;
            let ni = n as int;
            assert(ni == -wi);
            assert((ni + si - 1) / si == -(wi / si)) by (nonlinear_arith)
                requires
                    ni == -wi,
                    wi < 0,
                    si >= 1,
            ;
        }
        q
    }
}

/// The chunk that contains a world position, per axis the floor of the
/// position divided by the chunk's world extent.
pub fn world_to_chunk(wx: i32, wy: i32) -> (c: ChunkCoord)
    ensures
        c == spec_chunk_of_world(wx as int, wy as int),
        -16777216 <= c.x <= 16777215,
        -13421773 <= c.y <= 13421772,
{
    let cx: i64 = floor_div(wx, CHUNK_WORLD_W as u32);
    let cy: i64 = floor_div(wy, CHUNK_WORLD_H as u32);
    proof {
        assert(-16777216 <= (wx as int) / 128 <= 16777215) by (nonlinear_arith)
            requires
                -0x8000_0000 <= wx as int <= 0x7fff_ffff,
        ;
        assert(-13421773 <= (wy as int) / 160 <= 13421772) by (nonlinear_arith)
            requires
                -0x8000_0000 <= wy as int <= 0x7fff_ffff,
        ;
    }
    ChunkCoord { x: cx as i32, y: cy as i32 }
}

} // verus!
