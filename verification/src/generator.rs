//! Deterministic chunk data generation: a lattice sampler over global tile
//! coordinates, thresholded into three terrain codes.

use vstd::prelude::*;
use crate::config::{CHUNK_W, CHUNK_H, CHUNK_AREA, LOW_CUT, MID_CUT};
use crate::coords::ChunkCoord;
use noise::permutationtable::{NoiseHasher, PermutationTable};

verus! {

/// The raw sample the noise crate's lattice hash returns for a seed and a
/// global tile coordinate. Its value is fixed by the arguments alone: the
/// permutation table is built deterministically from the seed, and hashing
/// reads nothing but the table and the two coordinates.
pub uninterp spec fn noise_cell(seed: u32, gx: int, gy: int) -> u8;

#[verifier::external_type_specification]
#[verifier::external_body]
pub struct ExPermutationTable(PermutationTable);

/// A seed together with the permutation table the noise crate builds from
/// it. The pairing is kept by this module: the only constructor derives the
/// table from the stored seed.
pub struct NoiseSampler {
    seed: u32,
    table: PermutationTable,
}

impl View for NoiseSampler {
    type V = u32;

    /// A sampler is characterised by its seed alone.
    closed spec fn view(&self) -> u32 {
        self.seed
    }
}

impl NoiseSampler {
    /// Relies on `PermutationTable::new` of the noise crate, which its
    /// documentation states "deterministically generates a new permutation
    /// table based on a `u32` seed value".
    #[verifier::external_body]
    pub(crate) fn new(seed: u32) -> (s: NoiseSampler)
        ensures
            s@ == seed,
    {
        NoiseSampler { seed, table: PermutationTable::new(seed) }
    }

    /// Relies on `PermutationTable::hash` (trait `NoiseHasher` of the noise
    /// crate): it reads only the table entries and the two coordinates, and
    /// returns one of the table's byte values, so for the table built from
    /// this sampler's seed the result is a function of seed and coordinates.
    #[verifier::external_body]
    pub(crate) fn sample(&self, gx: i64, gy: i64) -> (v: u8)
        ensures
            v == noise_cell(self@, gx as int, gy as int),
    {
        self.table.hash(&[gx as isize, gy as isize]) as u8
    }

    /// The seed this sampler was built from.
    pub(crate) fn seed_value(&self) -> (s: u32)
        ensures
            s == self@,
    {
        self.seed
    }
}

/// The terrain code of one tile: the raw sample thresholded at the two
/// fixed cut points.
pub open spec fn spec_tile_code(seed: u32, gx: int, gy: int) -> u8 {
    let v = noise_cell(seed, gx, gy);
    if v < LOW_CUT {
        0u8
    } else if v < MID_CUT {
        1u8
    } else {
        2u8
    }
}

/// The global tile column of local column `lx` in chunk `c`.
pub open spec fn spec_global_x(c: ChunkCoord, lx: int) -> int {
    (c.x as int) * (CHUNK_W as int) + lx
}

/// The global tile row of local row `ly` in chunk `c`.
pub open spec fn spec_global_y(c: ChunkCoord, ly: int) -> int {
    (c.y as int) * (CHUNK_H as int) + ly
}

/// The tile buffer of chunk `c` under `seed`: `CHUNK_AREA` terrain codes in
/// row-major order, entry `i` belonging to local tile
/// `(i % CHUNK_W, i / CHUNK_W)`.
pub open spec fn spec_generate(seed: u32, c: ChunkCoord) -> Seq<u8> {
    Seq::new(
        CHUNK_AREA as nat,
        |i: int|
            spec_tile_code(
                seed,
                spec_global_x(c, i % (CHUNK_W as int)),
                spec_global_y(c, i / (CHUNK_W as int)),
            ),
    )
}

/// Generate the tile buffer of chunk `c` for `seed`: sample the lattice at
/// every global tile position of the chunk and threshold each sample. Pure
/// in its arguments; any seed and any coordinate are allowed.
pub fn generate(seed: u32, c: ChunkCoord) -> (data: Vec<u8>)
    ensures
        data@ == spec_generate(seed, c),
{
    let sampler = NoiseSampler::new(seed);
    generate_with(&sampler, c)
}

/// As `generate`, for a caller that already holds the sampler of `seed`.
pub(crate) fn generate_with(sampler: &NoiseSampler, c: ChunkCoord) -> (data: Vec<u8>)
    ensures
        data@ == spec_generate(sampler@, c),
{
    let ghost target = spec_generate(sampler@, c);
    let mut data: Vec<u8> = Vec::with_capacity(CHUNK_AREA);
    for y in 0..CHUNK_H
        invariant
            data@.len() == y * CHUNK_W,
            data@ == target.take((y * CHUNK_W) as int),
            target == spec_generate(sampler@, c),
            target.len() == CHUNK_AREA,
        decreases CHUNK_H - y,
    {
        for x in 0..CHUNK_W
            invariant
                y < CHUNK_H,
                data@.len() == y * CHUNK_W + x,
                data@ == target.take((y * CHUNK_W + x) as int),
                target == spec_generate(sampler@, c),
                target.len() == CHUNK_AREA,
            decreases CHUNK_W - x,
        {
            let gx: i64 = (c.x as i64) * (CHUNK_W as i64) + (x as i64);
            let gy: i64 = (c.y as i64) * (CHUNK_H as i64) + (y as i64);
            let v = sampler.sample(gx, gy);
            let code: u8 = if v < LOW_CUT {
                0u8
            } else if v < MID_CUT {
                1u8
            } else {
                2u8
            };
            proof {
                let i = (y * CHUNK_W + x) as int;
                assert(i % (CHUNK_W as int) == x as int && i / (CHUNK_W as int) == y as int)
                    by (nonlinear_arith)
                    requires
                        i == (y as int) * (CHUNK_W as int) + (x as int),
                        0 <= (x as int) < (CHUNK_W as int),
                        0 <= y as int,
                ;
                assert(target[i] == code);
                assert(data@.push(code) =~= target.take(i + 1));
            }
            data.push(code);
        }
    }
    proof {
        assert(data@ =~= target);
    }
    data
}

/// Determinism: the generator is a pure function of seed and coordinate,
/// so any two buffers that its contract admits for the same seed and the
/// same coordinate are identical.
pub proof fn lemma_generate_deterministic(seed: u32, c: ChunkCoord, a: Seq<u8>, b: Seq<u8>)
    requires
        a == spec_generate(seed, c),
        b == spec_generate(seed, c),
    ensures
        a == b,
{
}

/// Every generated buffer has exactly `CHUNK_AREA` entries and each entry
/// is one of the three terrain codes.
pub proof fn lemma_generate_shape(seed: u32, c: ChunkCoord)
    ensures
        spec_generate(seed, c).len() == CHUNK_AREA,
        forall|i: int| 0 <= i < CHUNK_AREA ==> spec_generate(seed, c)[i] <= 2,
{
}

} // verus!
