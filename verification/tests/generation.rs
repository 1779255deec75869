//! Tests of the chunk data generator and the coordinate math.

use terrain_stream::coords::{ChunkCoord, world_to_chunk};
use terrain_stream::generator::generate;

#[test]
fn generate_is_deterministic() {
    let c = ChunkCoord { x: 3, y: -2 };
    let a = generate(12345, c);
    let b = generate(12345, c);
    assert_eq!(a, b);
}

#[test]
fn generate_shape_and_codes() {
    let data = generate(42, ChunkCoord { x: 0, y: 0 });
    assert_eq!(data.len(), 256);
    for &t in data.iter() {
        assert!(t <= 2);
    }
}

#[test]
fn generate_varies_over_chunks() {
    // The sampler is a permutation-table hash: across a 3x3 block of
    // chunks the thresholded codes cannot all collapse to one value.
    let mut seen = [false; 3];
    for cx in -1..=1 {
        for cy in -1..=1 {
            for t in generate(42, ChunkCoord { x: cx, y: cy }) {
                seen[t as usize] = true;
            }
        }
    }
    assert!(seen.iter().filter(|&&b| b).count() >= 2);
}

#[test]
fn generate_depends_on_seed() {
    // Different seeds build different permutation tables; over a 3x3
    // block of chunks the generated terrain cannot coincide throughout.
    let mut differs = false;
    for cx in -1..=1 {
        for cy in -1..=1 {
            let c = ChunkCoord { x: cx, y: cy };
            if generate(1, c) != generate(2, c) {
                differs = true;
            }
        }
    }
    assert!(differs);
}

#[test]
fn world_to_chunk_floors() {
    assert_eq!(world_to_chunk(0, 0), ChunkCoord { x: 0, y: 0 });
    assert_eq!(world_to_chunk(127, 159), ChunkCoord { x: 0, y: 0 });
    assert_eq!(world_to_chunk(128, 160), ChunkCoord { x: 1, y: 1 });
    assert_eq!(world_to_chunk(-1, -1), ChunkCoord { x: -1, y: -1 });
    assert_eq!(world_to_chunk(-128, -160), ChunkCoord { x: -1, y: -1 });
    assert_eq!(world_to_chunk(-129, -161), ChunkCoord { x: -2, y: -2 });
    assert_eq!(world_to_chunk(2560, 3200), ChunkCoord { x: 20, y: 20 });
}
