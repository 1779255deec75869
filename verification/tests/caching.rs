//! Tests of the bounded chunk cache and its eviction policy.

use terrain_stream::cache::ChunkCache;
use terrain_stream::coords::ChunkCoord;

#[test]
fn cache_capacity_bound() {
    let mut cache = ChunkCache::new(7, 4);
    for i in 0..20 {
        let _ = cache.get_or_generate(ChunkCoord { x: i, y: 0 });
        assert!(cache.len() <= 4);
    }
    assert_eq!(cache.len(), 4);
}

#[test]
fn lru_touch_protects_entry() {
    let mut cache = ChunkCache::new(1, 2);
    let a = ChunkCoord { x: 0, y: 0 };
    let b = ChunkCoord { x: 1, y: 0 };
    let c = ChunkCoord { x: 2, y: 0 };
    cache.get_or_generate(a);
    cache.get_or_generate(b);
    cache.get_or_generate(a);
    cache.get_or_generate(c);
    assert!(cache.contains(a));
    assert!(!cache.contains(b));
    assert!(cache.contains(c));
    assert_eq!(cache.len(), 2);
}

#[test]
fn cache_hit_returns_same_buffer() {
    let mut cache = ChunkCache::new(55, 8);
    let a = ChunkCoord { x: -4, y: 9 };
    let first = cache.get_or_generate(a);
    assert!(cache.contains(a));
    let again = cache.get_or_generate(a);
    assert_eq!(first, again);
}

#[test]
fn regeneration_after_eviction_matches() {
    let mut cache = ChunkCache::new(99, 2);
    let a = ChunkCoord { x: 5, y: 5 };
    let first = cache.get_or_generate(a);
    cache.get_or_generate(ChunkCoord { x: 6, y: 5 });
    cache.get_or_generate(ChunkCoord { x: 7, y: 5 });
    assert!(!cache.contains(a));
    let again = cache.get_or_generate(a);
    assert_eq!(first, again);
}
