//! Tests of the streaming director: radius math, spawn and despawn
//! reconciliation, hysteresis, and the movement bookkeeping.

use terrain_stream::coords::ChunkCoord;
use terrain_stream::director::{compute_frame, StreamingDirector, Viewport};
use terrain_stream::movement::{MoveSpeed, PlayerState, State};

#[test]
fn render_radii_from_viewport() {
    let f = compute_frame(
        0,
        0,
        Some(Viewport { width_px: 1024, height_px: 768, zoom_milli: 1000 }),
    );
    assert_eq!(f.radius_x, 4);
    assert_eq!(f.radius_y, 3);

    let f2 = compute_frame(
        0,
        0,
        Some(Viewport { width_px: 1024, height_px: 768, zoom_milli: 500 }),
    );
    assert_eq!(f2.radius_x, 3);
    assert_eq!(f2.radius_y, 3);

    let f3 = compute_frame(
        0,
        0,
        Some(Viewport { width_px: 1024, height_px: 768, zoom_milli: 5000 }),
    );
    assert_eq!(f3.radius_x, 4);
    assert_eq!(f3.radius_y, 3);

    let f4 = compute_frame(300, -300, None);
    assert_eq!(f4.radius_x, 3);
    assert_eq!(f4.radius_y, 3);
    assert_eq!(f4.chunk, ChunkCoord { x: 2, y: -2 });
}

#[test]
fn tick_without_viewer_is_noop() {
    let mut d = StreamingDirector::new(5, 16, 1);
    assert!(d.record_spawn(ChunkCoord { x: 0, y: 0 }, 1));
    let plan = d.tick(None, None);
    assert!(plan.spawns.is_empty());
    assert!(plan.despawns.is_empty());
    assert_eq!(d.active_count(), 1);
}

#[test]
fn radius_containment_after_one_tick() {
    let mut d = StreamingDirector::new(1, 256, 1);
    let plan = d.tick(Some((0, 0)), None);
    assert!(plan.despawns.is_empty());
    let mut h: u64 = 1;
    for s in plan.spawns {
        assert!(d.record_spawn(s.coord, h));
        h += 1;
    }
    for dx in -3..=3 {
        for dy in -3..=3 {
            assert!(d.is_active(ChunkCoord { x: dx, y: dy }));
        }
    }
    assert!(!d.is_active(ChunkCoord { x: 10, y: 10 }));
    assert_eq!(d.active_count(), 49);
}

#[test]
fn record_spawn_refuses_duplicates() {
    let mut d = StreamingDirector::new(0, 16, 1);
    let c = ChunkCoord { x: 2, y: 2 };
    assert!(d.record_spawn(c, 10));
    assert!(!d.record_spawn(c, 11));
    assert_eq!(d.active_count(), 1);
}

#[test]
fn respawn_only_after_despawn() {
    let mut d = StreamingDirector::new(3, 256, 1);
    let origin = ChunkCoord { x: 0, y: 0 };
    let plan = d.tick(Some((0, 0)), None);
    let mut h: u64 = 1;
    for s in plan.spawns {
        assert!(d.record_spawn(s.coord, h));
        h += 1;
    }
    assert!(d.is_active(origin));

    let plan2 = d.tick(Some((0, 0)), None);
    assert!(plan2.spawns.iter().all(|s| s.coord != origin));
    assert!(plan2.despawns.is_empty());

    let plan3 = d.tick(Some((128 * 20, 160 * 20)), None);
    assert!(plan3.despawns.iter().any(|e| e.coord == origin));
    assert!(!d.is_active(origin));

    let plan4 = d.tick(Some((0, 0)), None);
    assert!(plan4.spawns.iter().any(|s| s.coord == origin));
}

#[test]
fn hysteresis_retains_marginal_chunk() {
    let mut d = StreamingDirector::new(9, 256, 1);
    let far = ChunkCoord { x: 4, y: 0 };
    assert!(d.record_spawn(far, 77));

    let plan = d.tick(Some((0, 0)), None);
    assert!(plan.despawns.iter().all(|e| e.coord != far));
    assert!(d.is_active(far));

    let plan2 = d.tick(Some((-128, 0)), None);
    assert!(plan2.despawns.iter().any(|e| e.coord == far));
    assert!(!d.is_active(far));
}

#[test]
fn hysteresis_with_margin_two() {
    let mut d = StreamingDirector::new(9, 256, 2);
    let far = ChunkCoord { x: 5, y: 0 };
    assert!(d.record_spawn(far, 7));

    let plan = d.tick(Some((0, 0)), None);
    assert!(plan.despawns.iter().all(|e| e.coord != far));
    assert!(d.is_active(far));

    let plan2 = d.tick(Some((-128, 0)), None);
    assert!(plan2.despawns.iter().any(|e| e.coord == far));
    assert!(!d.is_active(far));
}

#[test]
fn end_to_end_viewer_move() {
    let mut d = StreamingDirector::new(42, 256, 1);
    let plan = d.tick(Some((0, 0)), None);
    let mut h: u64 = 1;
    let mut first_origin_buffer = Vec::new();
    for s in plan.spawns {
        if s.coord == (ChunkCoord { x: 0, y: 0 }) {
            first_origin_buffer = s.data.clone();
        }
        assert!(d.record_spawn(s.coord, h));
        h += 1;
    }
    assert_eq!(d.active_count(), 49);

    let plan2 = d.tick(Some((128 * 20, 160 * 20)), None);
    assert_eq!(plan2.despawns.len(), 49);
    for s in plan2.spawns {
        assert!(d.record_spawn(s.coord, h));
        h += 1;
    }
    for dx in -3..=3 {
        for dy in -3..=3 {
            assert!(d.is_active(ChunkCoord { x: 20 + dx, y: 20 + dy }));
        }
    }
    assert!(!d.is_active(ChunkCoord { x: 0, y: 0 }));
    assert_eq!(d.active_count(), 49);
    assert!(d.cache_contains(ChunkCoord { x: 20, y: 20 }));

    let plan3 = d.tick(Some((0, 0)), None);
    for s in plan3.spawns {
        if s.coord == (ChunkCoord { x: 0, y: 0 }) {
            assert_eq!(s.data, first_origin_buffer);
        }
    }
}

#[test]
fn movement_defaults() {
    assert!(matches!(State::default(), State::Idle));
    assert_eq!(MoveSpeed::default().0, 75);
    assert!(matches!(PlayerState::default(), PlayerState::Idle));
}
