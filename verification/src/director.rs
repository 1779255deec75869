//! The streaming director: each tick it reconciles which chunks should be
//! visible around the viewer against which are currently live, spawning
//! newly in-range chunks and despawning those that left the render radius
//! by more than the hysteresis margin.

use vstd::prelude::*;
use vstd::arithmetic::div_mod::{lemma_div_is_ordered, lemma_div_by_multiple};
use crate::cache::ChunkCache;
use crate::config::{
    CHUNK_WORLD_W, CHUNK_WORLD_H, MIN_RENDER_RADIUS, MAX_GEN_SCALE_MILLI, SCALE_MILLI_ONE,
};
use crate::coords::{ChunkCoord, spec_chunk_of_world, world_to_chunk};
use crate::generator::spec_generate;

verus! {

/// Raw viewport data for one tick: pixel size of the window and the
/// camera's zoom scale in milli-units (1000 = one world unit per pixel).
#[derive(Clone, Copy, PartialEq, Eq, Structural, Debug)]
pub struct Viewport {
    pub width_px: u32,
    pub height_px: u32,
    pub zoom_milli: u32,
}

/// The viewer state derived for one tick: the chunk under the viewer and
/// the render radius per axis in chunks.
#[derive(Clone, Copy, PartialEq, Eq, Structural, Debug)]
pub struct ViewerFrame {
    pub chunk: ChunkCoord,
    pub radius_x: i32,
    pub radius_y: i32,
}

/// One live chunk: its coordinate and the spawn handle the rendering
/// collaborator returned for it.
#[derive(Clone, Copy, PartialEq, Eq, Structural, Debug)]
pub struct ActiveChunk {
    pub coord: ChunkCoord,
    pub handle: u64,
}

/// A spawn intent: the chunk to materialize and its tile buffer.
pub struct SpawnCmd {
    pub coord: ChunkCoord,
    pub data: Vec<u8>,
}

/// What one tick asks of the rendering collaborator: chunks to spawn and
/// live chunks to despawn (with the handles to release).
pub struct TickPlan {
    pub spawns: Vec<SpawnCmd>,
    pub despawns: Vec<ActiveChunk>,
}

/// `c` lies in the inclusive box of half-extents `rx`, `ry` around
/// `center`.
pub open spec fn in_radius(center: ChunkCoord, c: ChunkCoord, rx: int, ry: int) -> bool {
    &&& -rx <= c.x - center.x <= rx
    &&& -ry <= c.y - center.y <= ry
}

/// `c`'s offset from `center` exceeds the radius plus the hysteresis
/// margin on some axis, so an active chunk there must be despawned.
pub open spec fn beyond_margin(
    center: ChunkCoord,
    c: ChunkCoord,
    rx: int,
    ry: int,
    margin: int,
) -> bool {
    ||| c.x - center.x > rx + margin
    ||| center.x - c.x > rx + margin
    ||| c.y - center.y > ry + margin
    ||| center.y - c.y > ry + margin
}

/// Some entry of `s` is for coordinate `c`.
pub open spec fn active_has(s: Seq<ActiveChunk>, c: ChunkCoord) -> bool {
    exists|i: int| 0 <= i < s.len() && s[i].coord == c
}

/// No coordinate is live twice.
pub open spec fn distinct_active(s: Seq<ActiveChunk>) -> bool {
    forall|i: int, j: int| 0 <= i < j < s.len() ==> s[i].coord != s[j].coord
}

/// Some spawn intent of `s` is for coordinate `c`.
pub open spec fn spawns_has(s: Seq<SpawnCmd>, c: ChunkCoord) -> bool {
    exists|i: int| 0 <= i < s.len() && s[i].coord == c
}

/// No coordinate is spawned twice in one plan.
pub open spec fn distinct_spawn_coords(s: Seq<SpawnCmd>) -> bool {
    forall|i: int, j: int| 0 <= i < j < s.len() ==> s[i].coord != s[j].coord
}

/// The active entries that survive a tick: those within radius plus
/// margin of the viewer's chunk, in their original order.
pub open spec fn spec_retained(
    s: Seq<ActiveChunk>,
    center: ChunkCoord,
    rx: int,
    ry: int,
    margin: int,
) -> Seq<ActiveChunk>
    decreases s.len(),
{
    if s.len() == 0 {
        Seq::empty()
    } else {
        let rest = spec_retained(s.drop_last(), center, rx, ry, margin);
        if beyond_margin(center, s.last().coord, rx, ry, margin) {
            rest
        } else {
            rest.push(s.last())
        }
    }
}

/// The active entries a tick despawns: those beyond radius plus margin,
/// in their original order.
pub open spec fn spec_despawned(
    s: Seq<ActiveChunk>,
    center: ChunkCoord,
    rx: int,
    ry: int,
    margin: int,
) -> Seq<ActiveChunk>
    decreases s.len(),
{
    if s.len() == 0 {
        Seq::empty()
    } else {
        let rest = spec_despawned(s.drop_last(), center, rx, ry, margin);
        if beyond_margin(center, s.last().coord, rx, ry, margin) {
            rest.push(s.last())
        } else {
            rest
        }
    }
}

/// Ceiling division for a non-negative dividend and positive divisor.
pub open spec fn spec_ceil_div(a: int, b: int) -> int {
    (a + b - 1) / b
}

/// The zoom scale the radius computation uses: the current scale clamped
/// to the largest generation scale, so streaming always covers what the
/// widest permitted zoom-out will reveal.
pub open spec fn spec_clamped_zoom(zoom_milli: u32) -> int {
    if zoom_milli > MAX_GEN_SCALE_MILLI {
        MAX_GEN_SCALE_MILLI as int
    } else {
        zoom_milli as int
    }
}

/// The render radius of one axis: the viewport half-extent at the clamped
/// zoom, in chunks and rounded up, but never below the minimum radius.
pub open spec fn spec_axis_radius(px: u32, zoom_milli: u32, chunk_world: int) -> int {
    let r = spec_ceil_div(
        (px as int) * spec_clamped_zoom(zoom_milli),
        2 * (SCALE_MILLI_ONE as int) * chunk_world,
    );
    if r < MIN_RENDER_RADIUS as int {
        MIN_RENDER_RADIUS as int
    } else {
        r
    }
}

/// The horizontal render radius this tick: from the viewport if one is
/// available, else the fallback radius.
pub open spec fn spec_radius_x(viewport: Option<Viewport>) -> int {
    match viewport {
        None => MIN_RENDER_RADIUS as int,
        Some(v) => spec_axis_radius(v.width_px, v.zoom_milli, CHUNK_WORLD_W as int),
    }
}

/// The vertical render radius this tick.
pub open spec fn spec_radius_y(viewport: Option<Viewport>) -> int {
    match viewport {
        None => MIN_RENDER_RADIUS as int,
        Some(v) => spec_axis_radius(v.height_px, v.zoom_milli, CHUNK_WORLD_H as int),
    }
}

/// The render radius of one axis, computed in fixed point exactly as
/// `spec_axis_radius` states it.
fn axis_radius(px: u32, zoom_milli: u32, chunk_world: u32) -> (r: i32)
    requires
        128 <= chunk_world,
    ensures
        r as int == spec_axis_radius(px, zoom_milli, chunk_world as int),
        MIN_RENDER_RADIUS as int <= r as int <= 0x100_0001,
{
    let z: u32 = if zoom_milli > MAX_GEN_SCALE_MILLI {
        MAX_GEN_SCALE_MILLI
    } else {
        zoom_milli
    };
    proof {
        assert((px as int) * (z as int) <= 0x3e7_ffff_fc18) by (nonlinear_arith)
            requires
                0 <= px as int <= 0xffff_ffff,
                0 <= z as int <= 1000,
        ;
        assert(2000 * (chunk_world as int) <= 0x7cf_ffff_f830) by (nonlinear_arith)
            requires
                0 <= chunk_world as int <= 0xffff_ffff,
        ;
    }
    let num: u64 = (px as u64) * (z as u64);
    let denom: u64 = 2 * (SCALE_MILLI_ONE as u64) * (chunk_world as u64);
    let raw: u64 = (num + denom - 1) / denom;
    proof {
        assert(num + denom - 1 <= 0x100_0001 * denom) by (nonlinear_arith)
            requires
                num <= 0x3e7_ffff_fc18,
                denom >= 256000,
        ;
        lemma_div_is_ordered((num + denom - 1) as int, 0x100_0001 * (denom as int), denom as int);
        lemma_div_by_multiple(0x100_0001, denom as int);
    }
    if raw < (MIN_RENDER_RADIUS as u64) {
        MIN_RENDER_RADIUS
    } else {
        raw as i32
    }
}

/// Derive the viewer's frame for this tick: the chunk under the world
/// position, and the per-axis render radius from the viewport if one is
/// available, else the fallback radius.
pub fn compute_frame(viewer_x: i32, viewer_y: i32, viewport: Option<Viewport>) -> (f: ViewerFrame)
    ensures
        f.chunk == spec_chunk_of_world(viewer_x as int, viewer_y as int),
        f.radius_x as int == spec_radius_x(viewport),
        f.radius_y as int == spec_radius_y(viewport),
        MIN_RENDER_RADIUS as int <= f.radius_x as int <= 0x100_0001,
        MIN_RENDER_RADIUS as int <= f.radius_y as int <= 0x100_0001,
        -16777216 <= f.chunk.x <= 16777215,
        -13421773 <= f.chunk.y <= 13421772,
{
    let chunk = world_to_chunk(viewer_x, viewer_y);
    match viewport {
        None => ViewerFrame { chunk, radius_x: MIN_RENDER_RADIUS, radius_y: MIN_RENDER_RADIUS },
        Some(v) => ViewerFrame {
            chunk,
            radius_x: axis_radius(v.width_px, v.zoom_milli, CHUNK_WORLD_W as u32),
            radius_y: axis_radius(v.height_px, v.zoom_milli, CHUNK_WORLD_H as u32),
        },
    }
}

/// A coordinate inside the render radius is never beyond the despawn
/// margin, for any non-negative margin: spawning and despawning cannot
/// both apply to one chunk in one tick.
pub proof fn lemma_in_radius_not_beyond(
    center: ChunkCoord,
    c: ChunkCoord,
    rx: int,
    ry: int,
    margin: int,
)
    requires
        margin >= 0,
        in_radius(center, c, rx, ry),
    ensures
        !beyond_margin(center, c, rx, ry, margin),
{
}

/// Everything retained by a tick was active before it, and was not beyond
/// the margin.
pub proof fn lemma_retained_sub(
    s: Seq<ActiveChunk>,
    center: ChunkCoord,
    rx: int,
    ry: int,
    margin: int,
)
    ensures
        forall|e: ActiveChunk| #[trigger]
            spec_retained(s, center, rx, ry, margin).contains(e) ==> s.contains(e)
                && !beyond_margin(center, e.coord, rx, ry, margin),
    decreases s.len(),
{
    if s.len() > 0 {
        lemma_retained_sub(s.drop_last(), center, rx, ry, margin);
        let out = spec_retained(s, center, rx, ry, margin);
        let rest = spec_retained(s.drop_last(), center, rx, ry, margin);
        assert forall|e: ActiveChunk| #[trigger] out.contains(e) implies s.contains(e)
            && !beyond_margin(center, e.coord, rx, ry, margin) by {
            let i = choose|i: int| 0 <= i < out.len() && out[i] == e;
            if !beyond_margin(center, s.last().coord, rx, ry, margin) && i == out.len() - 1 {
                assert(e == s.last());
                assert(s[s.len() - 1] == e);
            } else {
                assert(rest[i] == e);
                assert(rest.contains(e));
                let j = choose|j: int| 0 <= j < s.drop_last().len() && s.drop_last()[j] == e;
                assert(s[j] == e);
            }
        }
    }
}

/// Hysteresis: an active chunk whose offset from the viewer's chunk does
/// not exceed the radius plus the margin on either axis is retained by
/// the tick — in particular, one sitting just outside the radius but
/// within the margin is not despawned merely for crossing the radius.
pub proof fn lemma_hysteresis(
    s: Seq<ActiveChunk>,
    center: ChunkCoord,
    rx: int,
    ry: int,
    margin: int,
    i: int,
)
    requires
        0 <= i < s.len(),
        !beyond_margin(center, s[i].coord, rx, ry, margin),
    ensures
        spec_retained(s, center, rx, ry, margin).contains(s[i]),
    decreases s.len(),
{
    if i == s.len() - 1 {
        assert(s.last() == s[i]);
        let out = spec_retained(s, center, rx, ry, margin);
        assert(out[out.len() - 1] == s[i]);
    } else {
        lemma_hysteresis(s.drop_last(), center, rx, ry, margin, i);
        let rest = spec_retained(s.drop_last(), center, rx, ry, margin);
        assert(s.drop_last()[i] == s[i]);
        let j = choose|j: int| 0 <= j < rest.len() && rest[j] == s[i];
        let out = spec_retained(s, center, rx, ry, margin);
        assert(out[j] == s[i]);
    }
}

/// A tick keeps the live set free of repeated coordinates.
proof fn lemma_retained_distinct(
    s: Seq<ActiveChunk>,
    center: ChunkCoord,
    rx: int,
    ry: int,
    margin: int,
)
    requires
        distinct_active(s),
    ensures
        distinct_active(spec_retained(s, center, rx, ry, margin)),
    decreases s.len(),
{
    if s.len() > 0 {
        lemma_retained_distinct(s.drop_last(), center, rx, ry, margin);
        lemma_retained_sub(s.drop_last(), center, rx, ry, margin);
        let rest = spec_retained(s.drop_last(), center, rx, ry, margin);
        if !beyond_margin(center, s.last().coord, rx, ry, margin) {
            let out = rest.push(s.last());
            assert forall|a: int, b: int| 0 <= a < b < out.len() implies out[a].coord
                != out[b].coord by {
                if b == out.len() - 1 {
                    assert(rest.contains(rest[a])) by {
                        assert(rest[a] == rest[a]);
                    }
                    assert(s.drop_last().contains(rest[a]));
                    let j = choose|j: int|
                        0 <= j < s.drop_last().len() && s.drop_last()[j] == rest[a];
                    assert(s[j] == rest[a]);
                    assert(s[j].coord != s[s.len() - 1].coord);
                }
            }
        }
    }
}

/// Radius containment: a tick leaves every in-radius coordinate either
/// live or planned to spawn, so once the caller has recorded one live
/// entry per planned spawn — keeping the planned coordinates — every
/// coordinate within the render radius is live.
pub proof fn lemma_radius_containment(
    ticked: Seq<ActiveChunk>,
    spawns: Seq<SpawnCmd>,
    after: Seq<ActiveChunk>,
    center: ChunkCoord,
    rx: int,
    ry: int,
)
    requires
        forall|c: ChunkCoord|
            in_radius(center, c, rx, ry) ==> active_has(ticked, c) || spawns_has(spawns, c),
        after.len() == ticked.len() + spawns.len(),
        forall|i: int| 0 <= i < ticked.len() ==> after[i] == ticked[i],
        forall|i: int|
            0 <= i < spawns.len() ==> (#[trigger] after[ticked.len() + i]).coord
                == spawns[i].coord,
    ensures
        forall|c: ChunkCoord| in_radius(center, c, rx, ry) ==> active_has(after, c),
{
    assert forall|c: ChunkCoord| in_radius(center, c, rx, ry) implies active_has(after, c) by {
        if active_has(ticked, c) {
            let i = choose|i: int| 0 <= i < ticked.len() && ticked[i].coord == c;
            assert(active_has(after, c)) by {
                assert(after[i].coord == c);
            }
        } else {
            let i = choose|i: int| 0 <= i < spawns.len() && spawns[i].coord == c;
            assert(active_has(after, c)) by {
                assert(after[ticked.len() + i].coord == c);
            }
        }
    }
}

/// The streaming director: the generation seed and chunk cache, the table
/// of live chunks with their spawn handles, and the hysteresis margin.
pub struct StreamingDirector {
    cache: ChunkCache,
    active: Vec<ActiveChunk>,
    margin: i32,
}

impl View for StreamingDirector {
    type V = Seq<ActiveChunk>;

    /// The live chunks, in the order they were recorded.
    closed spec fn view(&self) -> Seq<ActiveChunk> {
        self.active@
    }
}

impl StreamingDirector {
    /// The generation seed.
    pub closed spec fn seed(&self) -> u32 {
        self.cache.seed()
    }

    /// The cache capacity chosen at construction.
    pub closed spec fn capacity_spec(&self) -> usize {
        self.cache.capacity_spec()
    }

    /// The hysteresis margin in chunks.
    pub closed spec fn margin_spec(&self) -> int {
        self.margin as int
    }

    /// The cache's recency order (least recently used first).
    pub closed spec fn cache_order(&self) -> Seq<ChunkCoord> {
        self.cache@
    }

    /// Well-formedness: the cache is well-formed, the margin is
    /// non-negative, and no coordinate is live twice.
    pub closed spec fn wf(&self) -> bool {
        &&& self.cache.wf()
        &&& self.margin >= 0
        &&& distinct_active(self.active@)
    }

    /// No duplicate spawns: a well-formed director never holds the same
    /// coordinate twice in its live table.
    pub proof fn lemma_active_no_duplicates(&self)
        requires
            self.wf(),
        ensures
            distinct_active(self@),
    {
    }

    /// A director with no live chunks, an empty cache of the given
    /// capacity filled under `seed`, and the given despawn margin.
    pub fn new(seed: u32, capacity: usize, margin: i32) -> (d: StreamingDirector)
        requires
            capacity >= 1,
            margin >= 0,
        ensures
            d.wf(),
            d@ == Seq::<ActiveChunk>::empty(),
            d.seed() == seed,
            d.capacity_spec() == capacity,
            d.margin_spec() == margin as int,
            d.cache_order() == Seq::<ChunkCoord>::empty(),
    {
        StreamingDirector { cache: ChunkCache::new(seed, capacity), active: Vec::new(), margin }
    }

    /// Index of the live entry for `c`, if there is one.
    fn active_index(&self, c: ChunkCoord) -> (r: Option<usize>)
        ensures
            match r {
                Some(i) => i < self@.len() && self@[i as int].coord == c,
                None => !active_has(self@, c),
            },
    {
        let n = self.active.len();
        for i in 0..n
            invariant
                n == self.active@.len(),
                forall|j: int| 0 <= j < i ==> self.active@[j].coord != c,
            decreases n - i,
        {
            if self.active[i].coord == c {
                return Some(i);
            }
        }
        None
    }

    /// Whether `c` is live.
    pub fn is_active(&self, c: ChunkCoord) -> (r: bool)
        ensures
            r == active_has(self@, c),
    {
        match self.active_index(c) {
            Some(i) => {
                proof {
                    assert(self@[i as int].coord == c);
                }
                true
            },
            None => false,
        }
    }

    /// How many chunks are live.
    pub fn active_count(&self) -> (n: usize)
        ensures
            n == self@.len(),
    {
        self.active.len()
    }

    /// How many buffers the cache holds; for diagnostics.
    pub fn cached_count(&self) -> (n: usize)
        ensures
            n == self.cache_order().len(),
    {
        self.cache.len()
    }

    /// The cache capacity chosen at construction.
    pub fn cache_capacity(&self) -> (n: usize)
        ensures
            n == self.capacity_spec(),
    {
        self.cache.capacity()
    }

    /// Whether the cache holds a buffer for `c`; for diagnostics, without
    /// a recency refresh.
    pub fn cache_contains(&self, c: ChunkCoord) -> (r: bool)
        ensures
            r == self.cache_order().contains(c),
    {
        self.cache.contains(c)
    }

    /// The generation seed.
    pub fn generation_seed(&self) -> (s: u32)
        ensures
            s == self.seed(),
    {
        self.cache.generation_seed()
    }

    /// The hysteresis margin.
    pub fn margin(&self) -> (m: i32)
        ensures
            m as int == self.margin_spec(),
    {
        self.margin
    }

    /// Record the handle the rendering collaborator returned for a spawn.
    /// Refused — with no change to the live table — if the coordinate is
    /// already live, so a coordinate can never be live twice.
    pub fn record_spawn(&mut self, coord: ChunkCoord, handle: u64) -> (accepted: bool)
        requires
            old(self).wf(),
        ensures
            final(self).wf(),
            accepted == !active_has(old(self)@, coord),
            accepted ==> final(self)@ == old(self)@.push(ActiveChunk { coord, handle }),
            !accepted ==> final(self)@ == old(self)@,
            final(self).seed() == old(self).seed(),
            final(self).capacity_spec() == old(self).capacity_spec(),
            final(self).margin_spec() == old(self).margin_spec(),
            final(self).cache_order() == old(self).cache_order(),
    {
        match self.active_index(coord) {
            Some(i) => {
                proof {
                    assert(active_has(self@, coord)) by {
                        assert(self@[i as int].coord == coord);
                    }
                }
                false
            },
            None => {
                let ghost old_active = self.active@;
                self.active.push(ActiveChunk { coord, handle });
                proof {
                    assert forall|a: int, b: int| 0 <= a < b < self.active@.len() implies self
                        .active@[a].coord != self.active@[b].coord by {
                        if b == self.active@.len() - 1 {
                            assert(self.active@[a] == old_active[a]);
                            if old_active[a].coord == coord {
                                assert(active_has(old_active, coord)) by {
                                    assert(old_active[a].coord == coord);
                                }
                            }
                        }
                    }
                }
                true
            },
        }
    }

    /// Despawn phase of a tick: remove every live entry whose offset from
    /// `center` exceeds the radius plus the margin on some axis, and
    /// return those entries so their handles can be released.
    fn apply_despawns(&mut self, center: ChunkCoord, rx: i32, ry: i32) -> (despawns: Vec<
        ActiveChunk,
    >)
        requires
            old(self).wf(),
            rx >= 0,
            ry >= 0,
        ensures
            final(self).wf(),
            final(self)@ == spec_retained(
                old(self)@,
                center,
                rx as int,
                ry as int,
                old(self).margin_spec(),
            ),
            despawns@ == spec_despawned(
                old(self)@,
                center,
                rx as int,
                ry as int,
                old(self).margin_spec(),
            ),
            final(self).seed() == old(self).seed(),
            final(self).capacity_spec() == old(self).capacity_spec(),
            final(self).margin_spec() == old(self).margin_spec(),
            final(self).cache_order() == old(self).cache_order(),
    {
        let ghost acts = self.active@;
        let ghost rxi = rx as int;
        let ghost ryi = ry as int;
        let ghost mi = self.margin as int;
        let mut kept: Vec<ActiveChunk> = Vec::new();
        let mut despawns: Vec<ActiveChunk> = Vec::new();
        let n = self.active.len();
        let lim_x: i64 = rx as i64 + self.margin as i64;
        let lim_y: i64 = ry as i64 + self.margin as i64;
        for idx in 0..n
            invariant
                n == self.active@.len(),
                self.active@ == acts,
                self.margin as int == mi,
                lim_x == rxi + mi,
                lim_y == ryi + mi,
                kept@ == spec_retained(acts.take(idx as int), center, rxi, ryi, mi),
                despawns@ == spec_despawned(acts.take(idx as int), center, rxi, ryi, mi),
            decreases n - idx,
        {
            let a = self.active[idx];
            let dx: i64 = (a.coord.x as i64) - (center.x as i64);
            let dy: i64 = (a.coord.y as i64) - (center.y as i64);
            let beyond = dx > lim_x || -dx > lim_x || dy > lim_y || -dy > lim_y;
            proof {
                assert(beyond == beyond_margin(center, a.coord, rxi, ryi, mi));
                assert(acts.take(idx + 1).drop_last() =~= acts.take(idx as int));
                assert(acts.take(idx + 1).last() == a);
            }
            if beyond {
                despawns.push(a);
            } else {
                kept.push(a);
            }
        }
        proof {
            assert(acts.take(n as int) =~= acts);
        }
        self.active = kept;
        proof {
            lemma_retained_distinct(acts, center, rxi, ryi, mi);
        }
        despawns
    }

    /// Spawn phase of a tick: walk the box of half-extents `rx`, `ry`
    /// around `center` and build a spawn intent, with its tile buffer
    /// fetched from the cache, for every coordinate there that is not
    /// already live. The live table itself is not changed: entries are
    /// recorded once the rendering collaborator has returned handles.
    fn collect_spawns(&mut self, center: ChunkCoord, rx: i32, ry: i32) -> (spawns: Vec<SpawnCmd>)
        requires
            old(self).wf(),
            1 <= rx <= 0x100_0001,
            1 <= ry <= 0x100_0001,
            -16777216 <= center.x <= 16777215,
            -13421773 <= center.y <= 13421772,
        ensures
            final(self).wf(),
            final(self)@ == old(self)@,
            final(self).seed() == old(self).seed(),
            final(self).capacity_spec() == old(self).capacity_spec(),
            final(self).margin_spec() == old(self).margin_spec(),
            distinct_spawn_coords(spawns@),
            forall|i: int|
                0 <= i < spawns@.len() ==> {
                    &&& in_radius(center, #[trigger] spawns@[i].coord, rx as int, ry as int)
                    &&& !active_has(old(self)@, spawns@[i].coord)
                    &&& spawns@[i].data@ == spec_generate(old(self).seed(), spawns@[i].coord)
                },
            forall|c: ChunkCoord|
                in_radius(center, c, rx as int, ry as int) && !active_has(old(self)@, c)
                    ==> spawns_has(spawns@, c),
    {
        let ghost acts = self.active@;
        let ghost sd = self.seed();
        let ghost rxi = rx as int;
        let ghost ryi = ry as int;
        let mut spawns: Vec<SpawnCmd> = Vec::new();
        let w: i32 = 2 * rx + 1;
        let h: i32 = 2 * ry + 1;
        let x0: i32 = center.x - rx;
        let y0: i32 = center.y - ry;
        for ox in 0..w
            invariant
                w == 2 * rxi + 1,
                h == 2 * ryi + 1,
                x0 as int == center.x - rxi,
                y0 as int == center.y - ryi,
                1 <= rxi <= 0x100_0001,
                1 <= ryi <= 0x100_0001,
                -16777216 <= center.x <= 16777215,
                -13421773 <= center.y <= 13421772,
                self.wf(),
                self.active@ == acts,
                self.seed() == sd,
                self.capacity_spec() == old(self).capacity_spec(),
                self.margin_spec() == old(self).margin_spec(),
                distinct_spawn_coords(spawns@),
                forall|i: int|
                    0 <= i < spawns@.len() ==> {
                        &&& in_radius(center, #[trigger] spawns@[i].coord, rxi, ryi)
                        &&& !active_has(acts, spawns@[i].coord)
                        &&& spawns@[i].data@ == spec_generate(sd, spawns@[i].coord)
                    },
                forall|i: int|
                    0 <= i < spawns@.len() ==> (#[trigger] spawns@[i].coord.x as int) < x0 + ox,
                forall|c: ChunkCoord|
                    in_radius(center, c, rxi, ryi) && (c.x as int) < x0 + ox && !active_has(
                        acts,
                        c,
                    ) ==> spawns_has(spawns@, c),
            decreases w - ox,
        {
            let cx: i32 = x0 + ox;
            for oy in 0..h
                invariant
                    w == 2 * rxi + 1,
                    h == 2 * ryi + 1,
                    x0 as int == center.x - rxi,
                    y0 as int == center.y - ryi,
                    0 <= ox < w,
                    cx as int == x0 + ox,
                    1 <= rxi <= 0x100_0001,
                    1 <= ryi <= 0x100_0001,
                    -16777216 <= center.x <= 16777215,
                    -13421773 <= center.y <= 13421772,
                    self.wf(),
                    self.active@ == acts,
                    self.seed() == sd,
                    self.capacity_spec() == old(self).capacity_spec(),
                    self.margin_spec() == old(self).margin_spec(),
                    distinct_spawn_coords(spawns@),
                    forall|i: int|
                        0 <= i < spawns@.len() ==> {
                            &&& in_radius(center, #[trigger] spawns@[i].coord, rxi, ryi)
                            &&& !active_has(acts, spawns@[i].coord)
                            &&& spawns@[i].data@ == spec_generate(sd, spawns@[i].coord)
                        },
                    forall|i: int|
                        0 <= i < spawns@.len() ==> ((#[trigger] spawns@[i].coord.x as int) < cx
                            as int || (spawns@[i].coord.x == cx && (spawns@[i].coord.y as int) < y0
                            + oy)),
                    forall|c: ChunkCoord|
                        in_radius(center, c, rxi, ryi) && ((c.x as int) < cx as int || (c.x == cx
                            && (c.y as int) < y0 + oy)) && !active_has(acts, c) ==> spawns_has(
                            spawns@,
                            c,
                        ),
                decreases h - oy,
            {
                let cy: i32 = y0 + oy;
                let c = ChunkCoord { x: cx, y: cy };
                let ghost spawns_before = spawns@;
                match self.active_index(c) {
                    Some(i) => {
                        proof {
                            assert(active_has(acts, c)) by {
                                assert(self@[i as int].coord == c);
                            }
                        }
                    },
                    None => {
                        let data = self.cache.get_or_generate(c);
                        spawns.push(SpawnCmd { coord: c, data });
                        proof {
                            assert(spawns@.last().coord == c);
                            assert(in_radius(center, c, rxi, ryi));
                            assert(forall|i: int|
                                0 <= i < spawns_before.len() ==> spawns@[i]
                                    == spawns_before[i]);
                        }
                    },
                }
                proof {
                    assert forall|d: ChunkCoord|
                        in_radius(center, d, rxi, ryi) && ((d.x as int) < cx as int || (d.x == cx
                            && (d.y as int) < y0 + oy + 1)) && !active_has(acts, d)
                        implies spawns_has(spawns@, d) by {
                        if (d.x as int) < cx as int || (d.x == cx && (d.y as int) < y0 + oy) {
                            assert(spawns_has(spawns_before, d));
                            let i = choose|i: int|
                                0 <= i < spawns_before.len() && spawns_before[i].coord == d;
                            assert(spawns@[i].coord == d);
                        } else {
                            assert(d == c);
                            assert(spawns@[spawns@.len() - 1].coord == d);
                        }
                    }
                }
            }
            proof {
                assert forall|c: ChunkCoord|
                    in_radius(center, c, rxi, ryi) && (c.x as int) < x0 + ox + 1 && !active_has(
                        acts,
                        c,
                    ) implies spawns_has(spawns@, c) by {
                    assert((c.y as int) <= center.y + ryi);
                    assert((c.y as int) < y0 + (2 * ryi + 1));
                }
            }
        }
        proof {
            assert forall|c: ChunkCoord|
                in_radius(center, c, rxi, ryi) && !active_has(acts, c) implies spawns_has(
                spawns@,
                c,
            ) by {
                assert((c.x as int) <= center.x + rxi);
                assert((c.x as int) < x0 + (2 * rxi + 1));
            }
        }
        spawns
    }

    /// One streaming pass. With no viewer this tick there is nothing to
    /// reconcile and the director is left unchanged. Otherwise the
    /// viewer's frame is derived (with the fallback radius when no
    /// viewport is available), every live chunk beyond the radius plus
    /// the hysteresis margin is removed and listed for despawning, and a
    /// spawn intent with its tile buffer is planned for every in-radius
    /// coordinate that is not live. The caller performs the spawns and
    /// records each returned handle with `record_spawn`.
    pub fn tick(&mut self, viewer: Option<(i32, i32)>, viewport: Option<Viewport>) -> (plan:
        TickPlan)
        requires
            old(self).wf(),
        ensures
            final(self).wf(),
            final(self).seed() == old(self).seed(),
            final(self).capacity_spec() == old(self).capacity_spec(),
            final(self).margin_spec() == old(self).margin_spec(),
            match viewer {
                None => {
                    &&& *final(self) == *old(self)
                    &&& plan.spawns@.len() == 0
                    &&& plan.despawns@.len() == 0
                },
                Some(v) => {
                    let center = spec_chunk_of_world(v.0 as int, v.1 as int);
                    let rx = spec_radius_x(viewport);
                    let ry = spec_radius_y(viewport);
                    let mg = old(self).margin_spec();
                    &&& final(self)@ == spec_retained(old(self)@, center, rx, ry, mg)
                    &&& plan.despawns@ == spec_despawned(old(self)@, center, rx, ry, mg)
                    &&& distinct_spawn_coords(plan.spawns@)
                    &&& forall|i: int|
                        0 <= i < plan.spawns@.len() ==> {
                            &&& in_radius(center, #[trigger] plan.spawns@[i].coord, rx, ry)
                            &&& !active_has(old(self)@, plan.spawns@[i].coord)
                            &&& plan.spawns@[i].data@ == spec_generate(
                                old(self).seed(),
                                plan.spawns@[i].coord,
                            )
                        }
                    &&& forall|c: ChunkCoord|
                        in_radius(center, c, rx, ry) ==> active_has(final(self)@, c) || spawns_has(
                            plan.spawns@,
                            c,
                        )
                    &&& forall|c: ChunkCoord|
                        in_radius(center, c, rx, ry) && !active_has(old(self)@, c) ==> spawns_has(
                            plan.spawns@,
                            c,
                        )
                },
            },
    {
        let v = match viewer {
            None => {
                return TickPlan { spawns: Vec::new(), despawns: Vec::new() };
            },
            Some(v) => v,
        };
        let ghost orig = self@;
        let ghost mg = self.margin_spec();
        let frame = compute_frame(v.0, v.1, viewport);
        let ghost center = frame.chunk;
        let ghost rxi = frame.radius_x as int;
        let ghost ryi = frame.radius_y as int;
        let despawns = self.apply_despawns(frame.chunk, frame.radius_x, frame.radius_y);
        let ghost mid = self@;
        let spawns = self.collect_spawns(frame.chunk, frame.radius_x, frame.radius_y);
        proof {
            lemma_retained_sub(orig, center, rxi, ryi, mg);
            assert forall|i: int| 0 <= i < spawns@.len() implies !active_has(
                orig,
                #[trigger] spawns@[i].coord,
            ) by {
                let c = spawns@[i].coord;
                if active_has(orig, c) {
                    let j = choose|j: int| 0 <= j < orig.len() && orig[j].coord == c;
                    lemma_in_radius_not_beyond(center, c, rxi, ryi, mg);
                    lemma_hysteresis(orig, center, rxi, ryi, mg, j);
                    let l = choose|l: int| 0 <= l < mid.len() && mid[l] == orig[j];
                    assert(active_has(mid, c)) by {
                        assert(mid[l].coord == c);
                    }
                }
            }
            assert forall|c: ChunkCoord| in_radius(center, c, rxi, ryi) implies active_has(
                self@,
                c,
            ) || spawns_has(spawns@, c) by {
                if active_has(orig, c) {
                    let j = choose|j: int| 0 <= j < orig.len() && orig[j].coord == c;
                    lemma_in_radius_not_beyond(center, c, rxi, ryi, mg);
                    lemma_hysteresis(orig, center, rxi, ryi, mg, j);
                    let l = choose|l: int| 0 <= l < mid.len() && mid[l] == orig[j];
                    assert(active_has(mid, c)) by {
                        assert(mid[l].coord == c);
                    }
                } else {
                    if !active_has(mid, c) {
                        assert(spawns_has(spawns@, c));
                    } else {
                        let l = choose|l: int| 0 <= l < mid.len() && mid[l].coord == c;
                        assert(mid.contains(mid[l])) by {
                            assert(mid[l] == mid[l]);
                        }
                        assert(orig.contains(mid[l]));
                        let j = choose|j: int| 0 <= j < orig.len() && orig[j] == mid[l];
                        assert(active_has(orig, c)) by {
                            assert(orig[j].coord == c);
                        }
                    }
                }
            }
            assert forall|c: ChunkCoord|
                in_radius(center, c, rxi, ryi) && !active_has(orig, c) implies spawns_has(
                spawns@,
                c,
            ) by {
                if active_has(mid, c) {
                    let l = choose|l: int| 0 <= l < mid.len() && mid[l].coord == c;
                    assert(mid.contains(mid[l])) by {
                        assert(mid[l] == mid[l]);
                    }
                    assert(orig.contains(mid[l]));
                    let j = choose|j: int| 0 <= j < orig.len() && orig[j] == mid[l];
                    assert(active_has(orig, c)) by {
                        assert(orig[j].coord == c);
                    }
                }
            }
        }
        TickPlan { spawns, despawns }
    }
}

} // verus!
