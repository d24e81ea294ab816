//! The world manager: which chunks are resident, which are waiting to be
//! built, and how both follow a moving viewpoint.
//!
//! A grid coordinate is at any time in exactly one of three states: unwanted,
//! queued for generation, or resident. Each `update` tick may rebuild the queue
//! (when the viewpoint enters another chunk), evicts far chunks, and then
//! builds at most `build_budget` queued chunks, closest first.
use vstd::prelude::*;
use vstd::seq_lib::seq_to_set_is_finite;
use vstd::set_lib::lemma_len_subset;
use crate::biome::{NoiseSource, NOISE_SCALE};
use crate::chunk::{synthesized_for, Chunk, GridCoordinate};
use crate::mesh::{BlockPlacement, MeshError, MAX_CUBES, TEXTURE_COUNT};
use crate::terrain::{TerrainConfig, CHUNK_SIZE, MAX_REFERENCE_HEIGHT, MAX_TREE_HEIGHT};

verus! {

pub const MAX_CHUNK_RADIUS: i32 = 32;

pub const MAX_UNLOAD_MARGIN: i32 = 32;

pub const MAX_BUILD_BUDGET: usize = 4096;

pub const MAX_QUEUE_CAPACITY: usize = 1_000_000;

/// No viewpoint chunk coordinate is further than this from the origin.
pub const MAX_CHUNK_COORD: i32 = 134_217_728;

/// Streaming parameters of a world.
#[derive(Clone, Copy, Debug, PartialEq, Eq, Structural)]
pub struct WorldConfig {
    /// Chunks within this Chebyshev distance of the viewpoint's chunk are wanted.
    pub chunk_radius: i32,
    /// Resident chunks are evicted beyond `chunk_radius + unload_margin`.
    pub unload_margin: i32,
    /// Most chunks built in one tick.
    pub build_budget: usize,
    /// The queue is cut to this length, dropping its farthest entries.
    pub max_queue_len: usize,
    pub terrain: TerrainConfig,
}

/// Why a configuration was refused.
#[derive(Clone, Copy, Debug, PartialEq, Eq, Structural)]
pub enum ConfigError {
    ChunkRadius,
    UnloadMargin,
    BuildBudget,
    QueueLength,
    ReferenceHeight,
    TreeDensity,
    TreeHeight,
}

/// Why an edit was not applied.
#[derive(Clone, Copy, Debug, PartialEq, Eq, Structural)]
pub enum EditError {
    /// No resident chunk holds the position.
    NoChunk,
    /// The mesh builder refused the cube.
    Mesh(MeshError),
}

pub open spec fn wanted_count(r: int) -> int {
    (2 * r + 1) * (2 * r + 1)
}

/// The first check that a configuration fails, if any.
pub open spec fn config_check(
    chunk_radius: int,
    unload_margin: int,
    build_budget: int,
    max_queue_len: int,
    terrain: TerrainConfig,
) -> Option<ConfigError> {
    if !(0 <= chunk_radius <= MAX_CHUNK_RADIUS) {
        Some(ConfigError::ChunkRadius)
    } else if !(0 <= unload_margin <= MAX_UNLOAD_MARGIN) {
        Some(ConfigError::UnloadMargin)
    } else if !(1 <= build_budget <= MAX_BUILD_BUDGET) {
        Some(ConfigError::BuildBudget)
    } else if !(wanted_count(chunk_radius) <= max_queue_len <= MAX_QUEUE_CAPACITY) {
        Some(ConfigError::QueueLength)
    } else if !(0 <= terrain.reference_height <= MAX_REFERENCE_HEIGHT) {
        Some(ConfigError::ReferenceHeight)
    } else if !(0 <= terrain.tree_density <= NOISE_SCALE) {
        Some(ConfigError::TreeDensity)
    } else if !(0 <= terrain.tree_height <= MAX_TREE_HEIGHT) {
        Some(ConfigError::TreeHeight)
    } else {
        None
    }
}

impl WorldConfig {
    pub open spec fn wf(&self) -> bool {
        config_check(
            self.chunk_radius as int,
            self.unload_margin as int,
            self.build_budget as int,
            self.max_queue_len as int,
            self.terrain,
        ) is None
    }

    /// Validates a configuration. The queue must be able to hold every wanted
    /// chunk: `(2 * chunk_radius + 1)^2 <= max_queue_len`.
    pub fn new(
        chunk_radius: i32,
        unload_margin: i32,
        build_budget: usize,
        max_queue_len: usize,
        terrain: TerrainConfig,
    ) -> (r: Result<WorldConfig, ConfigError>)
        ensures
            match config_check(
                chunk_radius as int,
                unload_margin as int,
                build_budget as int,
                max_queue_len as int,
                terrain,
            ) {
                Some(e) => r == Err::<WorldConfig, ConfigError>(e),
                None => r == Ok::<WorldConfig, ConfigError>(
                    WorldConfig { chunk_radius, unload_margin, build_budget, max_queue_len, terrain },
                ),
            },
            r matches Ok(c) ==> c.wf(),
    {
        if chunk_radius < 0 || chunk_radius > MAX_CHUNK_RADIUS {
            return Err(ConfigError::ChunkRadius);
        }
        if unload_margin < 0 || unload_margin > MAX_UNLOAD_MARGIN {
            return Err(ConfigError::UnloadMargin);
        }
        if build_budget < 1 || build_budget > MAX_BUILD_BUDGET {
            return Err(ConfigError::BuildBudget);
        }
        let side = (2 * chunk_radius + 1) as usize;
        assert(side * side <= 65 * 65) by (nonlinear_arith)
            requires side <= 65;
        assert(side * side == wanted_count(chunk_radius as int));
        if max_queue_len < side * side || max_queue_len > MAX_QUEUE_CAPACITY {
            return Err(ConfigError::QueueLength);
        }
        if terrain.reference_height < 0 || terrain.reference_height > MAX_REFERENCE_HEIGHT {
            return Err(ConfigError::ReferenceHeight);
        }
        if terrain.tree_density < 0 || terrain.tree_density > NOISE_SCALE {
            return Err(ConfigError::TreeDensity);
        }
        if terrain.tree_height < 0 || terrain.tree_height > MAX_TREE_HEIGHT {
            return Err(ConfigError::TreeHeight);
        }
        Ok(WorldConfig { chunk_radius, unload_margin, build_budget, max_queue_len, terrain })
    }
}

pub open spec fn abs_int(a: int) -> int {
    if a < 0 {
        -a
    } else {
        a
    }
}

/// `max(|dx|, |dz|)`: the square distance that decides what is loaded and unloaded.
pub open spec fn chebyshev(a: GridCoordinate, b: GridCoordinate) -> int {
    let dx = abs_int(a.x - b.x);
    let dz = abs_int(a.z - b.z);
    if dx > dz {
        dx
    } else {
        dz
    }
}

/// `|dx| + |dz|`: the distance that orders the queue.
pub open spec fn manhattan(a: GridCoordinate, b: GridCoordinate) -> int {
    abs_int(a.x - b.x) + abs_int(a.z - b.z)
}

/// `p` is in the layer of chunks and within `r` of `cam`.
pub open spec fn wanted(p: GridCoordinate, cam: GridCoordinate, r: int) -> bool {
    p.y == 0 && chebyshev(p, cam) <= r
}

pub open spec fn holds(chunks: Seq<Chunk>, p: GridCoordinate) -> bool {
    exists|i: int| 0 <= i < chunks.len() && (#[trigger] chunks[i]).position == p
}

pub open spec fn distinct_positions(chunks: Seq<Chunk>) -> bool {
    forall|i: int, j: int|
        0 <= i < chunks.len() && 0 <= j < chunks.len() && i != j ==> (#[trigger] chunks[i]).position
            != (#[trigger] chunks[j]).position
}

/// The chunk that holds world column `(vx, vz)`: floor division by `CHUNK_SIZE`.
pub open spec fn viewpoint_chunk(vx: int, vz: int) -> GridCoordinate {
    GridCoordinate { x: (vx / 16) as i32, y: 0, z: (vz / 16) as i32 }
}

pub open spec fn min_int(a: int, b: int) -> int {
    if a < b {
        a
    } else {
        b
    }
}

/// Chunks within Chebyshev distance `lim` of `cam`.
pub open spec fn near(cam: GridCoordinate, lim: int) -> spec_fn(Chunk) -> bool {
    |c: Chunk| chebyshev(c.position, cam) <= lim
}

/// Floor of `v / CHUNK_SIZE`.
pub fn chunk_coordinate(v: i32) -> (r: i32)
    ensures
        r as int == v as int / 16,
        -MAX_CHUNK_COORD <= r <= MAX_CHUNK_COORD,
{
    if v >= 0 {
        v / CHUNK_SIZE
    } else {
        let m = -(v as i64);
        let q = (m + 15) / 16;
        (-q) as i32
    }
}

/// The chunk that holds world column `(vx, vz)`.
pub fn chunk_position_of(vx: i32, vz: i32) -> (r: GridCoordinate)
    ensures
        r == viewpoint_chunk(vx as int, vz as int),
        -MAX_CHUNK_COORD <= r.x <= MAX_CHUNK_COORD,
        -MAX_CHUNK_COORD <= r.z <= MAX_CHUNK_COORD,
{
    GridCoordinate { x: chunk_coordinate(vx), y: 0, z: chunk_coordinate(vz) }
}

fn abs_diff(a: i32, b: i32) -> (r: i64)
    ensures
        r as int == abs_int(a - b),
{
    let d = a as i64 - b as i64;
    if d < 0 {
        -d
    } else {
        d
    }
}

/// `|dx| + |dz|` between two grid coordinates.
pub fn manhattan_distance(a: GridCoordinate, b: GridCoordinate) -> (r: i64)
    ensures
        r as int == manhattan(a, b),
{
    abs_diff(a.x, b.x) + abs_diff(a.z, b.z)
}

/// `max(|dx|, |dz|)` between two grid coordinates.
pub fn chebyshev_distance(a: GridCoordinate, b: GridCoordinate) -> (r: i64)
    ensures
        r as int == chebyshev(a, b),
{
    let dx = abs_diff(a.x, b.x);
    let dz = abs_diff(a.z, b.z);
    if dx > dz {
        dx
    } else {
        dz
    }
}

/// Orders `cand` closest-first by Manhattan distance to `cam`, keeping the
/// order of `cand` among equal distances.
fn order_by_distance(cand: &Vec<GridCoordinate>, cam: GridCoordinate, max_d: i64) -> (q: Vec<GridCoordinate>)
    requires
        cand@.no_duplicates(),
        0 <= max_d <= 2 * MAX_CHUNK_RADIUS,
        forall|i: int| 0 <= i < cand@.len() ==> manhattan(#[trigger] cand@[i], cam) <= max_d,
    ensures
        q@.no_duplicates(),
        forall|p: GridCoordinate| q@.contains(p) <==> cand@.contains(p),
        forall|i: int, j: int| 0 <= i < j < q@.len() ==> manhattan(q@[i], cam) <= manhattan(q@[j], cam),
        q@.len() <= cand@.len(),
{
    let mut q: Vec<GridCoordinate> = Vec::new();
    let ghost mut idx: Seq<int> = Seq::empty();
    let mut d: i64 = 0;
    while d <= max_d
        invariant
            0 <= d <= max_d + 1,
            max_d <= 2 * MAX_CHUNK_RADIUS,
            cand@.no_duplicates(),
            forall|i: int| 0 <= i < cand@.len() ==> manhattan(#[trigger] cand@[i], cam) <= max_d,
            idx.len() == q@.len(),
            forall|i: int| 0 <= i < q@.len() ==> 0 <= #[trigger] idx[i] < cand@.len() && q@[i] == cand@[idx[i]],
            forall|i: int, j: int|
                0 <= i < j < q@.len() ==> manhattan(#[trigger] q@[i], cam) < manhattan(#[trigger] q@[j], cam) || (
                manhattan(q@[i], cam) == manhattan(q@[j], cam) && idx[i] < idx[j]),
            forall|i: int| 0 <= i < q@.len() ==> manhattan(#[trigger] q@[i], cam) < d,
            forall|k: int| 0 <= k < cand@.len() && manhattan(#[trigger] cand@[k], cam) < d ==> q@.contains(cand@[k]),
        decreases max_d + 1 - d,
    {
        let mut k: usize = 0;
        while k < cand.len()
            invariant
                0 <= d <= max_d,
                max_d <= 2 * MAX_CHUNK_RADIUS,
                k <= cand@.len(),
                cand@.no_duplicates(),
                forall|i: int| 0 <= i < cand@.len() ==> manhattan(#[trigger] cand@[i], cam) <= max_d,
                idx.len() == q@.len(),
                forall|i: int| 0 <= i < q@.len() ==> 0 <= #[trigger] idx[i] < cand@.len() && q@[i] == cand@[idx[i]],
                forall|i: int, j: int|
                    0 <= i < j < q@.len() ==> manhattan(#[trigger] q@[i], cam) < manhattan(#[trigger] q@[j], cam) || (
                    manhattan(q@[i], cam) == manhattan(q@[j], cam) && idx[i] < idx[j]),
                forall|i: int|
                    0 <= i < q@.len() ==> manhattan(#[trigger] q@[i], cam) < d || (manhattan(q@[i], cam) == d
                        && idx[i] < k),
                forall|m: int|
                    0 <= m < cand@.len() && (manhattan(#[trigger] cand@[m], cam) < d || (manhattan(cand@[m], cam)
                        == d && m < k)) ==> q@.contains(cand@[m]),
            decreases cand@.len() - k,
        {
            let c = cand[k];
            if manhattan_distance(c, cam) == d {
                let ghost old_q = q@;
                q.push(c);
                proof {
                    idx = idx.push(k as int);
                    assert(q@[q@.len() - 1] == c);
                    assert forall|m: int|
                        0 <= m < cand@.len() && (manhattan(#[trigger] cand@[m], cam) < d || (manhattan(
                            cand@[m],
                            cam,
                        ) == d && m < k + 1)) implies q@.contains(cand@[m]) by {
                        if m == k {
                            assert(q@[q@.len() - 1] == cand@[m]);
                        } else {
                            assert(old_q.contains(cand@[m]));
                            let w = choose|w: int| 0 <= w < old_q.len() && old_q[w] == cand@[m];
                            assert(q@[w] == cand@[m]);
                        }
                    }
                }
            }
            k = k + 1;
        }
        d = d + 1;
    }
    proof {
        assert forall|i: int, j: int|
            0 <= i < q@.len() && 0 <= j < q@.len() && i != j implies q@[i] != q@[j] by {
            if i < j {
                assert(idx[i] != idx[j] || manhattan(q@[i], cam) != manhattan(q@[j], cam));
            } else {
                assert(idx[j] != idx[i] || manhattan(q@[i], cam) != manhattan(q@[j], cam));
            }
        }
        assert forall|p: GridCoordinate| q@.contains(p) implies cand@.contains(p) by {
            let w = choose|w: int| 0 <= w < q@.len() && q@[w] == p;
            assert(cand@[idx[w]] == p);
        }
        assert forall|p: GridCoordinate| cand@.contains(p) implies q@.contains(p) by {
            let w = choose|w: int| 0 <= w < cand@.len() && cand@[w] == p;
            assert(manhattan(cand@[w], cam) < d);
        }
        assert(q@.to_set().subset_of(cand@.to_set()));
        seq_to_set_is_finite(cand@);
        lemma_len_subset(q@.to_set(), cand@.to_set());
        q@.unique_seq_to_set();
        cand@.unique_seq_to_set();
    }
    q
}

/// The world: resident chunks, the generation queue, and the viewpoint chunk
/// seen at the last tick.
pub struct World {
    chunks: Vec<Chunk>,
    queue: Vec<GridCoordinate>,
    last_viewpoint_chunk: Option<GridCoordinate>,
    config: WorldConfig,
}

impl World {
    pub closed spec fn resident_chunks(&self) -> Seq<Chunk> {
        self.chunks@
    }

    pub closed spec fn pending(&self) -> Seq<GridCoordinate> {
        self.queue@
    }

    pub closed spec fn last(&self) -> Option<GridCoordinate> {
        self.last_viewpoint_chunk
    }

    pub closed spec fn cfg(&self) -> WorldConfig {
        self.config
    }

    /// Resident positions are distinct, queued positions are distinct, and no
    /// position is both; once a viewpoint has been seen, every resident chunk is
    /// within the unload distance of it, the queue holds wanted chunks only,
    /// closest first, and every wanted chunk is resident or queued.
    pub open spec fn wf(&self) -> bool {
        let chunks = self.resident_chunks();
        let q = self.pending();
        let cfg = self.cfg();
        let r = cfg.chunk_radius as int;
        &&& cfg.wf()
        &&& distinct_positions(chunks)
        &&& q.no_duplicates()
        &&& forall|i: int, j: int|
            0 <= i < chunks.len() && 0 <= j < q.len() ==> (#[trigger] chunks[i]).position != #[trigger] q[j]
        &&& forall|i: int| 0 <= i < chunks.len() ==> (#[trigger] chunks[i]).wf()
        &&& match self.last() {
            None => chunks.len() == 0 && q.len() == 0,
            Some(cam) => {
                &&& cam.y == 0
                &&& -MAX_CHUNK_COORD <= cam.x <= MAX_CHUNK_COORD
                &&& -MAX_CHUNK_COORD <= cam.z <= MAX_CHUNK_COORD
                &&& forall|i: int|
                    0 <= i < chunks.len() ==> (#[trigger] chunks[i]).position.y == 0 && chebyshev(
                        chunks[i].position,
                        cam,
                    ) <= r + cfg.unload_margin
                &&& forall|j: int| 0 <= j < q.len() ==> wanted(#[trigger] q[j], cam, r)
                &&& forall|i: int, j: int|
                    0 <= i < j < q.len() ==> manhattan(#[trigger] q[i], cam) <= manhattan(#[trigger] q[j], cam)
                &&& forall|p: GridCoordinate| #[trigger] wanted(p, cam, r) ==> holds(chunks, p) || q.contains(p)
                &&& q.len() <= wanted_count(r)
            },
        }
    }

    /// An empty world: nothing resident, nothing queued, no viewpoint seen.
    pub fn new(config: WorldConfig) -> (r: World)
        requires
            config.wf(),
        ensures
            r.wf(),
            r.cfg() == config,
            r.resident_chunks().len() == 0,
            r.pending().len() == 0,
            r.last() is None,
    {
        World { chunks: Vec::new(), queue: Vec::new(), last_viewpoint_chunk: None, config }
    }

    /// The resident chunks, in no particular order.
    pub fn chunks(&self) -> (r: &Vec<Chunk>)
        ensures
            r@ == self.resident_chunks(),
    {
        &self.chunks
    }

    /// Number of resident chunks.
    pub fn resident_count(&self) -> (r: usize)
        ensures
            r == self.resident_chunks().len(),
    {
        self.chunks.len()
    }

    /// The coordinates waiting to be built, closest first.
    pub fn queued(&self) -> (r: &Vec<GridCoordinate>)
        ensures
            r@ == self.pending(),
    {
        &self.queue
    }

    pub fn config(&self) -> (r: WorldConfig)
        ensures
            r == self.cfg(),
    {
        self.config
    }

    /// The viewpoint chunk recorded at the last tick, if any.
    pub fn last_viewpoint_chunk(&self) -> (r: Option<GridCoordinate>)
        ensures
            r == self.last(),
    {
        self.last_viewpoint_chunk
    }

    /// Whether a chunk at `p` is resident.
    pub fn chunk_exists(&self, p: GridCoordinate) -> (r: bool)
        ensures
            r == holds(self.resident_chunks(), p),
    {
        let mut i: usize = 0;
        while i < self.chunks.len()
            invariant
                i <= self.chunks@.len(),
                forall|k: int| 0 <= k < i ==> (#[trigger] self.chunks@[k]).position != p,
            decreases self.chunks@.len() - i,
        {
            if self.chunks[i].position == p {
                return true;
            }
            i = i + 1;
        }
        false
    }
}

impl World {
    /// Wanted, non-resident coordinates around `cam`, row by row.
    fn wanted_candidates(&self, cam: GridCoordinate) -> (c: Vec<GridCoordinate>)
        requires
            self.config.wf(),
            cam.y == 0,
            -MAX_CHUNK_COORD <= cam.x <= MAX_CHUNK_COORD,
            -MAX_CHUNK_COORD <= cam.z <= MAX_CHUNK_COORD,
        ensures
            c@.no_duplicates(),
            forall|i: int|
                0 <= i < c@.len() ==> wanted(#[trigger] c@[i], cam, self.config.chunk_radius as int) && !holds(
                    self.chunks@,
                    c@[i],
                ),
            forall|p: GridCoordinate|
                wanted(p, cam, self.config.chunk_radius as int) && !holds(self.chunks@, p) ==> #[trigger] c@.contains(p),
            c@.len() <= wanted_count(self.config.chunk_radius as int),
    {
        let r = self.config.chunk_radius;
        let ghost ri = r as int;
        let mut c: Vec<GridCoordinate> = Vec::new();
        let mut dx: i32 = -r;
        while dx <= r
            invariant
                0 <= r <= MAX_CHUNK_RADIUS,
                ri == r as int,
                r == self.config.chunk_radius,
                cam.y == 0,
                -MAX_CHUNK_COORD <= cam.x <= MAX_CHUNK_COORD,
                -MAX_CHUNK_COORD <= cam.z <= MAX_CHUNK_COORD,
                -r <= dx <= r + 1,
                c@.len() <= (dx + r) * (2 * r + 1),
                c@.no_duplicates(),
                forall|i: int| 0 <= i < c@.len() ==> wanted(#[trigger] c@[i], cam, ri) && !holds(self.chunks@, c@[i]),
                forall|i: int| 0 <= i < c@.len() ==> (#[trigger] c@[i]).x < cam.x + dx,
                forall|p: GridCoordinate|
                    wanted(p, cam, ri) && !holds(self.chunks@, p) && p.x < cam.x + dx ==> #[trigger] c@.contains(p),
            decreases r + 1 - dx,
        {
            let mut dz: i32 = -r;
            while dz <= r
                invariant
                    0 <= r <= MAX_CHUNK_RADIUS,
                    ri == r as int,
                    r == self.config.chunk_radius,
                    cam.y == 0,
                    -MAX_CHUNK_COORD <= cam.x <= MAX_CHUNK_COORD,
                    -MAX_CHUNK_COORD <= cam.z <= MAX_CHUNK_COORD,
                    -r <= dx <= r,
                    -r <= dz <= r + 1,
                    c@.len() <= (dx + r) * (2 * r + 1) + (dz + r),
                    c@.no_duplicates(),
                    forall|i: int| 0 <= i < c@.len() ==> wanted(#[trigger] c@[i], cam, ri) && !holds(self.chunks@, c@[i]),
                    forall|i: int|
                        0 <= i < c@.len() ==> (#[trigger] c@[i]).x < cam.x + dx || (c@[i].x == cam.x + dx && c@[i].z
                            < cam.z + dz),
                    forall|p: GridCoordinate|
                        wanted(p, cam, ri) && !holds(self.chunks@, p) && (p.x < cam.x + dx || (p.x == cam.x + dx
                            && p.z < cam.z + dz)) ==> #[trigger] c@.contains(p),
                decreases r + 1 - dz,
            {
                let p = GridCoordinate { x: cam.x + dx, y: 0, z: cam.z + dz };
                if !self.chunk_exists(p) {
                    let ghost old_c = c@;
                    c.push(p);
                    proof {
                        assert(wanted(p, cam, ri));
                        assert forall|i: int, j: int|
                            0 <= i < c@.len() && 0 <= j < c@.len() && i != j implies c@[i] != c@[j] by {
                            if i < old_c.len() && j < old_c.len() {
                                assert(old_c[i] != old_c[j]);
                            }
                        }
                        assert forall|q: GridCoordinate|
                            wanted(q, cam, ri) && !holds(self.chunks@, q) && (q.x < cam.x + dx || (q.x == cam.x
                                + dx && q.z < cam.z + dz + 1)) implies #[trigger] c@.contains(q) by {
                            if q == p {
                                assert(c@[c@.len() - 1] == p);
                            } else {
                                assert(old_c.contains(q));
                                let w = choose|w: int| 0 <= w < old_c.len() && old_c[w] == q;
                                assert(c@[w] == q);
                            }
                        }
                    }
                }
                dz = dz + 1;
            }
            proof {
                assert(c@.len() <= (dx + 1 + r) * (2 * r + 1)) by (nonlinear_arith)
                    requires c@.len() <= (dx + r) * (2 * r + 1) + (r + 1 + r);
                assert forall|q: GridCoordinate|
                    wanted(q, cam, ri) && !holds(self.chunks@, q) && q.x < cam.x + dx + 1 implies #[trigger] c@.contains(q) by {
                    if q.x == cam.x + dx {
                        assert(q.z < cam.z + dz);
                    }
                }
            }
            dx = dx + 1;
        }
        proof {
            assert(c@.len() <= wanted_count(ri)) by (nonlinear_arith)
                requires c@.len() <= (ri + 1 + ri) * (2 * ri + 1), wanted_count(ri) == (2 * ri + 1) * (2 * ri + 1);
        }
        c
    }

    /// Rebuilds the queue around `cam`: every wanted coordinate that is not
    /// resident, closest first, cut to `max_queue_len`.
    fn generate_chunks_around(&mut self, cam: GridCoordinate)
        requires
            old(self).config.wf(),
            cam.y == 0,
            -MAX_CHUNK_COORD <= cam.x <= MAX_CHUNK_COORD,
            -MAX_CHUNK_COORD <= cam.z <= MAX_CHUNK_COORD,
        ensures
            final(self).chunks@ == old(self).chunks@,
            final(self).config == old(self).config,
            final(self).last_viewpoint_chunk == old(self).last_viewpoint_chunk,
            final(self).queue@.no_duplicates(),
            forall|j: int|
                0 <= j < final(self).queue@.len() ==> wanted(#[trigger] final(self).queue@[j], cam, old(self).config.chunk_radius as int)
                    && !holds(old(self).chunks@, final(self).queue@[j]),
            forall|i: int, j: int|
                0 <= i < j < final(self).queue@.len() ==> manhattan(#[trigger] final(self).queue@[i], cam) <= manhattan(
                    #[trigger] final(self).queue@[j],
                    cam,
                ),
            forall|p: GridCoordinate|
                wanted(p, cam, old(self).config.chunk_radius as int) && !holds(old(self).chunks@, p) ==> #[trigger] final(self).queue@.contains(p),
            final(self).queue@.len() <= wanted_count(old(self).config.chunk_radius as int),
    {
        let cand = self.wanted_candidates(cam);
        let ghost r = self.config.chunk_radius as int;
        proof {
            assert forall|i: int| 0 <= i < cand@.len() implies manhattan(#[trigger] cand@[i], cam) <= 2 * r by {
                assert(wanted(cand@[i], cam, r));
            }
        }
        let mut queue = order_by_distance(&cand, cam, 2 * self.config.chunk_radius as i64);
        if queue.len() > self.config.max_queue_len {
            queue.truncate(self.config.max_queue_len);
        }
        proof {
            assert forall|j: int| 0 <= j < queue@.len() implies wanted(#[trigger] queue@[j], cam, r) && !holds(
                self.chunks@,
                queue@[j],
            ) by {
                assert(cand@.contains(queue@[j]));
            }
            assert forall|p: GridCoordinate|
                wanted(p, cam, r) && !holds(self.chunks@, p) implies #[trigger] queue@.contains(p) by {
                assert(cand@.contains(p));
            }
        }
        self.queue = queue;
    }

    /// Evicts every resident chunk whose Chebyshev distance to `cam` exceeds
    /// `chunk_radius + unload_margin`; the others stay, in their order.
    fn unload_distant_chunks(&mut self, cam: GridCoordinate)
        requires
            old(self).config.wf(),
            distinct_positions(old(self).chunks@),
            forall|i: int|
                0 <= i < old(self).chunks@.len() ==> (#[trigger] old(self).chunks@[i]).wf()
                    && old(self).chunks@[i].position.y == 0,
        ensures
            final(self).queue@ == old(self).queue@,
            final(self).config == old(self).config,
            final(self).last_viewpoint_chunk == old(self).last_viewpoint_chunk,
            final(self).chunks@ == old(self).chunks@.filter(
                near(cam, old(self).config.chunk_radius + old(self).config.unload_margin),
            ),
            distinct_positions(final(self).chunks@),
            forall|i: int|
                0 <= i < final(self).chunks@.len() ==> (#[trigger] final(self).chunks@[i]).wf()
                    && final(self).chunks@[i].position.y == 0 && chebyshev(final(self).chunks@[i].position, cam)
                    <= old(self).config.chunk_radius + old(self).config.unload_margin,
            forall|p: GridCoordinate| #[trigger] holds(final(self).chunks@, p) ==> holds(old(self).chunks@, p),
            forall|p: GridCoordinate|
                holds(old(self).chunks@, p) && chebyshev(p, cam) <= old(self).config.chunk_radius
                    + old(self).config.unload_margin ==> #[trigger] holds(final(self).chunks@, p),
    {
        let limit = (self.config.chunk_radius + self.config.unload_margin) as i64;
        let ghost old_chunks = self.chunks@;
        let ghost n = old_chunks.len();
        let ghost keep = near(cam, limit as int);
        let ghost mut i: int = 0;
        let mut kept: Vec<Chunk> = Vec::new();
        while self.chunks.len() > 0
            invariant
                limit == self.config.chunk_radius + self.config.unload_margin,
                keep == near(cam, limit as int),
                distinct_positions(old_chunks),
                old_chunks == old(self).chunks@,
                n == old_chunks.len(),
                0 <= i <= n,
                forall|k: int|
                    0 <= k < old_chunks.len() ==> (#[trigger] old_chunks[k]).wf() && old_chunks[k].position.y == 0,
                self.chunks@ == old_chunks.subrange(i, n as int),
                kept@ == old_chunks.subrange(0, i).filter(keep),
                self.queue@ == old(self).queue@,
                self.config == old(self).config,
                self.last_viewpoint_chunk == old(self).last_viewpoint_chunk,
                distinct_positions(kept@),
                forall|k: int|
                    0 <= k < kept@.len() ==> (#[trigger] kept@[k]).wf() && kept@[k].position.y == 0 && chebyshev(
                        kept@[k].position,
                        cam,
                    ) <= limit && holds(old_chunks, kept@[k].position) && !holds(self.chunks@, kept@[k].position),
                forall|j: int|
                    0 <= j < i && chebyshev((#[trigger] old_chunks[j]).position, cam) <= limit ==> holds(
                        kept@,
                        old_chunks[j].position,
                    ),
            decreases self.chunks@.len(),
        {
            let ghost rest = self.chunks@;
            let ch = self.chunks.remove(0);
            assert(ch == old_chunks[i]);
            proof {
                assert(self.chunks@ =~= old_chunks.subrange(i + 1, n as int));
                assert forall|k: int| 0 <= k < kept@.len() implies !holds(self.chunks@, (#[trigger] kept@[k]).position) by {
                    if holds(self.chunks@, kept@[k].position) {
                        let w = choose|w: int| 0 <= w < self.chunks@.len() && self.chunks@[w].position == kept@[k].position;
                        assert(rest[w + 1] == self.chunks@[w]);
                    }
                }
                assert(!holds(self.chunks@, ch.position)) by {
                    if holds(self.chunks@, ch.position) {
                        let w = choose|w: int| 0 <= w < self.chunks@.len() && self.chunks@[w].position == ch.position;
                        assert(old_chunks[i + 1 + w].position == old_chunks[i].position);
                    }
                }
                reveal(Seq::filter);
                assert(old_chunks.subrange(0, i + 1).drop_last() =~= old_chunks.subrange(0, i));
                assert(old_chunks.subrange(0, i + 1).last() == ch);
            }
            if chebyshev_distance(ch.position, cam) <= limit {
                let ghost old_kept = kept@;
                kept.push(ch);
                proof {
                    assert(holds(old_chunks, ch.position)) by {
                        assert(old_chunks[i].position == ch.position);
                    }
                    assert forall|a: int, b: int|
                        0 <= a < kept@.len() && 0 <= b < kept@.len() && a != b implies (#[trigger] kept@[a]).position
                            != (#[trigger] kept@[b]).position by {
                        if a < old_kept.len() && b < old_kept.len() {
                            assert(old_kept[a].position != old_kept[b].position);
                        } else if a < old_kept.len() {
                            assert(!holds(rest, old_kept[a].position));
                            assert(rest[0].position == ch.position);
                        } else if b < old_kept.len() {
                            assert(!holds(rest, old_kept[b].position));
                            assert(rest[0].position == ch.position);
                        }
                    }
                    assert forall|j: int|
                        0 <= j < i + 1 && chebyshev((#[trigger] old_chunks[j]).position, cam) <= limit implies holds(
                            kept@,
                            old_chunks[j].position,
                        ) by {
                        if j == i {
                            assert(kept@[kept@.len() - 1].position == old_chunks[j].position);
                        } else {
                            let w = choose|w: int| 0 <= w < old_kept.len() && old_kept[w].position == old_chunks[j].position;
                            assert(kept@[w].position == old_chunks[j].position);
                        }
                    }
                }
            }
            proof {
                i = i + 1;
            }
        }
        proof {
            assert(old_chunks.subrange(0, n as int) =~= old_chunks);
            assert forall|p: GridCoordinate|
                holds(old_chunks, p) && chebyshev(p, cam) <= limit implies #[trigger] holds(kept@, p) by {
                let w = choose|w: int| 0 <= w < old_chunks.len() && old_chunks[w].position == p;
                assert(chebyshev(old_chunks[w].position, cam) <= limit);
            }
            assert forall|p: GridCoordinate| #[trigger] holds(kept@, p) implies holds(old_chunks, p) by {
                let w = choose|w: int| 0 <= w < kept@.len() && kept@[w].position == p;
                assert(holds(old_chunks, kept@[w].position));
            }
        }
        self.chunks = kept;
    }
}

/// One `update` tick at viewpoint chunk `cam`, as far as the queue's length is
/// concerned: a tick that stays in the same chunk builds `min(budget, queued)`
/// chunks; one that enters another chunk leaves at most the wanted count less
/// one budget queued.
pub open spec fn tick(before: World, after: World, cam: GridCoordinate) -> bool {
    let b = before.cfg().build_budget as int;
    let w = wanted_count(before.cfg().chunk_radius as int);
    &&& after.wf()
    &&& after.cfg() == before.cfg()
    &&& after.last() == Some(cam)
    &&& if before.last() == Some(cam) {
        after.pending().len() == before.pending().len() - min_int(b, before.pending().len() as int)
    } else {
        after.pending().len() + b <= w || after.pending().len() == 0
    }
}

/// The state of a tick that enters chunk `cam`, before building: `kept` is
/// what eviction left of the resident chunks, in order, and `q` the rebuilt queue, every
/// wanted coordinate that was not resident, each once, closest first.
pub open spec fn rebuilt(before: World, cam: GridCoordinate, kept: Seq<Chunk>, q: Seq<GridCoordinate>) -> bool {
    let r = before.cfg().chunk_radius as int;
    let lim = before.cfg().chunk_radius + before.cfg().unload_margin;
    &&& kept == before.resident_chunks().filter(near(cam, lim as int))
    &&& distinct_positions(kept)
    &&& forall|p: GridCoordinate|
        #[trigger] holds(kept, p) <==> holds(before.resident_chunks(), p) && chebyshev(p, cam) <= lim
    &&& q.no_duplicates()
    &&& forall|p: GridCoordinate| #[trigger] q.contains(p) <==> wanted(p, cam, r) && !holds(before.resident_chunks(), p)
    &&& forall|i: int, j: int| 0 <= i < j < q.len() ==> manhattan(#[trigger] q[i], cam) <= manhattan(#[trigger] q[j], cam)
}

/// The build step of a tick: `after` holds `kept`, then one chunk synthesized
/// from `source` for each of the first `min(build_budget, |q|)` coordinates of
/// `q`, in order; the rest of `q` stays queued.
pub open spec fn drained<S: NoiseSource>(
    source: &S,
    terrain: TerrainConfig,
    kept: Seq<Chunk>,
    q: Seq<GridCoordinate>,
    after: World,
) -> bool {
    let n = min_int(after.cfg().build_budget as int, q.len() as int);
    &&& after.pending() == q.subrange(n, q.len() as int)
    &&& after.resident_chunks().len() == kept.len() + n
    &&& after.resident_chunks().subrange(0, kept.len() as int) == kept
    &&& forall|i: int| 0 <= i < n ==> (#[trigger] after.resident_chunks()[kept.len() + i]).position == q[i]
    &&& forall|i: int|
        0 <= i < n ==> #[trigger] synthesized_for(source, terrain, &after.resident_chunks()[kept.len() + i])
}

impl World {
    /// Builds the first `min(build_budget, queued)` queued coordinates, in
    /// queue order, and makes them resident.
    fn process_chunk_generation_queue<S: NoiseSource>(&mut self, source: &S)
        requires
            old(self).wf(),
            old(self).last_viewpoint_chunk is Some,
        ensures
            final(self).wf(),
            final(self).config == old(self).config,
            final(self).last_viewpoint_chunk == old(self).last_viewpoint_chunk,
            ({
                let n = min_int(old(self).config.build_budget as int, old(self).queue@.len() as int);
                &&& final(self).queue@ == old(self).queue@.subrange(n, old(self).queue@.len() as int)
                &&& final(self).chunks@.len() == old(self).chunks@.len() + n
                &&& final(self).chunks@.subrange(0, old(self).chunks@.len() as int) == old(self).chunks@
                &&& forall|i: int|
                    0 <= i < n ==> (#[trigger] final(self).chunks@[old(self).chunks@.len() + i]).position
                        == old(self).queue@[i]
                &&& forall|i: int|
                    0 <= i < n ==> #[trigger] synthesized_for(
                        source,
                        old(self).config.terrain,
                        &final(self).chunks@[old(self).chunks@.len() + i],
                    )
            }),
    {
        let n = if self.config.build_budget < self.queue.len() {
            self.config.build_budget
        } else {
            self.queue.len()
        };
        let ghost c0 = self.chunks@;
        let ghost q = self.queue@;
        let ghost cam = self.last_viewpoint_chunk.unwrap();
        let ghost r = self.config.chunk_radius as int;
        let ghost lim = self.config.chunk_radius + self.config.unload_margin;
        let mut i: usize = 0;
        while i < n
            invariant
                i <= n,
                n <= q.len(),
                n == min_int(self.config.build_budget as int, q.len() as int),
                self.queue@ == q,
                self.config == old(self).config,
                self.config.terrain.wf(),
                self.last_viewpoint_chunk == old(self).last_viewpoint_chunk,
                self.chunks@.len() == c0.len() + i,
                self.chunks@.subrange(0, c0.len() as int) == c0,
                forall|k: int| 0 <= k < i ==> (#[trigger] self.chunks@[c0.len() + k]).position == q[k],
                forall|k: int|
                    0 <= k < i ==> #[trigger] synthesized_for(source, self.config.terrain, &self.chunks@[c0.len() + k]),
            decreases n - i,
        {
            let pos = self.queue[i];
            let ch = Chunk::new(source, &self.config.terrain, pos);
            let ghost before = self.chunks@;
            self.chunks.push(ch);
            proof {
                assert(self.chunks@.subrange(0, c0.len() as int) =~= before.subrange(0, c0.len() as int));
                assert forall|k: int| 0 <= k < i + 1 implies (#[trigger] self.chunks@[c0.len() + k]).position == q[k]
                    && synthesized_for(source, self.config.terrain, &self.chunks@[c0.len() + k]) by {
                    if k < i {
                        assert(self.chunks@[c0.len() + k] == before[c0.len() + k]);
                    }
                }
            }
            i = i + 1;
        }
        let rest = self.queue.split_off(n);
        self.queue = rest;
        proof {
            let cs = self.chunks@;
            let rq = self.queue@;
            assert forall|k: int| 0 <= k < c0.len() implies #[trigger] cs[k] == c0[k] by {
                assert(cs[k] == cs.subrange(0, c0.len() as int)[k]);
            }
            assert forall|a: int, b: int| 0 <= a < cs.len() && 0 <= b < cs.len() && a != b implies (#[trigger] cs[a]).position
                != (#[trigger] cs[b]).position by {
                if a < c0.len() && b < c0.len() {
                    assert(c0[a].position != c0[b].position);
                } else if a < c0.len() {
                    assert(cs[c0.len() + (b - c0.len())].position == q[b - c0.len()]);
                    assert(c0[a].position != q[b - c0.len()]);
                } else if b < c0.len() {
                    assert(cs[c0.len() + (a - c0.len())].position == q[a - c0.len()]);
                    assert(c0[b].position != q[a - c0.len()]);
                } else {
                    assert(cs[c0.len() + (a - c0.len())].position == q[a - c0.len()]);
                    assert(cs[c0.len() + (b - c0.len())].position == q[b - c0.len()]);
                }
            }
            assert forall|a: int, b: int| 0 <= a < rq.len() && 0 <= b < rq.len() && a != b implies rq[a] != rq[b] by {
                assert(rq[a] == q[a + n] && rq[b] == q[b + n]);
            }
            assert forall|a: int, b: int| 0 <= a < cs.len() && 0 <= b < rq.len() implies (#[trigger] cs[a]).position
                != #[trigger] rq[b] by {
                assert(rq[b] == q[b + n]);
                if a < c0.len() {
                    assert(c0[a].position != q[b + n]);
                } else {
                    assert(cs[c0.len() + (a - c0.len())].position == q[a - c0.len()]);
                }
            }
            assert forall|a: int| 0 <= a < cs.len() implies (#[trigger] cs[a]).wf() && cs[a].position.y == 0
                && chebyshev(cs[a].position, cam) <= lim by {
                if a >= c0.len() {
                    assert(cs[c0.len() + (a - c0.len())].position == q[a - c0.len()]);
                    assert(synthesized_for(source, self.config.terrain, &cs[c0.len() + (a - c0.len())]));
                    assert(wanted(q[a - c0.len()], cam, r));
                }
            }
            assert forall|b: int| 0 <= b < rq.len() implies wanted(#[trigger] rq[b], cam, r) by {
                assert(rq[b] == q[b + n]);
            }
            assert forall|a: int, b: int| 0 <= a < b < rq.len() implies manhattan(#[trigger] rq[a], cam) <= manhattan(
                #[trigger] rq[b],
                cam,
            ) by {
                assert(rq[a] == q[a + n] && rq[b] == q[b + n]);
            }
            assert forall|p: GridCoordinate| #[trigger] wanted(p, cam, r) implies holds(cs, p) || rq.contains(p) by {
                if holds(c0, p) {
                    let w = choose|w: int| 0 <= w < c0.len() && c0[w].position == p;
                    assert(cs[w] == c0[w]);
                } else {
                    assert(q.contains(p));
                    let w = choose|w: int| 0 <= w < q.len() && q[w] == p;
                    if w < n {
                        assert(cs[c0.len() + w].position == q[w]);
                    } else {
                        assert(rq[w - n] == p);
                    }
                }
            }
        }
    }

    /// Advances streaming by one tick for a viewpoint at world column
    /// `(viewpoint_x, viewpoint_z)`.
    ///
    /// When the viewpoint has entered another chunk `cam` (or none was seen
    /// before), the queue becomes every coordinate within `chunk_radius` of `cam`
    /// that is not resident, closest first, and every resident chunk farther than
    /// `chunk_radius + unload_margin` is evicted. Then at most `build_budget`
    /// chunks are built from the front of the queue and become resident.
    pub fn update<S: NoiseSource>(&mut self, source: &S, viewpoint_x: i32, viewpoint_z: i32)
        requires
            old(self).wf(),
        ensures
            final(self).wf(),
            tick(*old(self), *final(self), viewpoint_chunk(viewpoint_x as int, viewpoint_z as int)),
            old(self).last() == Some(viewpoint_chunk(viewpoint_x as int, viewpoint_z as int))
                && old(self).pending().len() == 0 ==> final(self).resident_chunks() == old(self).resident_chunks()
                && final(self).pending() == old(self).pending(),
            old(self).last() == Some(viewpoint_chunk(viewpoint_x as int, viewpoint_z as int)) ==> drained(
                source,
                old(self).cfg().terrain,
                old(self).resident_chunks(),
                old(self).pending(),
                *final(self),
            ),
            old(self).last() != Some(viewpoint_chunk(viewpoint_x as int, viewpoint_z as int)) ==> exists|
                kept: Seq<Chunk>,
                q: Seq<GridCoordinate>,
            |
                #[trigger] rebuilt(*old(self), viewpoint_chunk(viewpoint_x as int, viewpoint_z as int), kept, q)
                    && drained(source, old(self).cfg().terrain, kept, q, *final(self)),
    {
        let cam = chunk_position_of(viewpoint_x, viewpoint_z);
        let moved = match self.last_viewpoint_chunk {
            Some(c) => c != cam,
            None => true,
        };
        let ghost old_chunks = self.chunks@;
        let ghost r = self.config.chunk_radius as int;
        let ghost lim = self.config.chunk_radius + self.config.unload_margin;
        if moved {
            self.generate_chunks_around(cam);
            let ghost mid_queue = self.queue@;
            self.unload_distant_chunks(cam);
            self.last_viewpoint_chunk = Some(cam);
            proof {
                let cs = self.chunks@;
                let q = self.queue@;
                assert forall|i: int, j: int| 0 <= i < cs.len() && 0 <= j < q.len() implies (#[trigger] cs[i]).position
                    != #[trigger] q[j] by {
                    assert(holds(cs, cs[i].position));
                    assert(holds(old_chunks, cs[i].position));
                    assert(!holds(old_chunks, q[j]));
                }
                assert forall|p: GridCoordinate| #[trigger] wanted(p, cam, r) implies holds(cs, p) || q.contains(p) by {
                    if holds(old_chunks, p) {
                        assert(chebyshev(p, cam) <= lim);
                    }
                }
            }
        }
        let ghost mid_chunks = self.chunks@;
        let ghost mid_q = self.queue@;
        self.process_chunk_generation_queue(source);
        proof {
            let n = min_int(self.config.build_budget as int, mid_q.len() as int);
            let cs = self.chunks@;
            if !moved {
                assert(old(self).last() == Some(cam));
                if mid_q.len() == 0 {
                    assert(self.queue@ =~= mid_q);
                    assert(cs =~= cs.subrange(0, mid_chunks.len() as int));
                }
                assert(drained(source, self.config.terrain, old_chunks, mid_q, *self));
            } else {
                assert forall|p: GridCoordinate| #[trigger] holds(mid_chunks, p) implies holds(old_chunks, p) && chebyshev(
                    p,
                    cam,
                ) <= lim by {
                    let w = choose|w: int| 0 <= w < mid_chunks.len() && mid_chunks[w].position == p;
                    assert(chebyshev(mid_chunks[w].position, cam) <= lim);
                }
                assert(rebuilt(*old(self), cam, mid_chunks, mid_q));
                assert(drained(source, self.config.terrain, mid_chunks, mid_q, *self));
            }
        }
    }
}

impl World {
    /// Adds one block at world position `(x, y, z)` to the resident chunk that
    /// holds it, at its position within that chunk.
    ///
    /// Nothing changes when no resident chunk holds the position, or when the
    /// chunk's mesh refuses the cube.
    pub fn add_block(&mut self, x: i32, y: i32, z: i32, texture_id: u32) -> (r: Result<(), EditError>)
        requires
            old(self).wf(),
        ensures
            final(self).wf(),
            final(self).cfg() == old(self).cfg(),
            final(self).pending() == old(self).pending(),
            final(self).last() == old(self).last(),
            final(self).resident_chunks().len() == old(self).resident_chunks().len(),
            ({
                let target = viewpoint_chunk(x as int, z as int);
                let p = BlockPlacement {
                    x: (x - 16 * target.x) as i32,
                    y,
                    z: (z - 16 * target.z) as i32,
                    texture_id,
                };
                &&& !holds(old(self).resident_chunks(), target) ==> r == Err::<(), EditError>(EditError::NoChunk)
                &&& holds(old(self).resident_chunks(), target) && texture_id >= TEXTURE_COUNT ==> r == Err::<
                    (),
                    EditError,
                >(EditError::Mesh(MeshError::InvalidTexture))
                &&& r is Err ==> final(self).resident_chunks() == old(self).resident_chunks()
                &&& r is Ok ==> exists|i: int|
                    0 <= i < old(self).resident_chunks().len() && (#[trigger] old(self).resident_chunks()[i]).position
                        == target && final(self).resident_chunks()[i].position == target
                        && final(self).resident_chunks()[i].chunk_data@ == old(self).resident_chunks()[i].chunk_data@.push(p)
                        && forall|j: int|
                        0 <= j < old(self).resident_chunks().len() && j != i ==> final(self).resident_chunks()[j]
                            == old(self).resident_chunks()[j]
                &&& forall|i: int|
                    0 <= i < old(self).resident_chunks().len() && (#[trigger] old(self).resident_chunks()[i]).position
                        == target && texture_id < TEXTURE_COUNT ==> (old(self).resident_chunks()[i].chunk_data@.len()
                        < MAX_CUBES ==> r is Ok) && (old(self).resident_chunks()[i].chunk_data@.len() == MAX_CUBES
                        ==> r == Err::<(), EditError>(EditError::Mesh(MeshError::Full)))
            }),
    {
        let target = chunk_position_of(x, z);
        let mut i: usize = 0;
        while i < self.chunks.len()
            invariant
                i <= self.chunks@.len(),
                forall|k: int| 0 <= k < i ==> (#[trigger] self.chunks@[k]).position != target,
            ensures
                i <= self.chunks@.len(),
                forall|k: int| 0 <= k < i ==> (#[trigger] self.chunks@[k]).position != target,
                i < self.chunks@.len() ==> self.chunks@[i as int].position == target,
            decreases self.chunks@.len() - i,
        {
            if self.chunks[i].position == target {
                break;
            }
            i = i + 1;
        }
        if i == self.chunks.len() {
            return Err(EditError::NoChunk);
        }
        assert(holds(self.chunks@, target)) by {
            assert(self.chunks@[i as int].position == target);
        }
        if texture_id >= TEXTURE_COUNT {
            return Err(EditError::Mesh(MeshError::InvalidTexture));
        }
        if self.chunks[i].chunk_data.cube_count() >= MAX_CUBES {
            return Err(EditError::Mesh(MeshError::Full));
        }
        let ghost old_chunks = self.chunks@;
        let lx = x - CHUNK_SIZE * target.x;
        let lz = z - CHUNK_SIZE * target.z;
        let mut ch = self.chunks.remove(i);
        let res = ch.add_block(lx, y, lz, texture_id);
        assert(res is Ok);
        self.chunks.insert(i, ch);
        proof {
            let cs = self.chunks@;
            assert forall|k: int| 0 <= k < cs.len() && k != i implies #[trigger] cs[k] == old_chunks[k] by {}
            assert forall|k: int| 0 <= k < cs.len() implies (#[trigger] cs[k]).position == old_chunks[k].position
                && cs[k].wf() by {}
            assert forall|a: int, b: int| 0 <= a < cs.len() && 0 <= b < cs.len() && a != b implies (#[trigger] cs[a]).position
                != (#[trigger] cs[b]).position by {
                assert(old_chunks[a].position != old_chunks[b].position);
            }
            assert forall|a: int, b: int| 0 <= a < cs.len() && 0 <= b < self.queue@.len() implies (#[trigger] cs[a]).position
                != #[trigger] self.queue@[b] by {
                assert(old_chunks[a].position != self.queue@[b]);
            }
            if let Some(cam) = self.last_viewpoint_chunk {
                assert forall|a: int| 0 <= a < cs.len() implies (#[trigger] cs[a]).position.y == 0 && chebyshev(
                    cs[a].position,
                    cam,
                ) <= self.config.chunk_radius + self.config.unload_margin by {
                    assert(cs[a].position == old_chunks[a].position);
                }
                assert forall|p: GridCoordinate| #[trigger] wanted(p, cam, self.config.chunk_radius as int) implies holds(
                    cs,
                    p,
                ) || self.queue@.contains(p) by {
                    if holds(old_chunks, p) {
                        let w = choose|w: int| 0 <= w < old_chunks.len() && old_chunks[w].position == p;
                        assert(cs[w].position == p);
                    }
                }
            }
            assert(res is Ok);
            assert(old_chunks[i as int].position == target);
        }
        Ok(())
    }
}

/// No double build: in a well-formed world, which `new` makes and every
/// `update` keeps, no coordinate is both resident and queued, and neither the
/// resident chunks nor the queue hold a coordinate twice.
pub proof fn lemma_no_double_build(w: World, p: GridCoordinate)
    requires
        w.wf(),
    ensures
        !(holds(w.resident_chunks(), p) && w.pending().contains(p)),
        distinct_positions(w.resident_chunks()),
        w.pending().no_duplicates(),
{
    if holds(w.resident_chunks(), p) && w.pending().contains(p) {
        let i = choose|i: int| 0 <= i < w.resident_chunks().len() && w.resident_chunks()[i].position == p;
        let j = choose|j: int| 0 <= j < w.pending().len() && w.pending()[j] == p;
        assert(w.resident_chunks()[i].position != w.pending()[j]);
    }
}

/// Eviction: once a viewpoint chunk `cam` has been recorded, every resident
/// chunk lies within `chunk_radius + unload_margin` of it (Chebyshev).
pub proof fn lemma_resident_within_unload_distance(w: World, cam: GridCoordinate)
    requires
        w.wf(),
        w.last() == Some(cam),
    ensures
        forall|i: int|
            0 <= i < w.resident_chunks().len() ==> chebyshev((#[trigger] w.resident_chunks()[i]).position, cam)
                <= w.cfg().chunk_radius + w.cfg().unload_margin,
{
}

proof fn lemma_queue_drains(ticks: Seq<World>, cam: GridCoordinate, k: int)
    requires
        1 <= k < ticks.len(),
        ticks[0].wf(),
        forall|i: int| 0 <= i < ticks.len() - 1 ==> #[trigger] tick(ticks[i], ticks[i + 1], cam),
    ensures
        ticks[k].cfg() == ticks[0].cfg(),
        ticks[k].last() == Some(cam),
        ticks[k].wf(),
        ticks[k].pending().len() == 0 || ticks[k].pending().len() + k * ticks[0].cfg().build_budget
            <= wanted_count(ticks[0].cfg().chunk_radius as int),
    decreases k,
{
    let b = ticks[0].cfg().build_budget as int;
    let w = wanted_count(ticks[0].cfg().chunk_radius as int);
    let i = k - 1;
    assert(tick(ticks[i], ticks[i + 1], cam));
    assert(i + 1 == k);
    if k == 1 {
        if ticks[0].last() == Some(cam) {
            assert(ticks[0].pending().len() <= w);
        }
    } else {
        lemma_queue_drains(ticks, cam, k - 1);
        let prev = ticks[k - 1].pending().len() as int;
        let cur = ticks[k].pending().len() as int;
        if prev != 0 && prev > b {
            assert(cur == prev - b);
            assert(cur + k * b <= w) by (nonlinear_arith)
                requires cur == prev - b, prev + (k - 1) * b <= w;
        }
    }
}

/// Eventual residency: at a stationary viewpoint chunk `cam`, after
/// `ceil(wanted / budget)` ticks (with `wanted = (2 * chunk_radius + 1)^2`)
/// the queue is empty and every coordinate within `chunk_radius` of `cam` is
/// resident.
pub proof fn lemma_stationary_viewpoint_fills(ticks: Seq<World>, cam: GridCoordinate)
    requires
        ticks.len() >= 2,
        ticks[0].wf(),
        forall|i: int| 0 <= i < ticks.len() - 1 ==> #[trigger] tick(ticks[i], ticks[i + 1], cam),
        (ticks.len() - 1) * ticks[0].cfg().build_budget >= wanted_count(ticks[0].cfg().chunk_radius as int),
    ensures
        ticks.last().pending().len() == 0,
        forall|p: GridCoordinate|
            wanted(p, cam, ticks[0].cfg().chunk_radius as int) ==> #[trigger] holds(ticks.last().resident_chunks(), p),
{
    let n = ticks.len() - 1;
    lemma_queue_drains(ticks, cam, n);
    let last = ticks[n];
    assert(last == ticks.last());
    assert forall|p: GridCoordinate| wanted(p, cam, ticks[0].cfg().chunk_radius as int) implies #[trigger] holds(
        last.resident_chunks(),
        p,
    ) by {
        assert(wanted(p, cam, last.cfg().chunk_radius as int));
        if last.pending().contains(p) {
            let j = choose|j: int| 0 <= j < last.pending().len() && last.pending()[j] == p;
        }
    }
}

} // verus!
