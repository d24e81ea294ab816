//! Terrain synthesis for one chunk: an overlap-extended height field, the
//! exposed-block culling rule, biome textures, and trees.
//!
//! Every function here is a pure function of its inputs; `chunk_blocks` is the
//! exact sequence of placements that `generate_chunk` returns.
use vstd::prelude::*;
use crate::biome::{
    biome_of, channel_sample, classify, elevation_of, lemma_elevation_bounds, sample_channel, Biome, NoiseChannel, NoiseSource,
    NOISE_SCALE,
};
use crate::mesh::{BlockPlacement, TEXTURE_COUNT};

verus! {

/// Edge length of a chunk, in blocks.
pub const CHUNK_SIZE: i32 = 16;

/// Columns of neighbouring chunks sampled on each side of a chunk.
pub const OVERLAP: i32 = 1;

/// Edge length of the overlap-extended height field.
pub const EXTENDED_SIZE: usize = 18;

/// Columns in one chunk.
pub const COLUMNS: usize = 256;

/// Highest reference height a configuration may ask for. With
/// `MAX_TREE_HEIGHT` it keeps a chunk's cubes under `MAX_CUBES`, so that every
/// index fits in `u32`.
pub const MAX_REFERENCE_HEIGHT: i32 = 400_000;

/// Tallest trunk a configuration may ask for; see `MAX_REFERENCE_HEIGHT`.
pub const MAX_TREE_HEIGHT: i32 = 100_000;

/// Mountain blocks more than this far above the reference height are snow.
pub const SNOW_LINE: i32 = 10;

/// Radius of a tree's spherical canopy.
pub const CANOPY_RADIUS: i32 = 3;

/// Cells in the cube that bounds a canopy: `(2 * CANOPY_RADIUS + 1)^3`.
pub const CANOPY_CELLS: usize = 343;

pub const GRASS_TEXTURE: u32 = 0;
pub const SAND_TEXTURE: u32 = 2;
pub const SNOW_TEXTURE: u32 = 3;
pub const TRUNK_TEXTURE: u32 = 4;
pub const LEAF_TEXTURE: u32 = 0;

/// Most placements one chunk can produce under a valid configuration:
/// `COLUMNS * (MAX_REFERENCE_HEIGHT + 1) + COLUMNS * (MAX_TREE_HEIGHT + CANOPY_CELLS)`.
pub const MAX_CHUNK_BLOCKS: usize = 128_088_064;

/// Generation parameters for chunks.
#[derive(Clone, Copy, Debug, PartialEq, Eq, Structural)]
pub struct TerrainConfig {
    /// World seed; each noise channel offsets it.
    pub seed: u32,
    /// Flat floor: no column is lower, and trees stand on it.
    pub reference_height: i32,
    /// Tree density as a fraction of `NOISE_SCALE`: a tree grows where the tree
    /// noise exceeds `NOISE_SCALE - tree_density`.
    pub tree_density: i32,
    /// Trunk height of every tree.
    pub tree_height: i32,
}

impl TerrainConfig {
    pub open spec fn wf(&self) -> bool {
        &&& 0 <= self.reference_height <= MAX_REFERENCE_HEIGHT
        &&& 0 <= self.tree_density <= NOISE_SCALE
        &&& 0 <= self.tree_height <= MAX_TREE_HEIGHT
    }
}

/// Noise read for one chunk: three channels over the overlap-extended grid,
/// stored row-major (`i * EXTENDED_SIZE + j`), each value in `[-NOISE_SCALE, NOISE_SCALE]`.
///
/// Extended cell `(i, j)` is the local column `(i - OVERLAP, j - OVERLAP)`.
pub struct ChunkSamples {
    pub biome: Vec<i32>,
    pub elevation: Vec<i32>,
    pub tree: Vec<i32>,
}

pub open spec fn valid_channel(v: Seq<i32>) -> bool {
    &&& v.len() == EXTENDED_SIZE * EXTENDED_SIZE
    &&& forall|k: int| 0 <= k < v.len() ==> -NOISE_SCALE <= #[trigger] v[k] <= NOISE_SCALE
}

pub open spec fn at(v: Seq<i32>, i: int, j: int) -> int {
    v[i * EXTENDED_SIZE + j] as int
}

impl ChunkSamples {
    pub open spec fn wf(&self) -> bool {
        &&& valid_channel(self.biome@)
        &&& valid_channel(self.elevation@)
        &&& valid_channel(self.tree@)
    }

    /// Accepts three channels if each has `EXTENDED_SIZE * EXTENDED_SIZE` values in range.
    pub fn new(biome: Vec<i32>, elevation: Vec<i32>, tree: Vec<i32>) -> (r: Option<ChunkSamples>)
        ensures
            r is Some <==> valid_channel(biome@) && valid_channel(elevation@) && valid_channel(tree@),
            r matches Some(s) ==> s.wf() && s.biome@ == biome@ && s.elevation@ == elevation@ && s.tree@
                == tree@,
    {
        if check_channel(&biome) && check_channel(&elevation) && check_channel(&tree) {
            Some(ChunkSamples { biome, elevation, tree })
        } else {
            None
        }
    }
}

fn check_channel(v: &Vec<i32>) -> (r: bool)
    ensures
        r == valid_channel(v@),
{
    if v.len() != EXTENDED_SIZE * EXTENDED_SIZE {
        return false;
    }
    let mut k: usize = 0;
    while k < v.len()
        invariant
            k <= v@.len(),
            forall|m: int| 0 <= m < k ==> -NOISE_SCALE <= #[trigger] v@[m] <= NOISE_SCALE,
        decreases v@.len() - k,
    {
        if v[k] < -NOISE_SCALE || v[k] > NOISE_SCALE {
            return false;
        }
        k = k + 1;
    }
    true
}

/// World coordinate of extended cell `i` of the chunk at chunk coordinate `c`.
pub open spec fn cell_world(c: i32, i: int) -> i64 {
    (c * CHUNK_SIZE + i - OVERLAP) as i64
}

/// `s` holds, at each extended cell `k = 18 * i + j`, the clamped samples of
/// `source` at world column `(16 * chunk_x + i - 1, 16 * chunk_z + j - 1)`.
pub open spec fn sampled_from<S: NoiseSource>(source: &S, seed: u32, chunk_x: i32, chunk_z: i32, s: &ChunkSamples) -> bool {
    &&& s.wf()
    &&& forall|k: int|
        0 <= k < EXTENDED_SIZE * EXTENDED_SIZE ==> #[trigger] s.biome@[k] as int == channel_sample(
            source,
            seed,
            NoiseChannel::Biome,
            cell_world(chunk_x, k / 18),
            cell_world(chunk_z, k % 18),
        )
    &&& forall|k: int|
        0 <= k < EXTENDED_SIZE * EXTENDED_SIZE ==> #[trigger] s.elevation@[k] as int == channel_sample(
            source,
            seed,
            NoiseChannel::Elevation,
            cell_world(chunk_x, k / 18),
            cell_world(chunk_z, k % 18),
        )
    &&& forall|k: int|
        0 <= k < EXTENDED_SIZE * EXTENDED_SIZE ==> #[trigger] s.tree@[k] as int == channel_sample(
            source,
            seed,
            NoiseChannel::Tree,
            cell_world(chunk_x, k / 18),
            cell_world(chunk_z, k % 18),
        )
}

/// Reads the three noise channels of `source` over the extended grid of the
/// chunk at chunk coordinates `(chunk_x, chunk_z)`: extended cell `(i, j)` is
/// world column `(16 * chunk_x + i - 1, 16 * chunk_z + j - 1)`.
pub fn sample_chunk<S: NoiseSource>(source: &S, seed: u32, chunk_x: i32, chunk_z: i32) -> (r: ChunkSamples)
    ensures
        sampled_from(source, seed, chunk_x, chunk_z, &r),
{
    let mut biome: Vec<i32> = Vec::new();
    let mut elevation: Vec<i32> = Vec::new();
    let mut tree: Vec<i32> = Vec::new();
    let mut k: usize = 0;
    while k < EXTENDED_SIZE * EXTENDED_SIZE
        invariant
            k <= EXTENDED_SIZE * EXTENDED_SIZE,
            biome@.len() == k && elevation@.len() == k && tree@.len() == k,
            forall|m: int| 0 <= m < k ==> -NOISE_SCALE <= #[trigger] biome@[m] <= NOISE_SCALE,
            forall|m: int| 0 <= m < k ==> -NOISE_SCALE <= #[trigger] elevation@[m] <= NOISE_SCALE,
            forall|m: int| 0 <= m < k ==> -NOISE_SCALE <= #[trigger] tree@[m] <= NOISE_SCALE,
            forall|m: int|
                0 <= m < k ==> #[trigger] biome@[m] as int == channel_sample(
                    source,
                    seed,
                    NoiseChannel::Biome,
                    cell_world(chunk_x, m / 18),
                    cell_world(chunk_z, m % 18),
                ),
            forall|m: int|
                0 <= m < k ==> #[trigger] elevation@[m] as int == channel_sample(
                    source,
                    seed,
                    NoiseChannel::Elevation,
                    cell_world(chunk_x, m / 18),
                    cell_world(chunk_z, m % 18),
                ),
            forall|m: int|
                0 <= m < k ==> #[trigger] tree@[m] as int == channel_sample(
                    source,
                    seed,
                    NoiseChannel::Tree,
                    cell_world(chunk_x, m / 18),
                    cell_world(chunk_z, m % 18),
                ),
        decreases EXTENDED_SIZE * EXTENDED_SIZE - k,
    {
        let i = (k / EXTENDED_SIZE) as i64;
        let j = (k % EXTENDED_SIZE) as i64;
        let x = chunk_x as i64 * CHUNK_SIZE as i64 + i - OVERLAP as i64;
        let z = chunk_z as i64 * CHUNK_SIZE as i64 + j - OVERLAP as i64;
        assert(x == cell_world(chunk_x, k as int / 18) && z == cell_world(chunk_z, k as int % 18));
        biome.push(sample_channel(source, seed, NoiseChannel::Biome, x, z));
        elevation.push(sample_channel(source, seed, NoiseChannel::Elevation, x, z));
        tree.push(sample_channel(source, seed, NoiseChannel::Tree, x, z));
        k = k + 1;
    }
    ChunkSamples { biome, elevation, tree }
}

/// Two sample sets read from the same source for the same chunk hold the same values.
pub proof fn lemma_sampled_unique<S: NoiseSource>(
    source: &S,
    seed: u32,
    chunk_x: i32,
    chunk_z: i32,
    a: &ChunkSamples,
    b: &ChunkSamples,
)
    requires
        sampled_from(source, seed, chunk_x, chunk_z, a),
        sampled_from(source, seed, chunk_x, chunk_z, b),
    ensures
        same_samples(a, b),
{
    assert(a.biome@ =~= b.biome@);
    assert(a.elevation@ =~= b.elevation@);
    assert(a.tree@ =~= b.tree@);
}

/// Height of extended cell `(i, j)`: the classified elevation, never below the reference height.
pub open spec fn column_height(s: &ChunkSamples, reference: int, i: int, j: int) -> int {
    let e = elevation_of(biome_of(at(s.biome@, i, j)), at(s.elevation@, i, j));
    if e > reference {
        e
    } else {
        reference
    }
}

/// `hm` is an `EXTENDED_SIZE` by `EXTENDED_SIZE` grid.
pub open spec fn is_extended_map(hm: Seq<Vec<i32>>) -> bool {
    &&& hm.len() == EXTENDED_SIZE
    &&& forall|i: int| 0 <= i < EXTENDED_SIZE ==> (#[trigger] hm[i])@.len() == EXTENDED_SIZE
}

pub open spec fn hval(hm: Seq<Vec<i32>>, i: int, j: int) -> int {
    hm[i]@[j] as int
}

/// The culling rule on one block at height `y` of a column of height `own`, with
/// the heights of its four horizontal neighbours: it is drawn if it lies in the
/// column and is the column's top, or some neighbour is lower than it.
pub open spec fn exposure(own: int, west: int, east: int, north: int, south: int, y: int) -> bool {
    &&& y <= own
    &&& (y == own || west < y || east < y || north < y || south < y)
}

/// The culling rule at local column `(x, z)` of an extended height field.
pub open spec fn exposed(hm: Seq<Vec<i32>>, x: int, y: int, z: int) -> bool {
    exposure(
        hval(hm, x + 1, z + 1),
        hval(hm, x, z + 1),
        hval(hm, x + 2, z + 1),
        hval(hm, x + 1, z),
        hval(hm, x + 1, z + 2),
        y,
    )
}

/// The culling rule at local column `(x, z)` of the heights that `s` gives.
pub open spec fn exposed_in(s: &ChunkSamples, reference: int, x: int, y: int, z: int) -> bool {
    exposure(
        column_height(s, reference, x + 1, z + 1),
        column_height(s, reference, x, z + 1),
        column_height(s, reference, x + 2, z + 1),
        column_height(s, reference, x + 1, z),
        column_height(s, reference, x + 1, z + 2),
        y,
    )
}

/// Texture of a terrain block: sand in deserts, grass on plains, and on
/// mountains snow above the snow line, grass below it.
pub open spec fn texture_for(b: Biome, y: int, reference: int) -> u32 {
    match b {
        Biome::Desert => SAND_TEXTURE,
        Biome::Plains => GRASS_TEXTURE,
        Biome::Mountains => if y > reference + SNOW_LINE {
            SNOW_TEXTURE
        } else {
            GRASS_TEXTURE
        },
    }
}

pub open spec fn column_biome(s: &ChunkSamples, x: int, z: int) -> Biome {
    biome_of(at(s.biome@, x + 1, z + 1))
}

/// Exposed blocks of local column `(x, z)` below height `y_end`, bottom up.
pub open spec fn column_blocks(s: &ChunkSamples, reference: int, x: int, z: int, y_end: int) -> Seq<
    BlockPlacement,
>
    decreases y_end,
{
    if y_end <= 0 {
        Seq::empty()
    } else {
        let prev = column_blocks(s, reference, x, z, y_end - 1);
        let y = y_end - 1;
        if exposed_in(s, reference, x, y, z) {
            prev.push(
                BlockPlacement {
                    x: x as i32,
                    y: y as i32,
                    z: z as i32,
                    texture_id: texture_for(column_biome(s, x, z), y, reference),
                },
            )
        } else {
            prev
        }
    }
}

/// Terrain blocks of the first `c_end` columns, column `c` being `(c / 16, c % 16)`.
pub open spec fn terrain_blocks(s: &ChunkSamples, reference: int, c_end: int) -> Seq<BlockPlacement>
    decreases c_end,
{
    if c_end <= 0 {
        Seq::empty()
    } else {
        let c = c_end - 1;
        let x = c / CHUNK_SIZE as int;
        let z = c % CHUNK_SIZE as int;
        terrain_blocks(s, reference, c) + column_blocks(
            s,
            reference,
            x,
            z,
            column_height(s, reference, x + 1, z + 1) + 1,
        )
    }
}

/// Offset of canopy cell `k` from the canopy's center: `k` runs over the bounding
/// cube with `dz` fastest.
pub open spec fn canopy_offset(k: int) -> (int, int, int) {
    (k / 49 - 3, (k / 7) % 7 - 3, k % 7 - 3)
}

pub open spec fn in_canopy(o: (int, int, int)) -> bool {
    o.0 * o.0 + o.1 * o.1 + o.2 * o.2 <= CANOPY_RADIUS * CANOPY_RADIUS
}

/// Leaf blocks among the first `k_end` cells of the canopy centered on `(x, y, z)`.
pub open spec fn canopy_blocks(x: int, y: int, z: int, leaf: u32, k_end: int) -> Seq<BlockPlacement>
    decreases k_end,
{
    if k_end <= 0 {
        Seq::empty()
    } else {
        let prev = canopy_blocks(x, y, z, leaf, k_end - 1);
        let o = canopy_offset(k_end - 1);
        if in_canopy(o) {
            prev.push(
                BlockPlacement {
                    x: (x + o.0) as i32,
                    y: (y + o.1) as i32,
                    z: (z + o.2) as i32,
                    texture_id: leaf,
                },
            )
        } else {
            prev
        }
    }
}

/// A tree standing on `(x, y, z)`: a trunk of `height` blocks, then a sphere of
/// leaves centered just above it.
pub open spec fn tree_blocks(x: int, y: int, z: int, height: int, trunk: u32, leaf: u32) -> Seq<
    BlockPlacement,
> {
    Seq::new(
        height as nat,
        |i: int| BlockPlacement { x: x as i32, y: (y + i) as i32, z: z as i32, texture_id: trunk },
    ) + canopy_blocks(x, y + height, z, leaf, CANOPY_CELLS as int)
}

pub open spec fn has_tree(s: &ChunkSamples, cfg: TerrainConfig, x: int, z: int) -> bool {
    at(s.tree@, x + 1, z + 1) > NOISE_SCALE - cfg.tree_density
}

/// Trees of the first `c_end` columns.
pub open spec fn forest_blocks(s: &ChunkSamples, cfg: TerrainConfig, c_end: int) -> Seq<BlockPlacement>
    decreases c_end,
{
    if c_end <= 0 {
        Seq::empty()
    } else {
        let c = c_end - 1;
        let x = c / CHUNK_SIZE as int;
        let z = c % CHUNK_SIZE as int;
        let prev = forest_blocks(s, cfg, c);
        if has_tree(s, cfg, x, z) {
            prev + tree_blocks(
                x,
                cfg.reference_height as int,
                z,
                cfg.tree_height as int,
                TRUNK_TEXTURE,
                LEAF_TEXTURE,
            )
        } else {
            prev
        }
    }
}

/// Every placement of a chunk: its terrain, column by column, then its trees.
pub open spec fn chunk_blocks(s: &ChunkSamples, cfg: TerrainConfig) -> Seq<BlockPlacement> {
    terrain_blocks(s, cfg.reference_height as int, COLUMNS as int) + forest_blocks(s, cfg, COLUMNS as int)
}

fn biome_at(s: &ChunkSamples, i: usize, j: usize) -> (r: Biome)
    requires
        s.wf(),
        i < EXTENDED_SIZE,
        j < EXTENDED_SIZE,
    ensures
        r == biome_of(at(s.biome@, i as int, j as int)),
{
    let b = s.biome[i * EXTENDED_SIZE + j];
    if b < -300_000 {
        Biome::Desert
    } else if b < 300_000 {
        Biome::Plains
    } else {
        Biome::Mountains
    }
}

/// Builds the overlap-extended height field of a chunk: each cell is its
/// classified elevation, raised to `reference` where lower.
pub fn build_height_map(s: &ChunkSamples, reference: i32) -> (hm: Vec<Vec<i32>>)
    requires
        s.wf(),
        0 <= reference <= MAX_REFERENCE_HEIGHT,
    ensures
        is_extended_map(hm@),
        forall|i: int, j: int|
            0 <= i < EXTENDED_SIZE && 0 <= j < EXTENDED_SIZE ==> #[trigger] hval(hm@, i, j)
                == column_height(s, reference as int, i, j),
        forall|i: int, j: int|
            0 <= i < EXTENDED_SIZE && 0 <= j < EXTENDED_SIZE ==> 0 <= #[trigger] hval(hm@, i, j)
                <= MAX_REFERENCE_HEIGHT,
{
    let mut hm: Vec<Vec<i32>> = Vec::new();
    let mut i: usize = 0;
    while i < EXTENDED_SIZE
        invariant
            i <= EXTENDED_SIZE,
            s.wf(),
            0 <= reference <= MAX_REFERENCE_HEIGHT,
            hm@.len() == i,
            forall|a: int| 0 <= a < i ==> (#[trigger] hm@[a])@.len() == EXTENDED_SIZE,
            forall|a: int, j: int|
                0 <= a < i && 0 <= j < EXTENDED_SIZE ==> #[trigger] hval(hm@, a, j) == column_height(
                    s,
                    reference as int,
                    a,
                    j,
                ),
            forall|a: int, j: int|
                0 <= a < i && 0 <= j < EXTENDED_SIZE ==> 0 <= #[trigger] hval(hm@, a, j)
                    <= MAX_REFERENCE_HEIGHT,
        decreases EXTENDED_SIZE - i,
    {
        let mut row: Vec<i32> = Vec::new();
        let mut j: usize = 0;
        while j < EXTENDED_SIZE
            invariant
                i < EXTENDED_SIZE,
                j <= EXTENDED_SIZE,
                s.wf(),
                0 <= reference <= MAX_REFERENCE_HEIGHT,
                row@.len() == j,
                forall|b: int|
                    0 <= b < j ==> #[trigger] row@[b] as int == column_height(s, reference as int, i as int, b),
                forall|b: int| 0 <= b < j ==> 0 <= #[trigger] row@[b] <= MAX_REFERENCE_HEIGHT,
            decreases EXTENDED_SIZE - j,
        {
            let k = i * EXTENDED_SIZE + j;
            assert(0 <= k < EXTENDED_SIZE * EXTENDED_SIZE) by (nonlinear_arith)
                requires k == i * 18 + j, i < 18, j < 18;
            let (_, e) = classify(s.biome[k], s.elevation[k]);
            let h = if e > reference {
                e
            } else {
                reference
            };
            row.push(h);
            j = j + 1;
        }
        let ghost prev = hm@;
        hm.push(row);
        proof {
            assert forall|a: int, j: int|
                0 <= a < i + 1 && 0 <= j < EXTENDED_SIZE implies #[trigger] hval(hm@, a, j)
                    == column_height(s, reference as int, a, j) && 0 <= hval(hm@, a, j) <= MAX_REFERENCE_HEIGHT by {
                if a < i {
                    assert(hm@[a] == prev[a]);
                    assert(hval(hm@, a, j) == hval(prev, a, j));
                } else {
                    assert(hm@[a]@ == row@);
                    assert(hval(hm@, a, j) == row@[j] as int);
                }
            }
        }
        i = i + 1;
    }
    hm
}

/// The culling rule on the block at height `y` of local column `(x, z)` of an
/// overlap-extended height field: drawn if it lies in the column and is either
/// the column's top or above some horizontal neighbour's top.
pub fn is_block_exposed(x: usize, y: i32, z: usize, height_map: &Vec<Vec<i32>>) -> (r: bool)
    requires
        is_extended_map(height_map@),
        x < CHUNK_SIZE,
        z < CHUNK_SIZE,
    ensures
        r == exposed(height_map@, x as int, y as int, z as int),
{
    let own = height_map[x + 1][z + 1];
    if y > own {
        return false;
    }
    y == own || height_map[x][z + 1] < y || height_map[x + 2][z + 1] < y || height_map[x + 1][z] < y
        || height_map[x + 1][z + 2] < y
}

fn texture_for_exec(b: Biome, y: i32, reference: i32) -> (r: u32)
    requires
        reference <= MAX_REFERENCE_HEIGHT,
    ensures
        r == texture_for(b, y as int, reference as int),
        r < TEXTURE_COUNT,
{
    match b {
        Biome::Desert => SAND_TEXTURE,
        Biome::Plains => GRASS_TEXTURE,
        Biome::Mountains => if y > reference + SNOW_LINE {
            SNOW_TEXTURE
        } else {
            GRASS_TEXTURE
        },
    }
}

/// Appends the exposed terrain blocks of every column of the chunk, column by
/// column and bottom up, textured by the column's biome.
pub fn generate_terrain(
    s: &ChunkSamples,
    height_map: &Vec<Vec<i32>>,
    reference: i32,
    out: &mut Vec<BlockPlacement>,
)
    requires
        s.wf(),
        0 <= reference <= MAX_REFERENCE_HEIGHT,
        is_extended_map(height_map@),
        forall|i: int, j: int|
            0 <= i < EXTENDED_SIZE && 0 <= j < EXTENDED_SIZE ==> #[trigger] hval(height_map@, i, j)
                == column_height(s, reference as int, i, j),
        forall|i: int, j: int|
            0 <= i < EXTENDED_SIZE && 0 <= j < EXTENDED_SIZE ==> 0 <= #[trigger] hval(height_map@, i, j)
                <= MAX_REFERENCE_HEIGHT,
    ensures
        final(out)@ == old(out)@ + terrain_blocks(s, reference as int, COLUMNS as int),
        final(out)@.len() <= old(out)@.len() + COLUMNS * (MAX_REFERENCE_HEIGHT + 1),
        forall|k: int|
            old(out)@.len() <= k < final(out)@.len() ==> (#[trigger] final(out)@[k]).texture_id
                < TEXTURE_COUNT,
{
    let ghost start = out@;
    let mut c: usize = 0;
    while c < COLUMNS
        invariant
            c <= COLUMNS,
            s.wf(),
            0 <= reference <= MAX_REFERENCE_HEIGHT,
            is_extended_map(height_map@),
            forall|i: int, j: int|
                0 <= i < EXTENDED_SIZE && 0 <= j < EXTENDED_SIZE ==> #[trigger] hval(height_map@, i, j)
                    == column_height(s, reference as int, i, j),
            forall|i: int, j: int|
                0 <= i < EXTENDED_SIZE && 0 <= j < EXTENDED_SIZE ==> 0 <= #[trigger] hval(
                    height_map@,
                    i,
                    j,
                ) <= MAX_REFERENCE_HEIGHT,
            out@ == start + terrain_blocks(s, reference as int, c as int),
            out@.len() <= start.len() + c * (MAX_REFERENCE_HEIGHT + 1),
            forall|k: int| start.len() <= k < out@.len() ==> (#[trigger] out@[k]).texture_id < TEXTURE_COUNT,
        decreases COLUMNS - c,
    {
        let x = c / 16;
        let z = c % 16;
        let biome = biome_at(s, x + 1, z + 1);
        let h = height_map[x + 1][z + 1];
        assert(h as int == hval(height_map@, x + 1, z + 1));
        let ghost before = out@;
        let mut y: i32 = 0;
        while y <= h
            invariant
                0 <= y <= h + 1,
                0 <= h <= MAX_REFERENCE_HEIGHT,
                x < 16 && z < 16,
                h as int == column_height(s, reference as int, x + 1, z + 1),
                biome == column_biome(s, x as int, z as int),
                s.wf(),
                0 <= reference <= MAX_REFERENCE_HEIGHT,
                is_extended_map(height_map@),
                forall|i: int, j: int|
                    0 <= i < EXTENDED_SIZE && 0 <= j < EXTENDED_SIZE ==> #[trigger] hval(height_map@, i, j)
                        == column_height(s, reference as int, i, j),
                out@ == before + column_blocks(s, reference as int, x as int, z as int, y as int),
                out@.len() <= before.len() + y,
                start.len() <= before.len(),
                forall|k: int| start.len() <= k < out@.len() ==> (#[trigger] out@[k]).texture_id < TEXTURE_COUNT,
            decreases h + 1 - y,
        {
            let ghost prev = out@;
            if is_block_exposed(x, y, z, height_map) {
                let t = texture_for_exec(biome, y, reference);
                out.push(BlockPlacement { x: x as i32, y, z: z as i32, texture_id: t });
            }
            proof {
                assert(exposed(height_map@, x as int, y as int, z as int) == exposed_in(
                    s,
                    reference as int,
                    x as int,
                    y as int,
                    z as int,
                ));
                let col = column_blocks(s, reference as int, x as int, z as int, y as int);
                if exposed_in(s, reference as int, x as int, y as int, z as int) {
                    let p = BlockPlacement {
                        x: x as i32,
                        y: y,
                        z: z as i32,
                        texture_id: texture_for(column_biome(s, x as int, z as int), y as int, reference as int),
                    };
                    assert(out@ =~= before + col.push(p));
                }
            }
            y = y + 1;
        }
        proof {
            let col = column_blocks(s, reference as int, x as int, z as int, h + 1);
            assert(x as int == c as int / 16 && z as int == c as int % 16);
            assert(terrain_blocks(s, reference as int, c + 1) == terrain_blocks(s, reference as int, c as int)
                + col);
            assert(out@ =~= start + terrain_blocks(s, reference as int, c + 1));
            assert(out@.len() <= start.len() + (c + 1) * (MAX_REFERENCE_HEIGHT + 1)) by (nonlinear_arith)
                requires
                    out@.len() <= before.len() + h + 1,
                    before.len() <= start.len() + c * (MAX_REFERENCE_HEIGHT + 1),
                    h <= MAX_REFERENCE_HEIGHT;
        }
        c = c + 1;
    }
}

/// Appends one tree standing on `(x, y, z)`: a trunk of `height` blocks with
/// `trunk` texture, then every cell within `CANOPY_RADIUS` (Euclidean) of the
/// block just above the trunk, with `leaf` texture.
pub fn generate_tree(
    x: i32,
    y: i32,
    z: i32,
    height: i32,
    trunk: u32,
    leaf: u32,
    out: &mut Vec<BlockPlacement>,
)
    requires
        -1_000_000_000 <= x <= 1_000_000_000,
        -1_000_000_000 <= y <= 1_000_000_000,
        -1_000_000_000 <= z <= 1_000_000_000,
        0 <= height <= 1_000_000_000,
    ensures
        final(out)@ == old(out)@ + tree_blocks(x as int, y as int, z as int, height as int, trunk, leaf),
        final(out)@.len() <= old(out)@.len() + height + CANOPY_CELLS,
        forall|k: int|
            old(out)@.len() <= k < final(out)@.len() ==> (#[trigger] final(out)@[k]).texture_id == trunk
                || final(out)@[k].texture_id == leaf,
{
    let ghost start = out@;
    let ghost trunk_seq = Seq::new(
        height as nat,
        |i: int| BlockPlacement { x: x, y: (y + i) as i32, z: z, texture_id: trunk },
    );
    let mut i: i32 = 0;
    while i < height
        invariant
            0 <= i <= height,
            -1_000_000_000 <= y <= 1_000_000_000,
            height <= 1_000_000_000,
            out@ == start + trunk_seq.subrange(0, i as int),
            forall|k: int| start.len() <= k < out@.len() ==> (#[trigger] out@[k]).texture_id == trunk || out@[k].texture_id == leaf,
            trunk_seq.len() == height,
            forall|k: int| 0 <= k < height ==> #[trigger] trunk_seq[k] == (BlockPlacement { x: x, y: (y + k) as i32, z: z, texture_id: trunk }),
        decreases height - i,
    {
        out.push(BlockPlacement { x, y: y + i, z, texture_id: trunk });
        assert(out@ =~= start + trunk_seq.subrange(0, i + 1));
        i = i + 1;
    }
    assert(trunk_seq.subrange(0, height as int) =~= trunk_seq);
    let top = y + height;
    let mut k: usize = 0;
    while k < CANOPY_CELLS
        invariant
            k <= CANOPY_CELLS,
            top == y + height,
            -1_000_000_000 <= x <= 1_000_000_000,
            -1_000_000_000 <= z <= 1_000_000_000,
            -1_000_000_000 <= top <= 2_000_000_000,
            out@ == start + trunk_seq + canopy_blocks(x as int, top as int, z as int, leaf, k as int),
            out@.len() <= start.len() + height + k,
            forall|k: int| start.len() <= k < out@.len() ==> (#[trigger] out@[k]).texture_id == trunk || out@[k].texture_id == leaf,
        decreases CANOPY_CELLS - k,
    {
        let dx = (k / 49) as i32 - 3;
        let dy = ((k / 7) % 7) as i32 - 3;
        let dz = (k % 7) as i32 - 3;
        assert((dx as int, dy as int, dz as int) == canopy_offset(k as int));
        assert(-3 <= dx <= 3 && -3 <= dy <= 3 && -3 <= dz <= 3);
        assert(0 <= dx * dx <= 9 && 0 <= dy * dy <= 9 && 0 <= dz * dz <= 9) by (nonlinear_arith)
            requires -3 <= dx <= 3, -3 <= dy <= 3, -3 <= dz <= 3;
        if dx * dx + dy * dy + dz * dz <= CANOPY_RADIUS * CANOPY_RADIUS {
            out.push(BlockPlacement { x: x + dx, y: top + dy, z: z + dz, texture_id: leaf });
        }
        assert(out@ =~= start + trunk_seq + canopy_blocks(x as int, top as int, z as int, leaf, k + 1));
        k = k + 1;
    }
    assert(out@ =~= start + tree_blocks(x as int, y as int, z as int, height as int, trunk, leaf));
}

/// Appends a tree on every column whose tree noise exceeds
/// `NOISE_SCALE - tree_density`; trees stand on the reference height.
pub fn generate_trees(s: &ChunkSamples, cfg: &TerrainConfig, out: &mut Vec<BlockPlacement>)
    requires
        s.wf(),
        cfg.wf(),
    ensures
        final(out)@ == old(out)@ + forest_blocks(s, *cfg, COLUMNS as int),
        final(out)@.len() <= old(out)@.len() + COLUMNS * (MAX_TREE_HEIGHT + CANOPY_CELLS),
        forall|k: int|
            old(out)@.len() <= k < final(out)@.len() ==> (#[trigger] final(out)@[k]).texture_id
                < TEXTURE_COUNT,
{
    let ghost start = out@;
    let mut c: usize = 0;
    while c < COLUMNS
        invariant
            c <= COLUMNS,
            s.wf(),
            cfg.wf(),
            out@ == start + forest_blocks(s, *cfg, c as int),
            out@.len() <= start.len() + c * (MAX_TREE_HEIGHT + CANOPY_CELLS),
            forall|k: int| start.len() <= k < out@.len() ==> (#[trigger] out@[k]).texture_id < TEXTURE_COUNT,
        decreases COLUMNS - c,
    {
        let x = c / 16;
        let z = c % 16;
        let k = (x + 1) * EXTENDED_SIZE + (z + 1);
        assert(k as int == (x + 1) * EXTENDED_SIZE + (z + 1) && k < EXTENDED_SIZE * EXTENDED_SIZE);
        let ghost before = out@;
        if s.tree[k] > NOISE_SCALE - cfg.tree_density {
            generate_tree(
                x as i32,
                cfg.reference_height,
                z as i32,
                cfg.tree_height,
                TRUNK_TEXTURE,
                LEAF_TEXTURE,
                out,
            );
        }
        proof {
            assert(x as int == c as int / 16 && z as int == c as int % 16);
            assert(out@ =~= start + forest_blocks(s, *cfg, c + 1));
            assert(out@.len() <= start.len() + (c + 1) * (MAX_TREE_HEIGHT + CANOPY_CELLS)) by (nonlinear_arith)
                requires
                    out@.len() <= before.len() + MAX_TREE_HEIGHT + CANOPY_CELLS,
                    before.len() <= start.len() + c * (MAX_TREE_HEIGHT + CANOPY_CELLS);
        }
        c = c + 1;
    }
}

/// Synthesizes every block placement of one chunk from its noise samples:
/// the culled, biome-textured terrain of each column, then its trees.
pub fn generate_chunk(s: &ChunkSamples, cfg: &TerrainConfig) -> (r: Vec<BlockPlacement>)
    requires
        s.wf(),
        cfg.wf(),
    ensures
        r@ == chunk_blocks(s, *cfg),
        r@.len() <= MAX_CHUNK_BLOCKS,
        forall|k: int| 0 <= k < r@.len() ==> (#[trigger] r@[k]).texture_id < TEXTURE_COUNT,
{
    let height_map = build_height_map(s, cfg.reference_height);
    let mut out: Vec<BlockPlacement> = Vec::new();
    generate_terrain(s, &height_map, cfg.reference_height, &mut out);
    generate_trees(s, cfg, &mut out);
    assert(out@ =~= chunk_blocks(s, *cfg));
    out
}

/// Two sample sets hold the same values.
pub open spec fn same_samples(a: &ChunkSamples, b: &ChunkSamples) -> bool {
    a.biome@ == b.biome@ && a.elevation@ == b.elevation@ && a.tree@ == b.tree@
}

proof fn lemma_column_congruent(a: &ChunkSamples, b: &ChunkSamples, reference: int, x: int, z: int, y_end: int)
    requires
        same_samples(a, b),
    ensures
        column_blocks(a, reference, x, z, y_end) == column_blocks(b, reference, x, z, y_end),
    decreases y_end,
{
    if y_end > 0 {
        lemma_column_congruent(a, b, reference, x, z, y_end - 1);
    }
}

proof fn lemma_terrain_congruent(a: &ChunkSamples, b: &ChunkSamples, reference: int, c_end: int)
    requires
        same_samples(a, b),
    ensures
        terrain_blocks(a, reference, c_end) == terrain_blocks(b, reference, c_end),
    decreases c_end,
{
    if c_end > 0 {
        let c = c_end - 1;
        let x = c / CHUNK_SIZE as int;
        let z = c % CHUNK_SIZE as int;
        lemma_terrain_congruent(a, b, reference, c);
        lemma_column_congruent(a, b, reference, x, z, column_height(a, reference, x + 1, z + 1) + 1);
    }
}

proof fn lemma_forest_congruent(a: &ChunkSamples, b: &ChunkSamples, cfg: TerrainConfig, c_end: int)
    requires
        same_samples(a, b),
    ensures
        forest_blocks(a, cfg, c_end) == forest_blocks(b, cfg, c_end),
    decreases c_end,
{
    if c_end > 0 {
        lemma_forest_congruent(a, b, cfg, c_end - 1);
    }
}

/// Determinism: a chunk's placements depend on nothing but the sample values
/// and the configuration, so any two syntheses from equal samples (in any
/// call, in any process) give the same placements in the same order.
pub proof fn lemma_synthesis_deterministic(a: &ChunkSamples, b: &ChunkSamples, cfg: TerrainConfig)
    requires
        same_samples(a, b),
    ensures
        chunk_blocks(a, cfg) == chunk_blocks(b, cfg),
{
    lemma_terrain_congruent(a, b, cfg.reference_height as int, COLUMNS as int);
    lemma_forest_congruent(a, b, cfg, COLUMNS as int);
}

proof fn lemma_column_height_bounds(s: &ChunkSamples, reference: int, i: int, j: int)
    requires
        s.wf(),
        0 <= reference <= MAX_REFERENCE_HEIGHT,
        0 <= i < EXTENDED_SIZE,
        0 <= j < EXTENDED_SIZE,
    ensures
        reference <= column_height(s, reference, i, j) <= MAX_REFERENCE_HEIGHT,
{
    let k = i * EXTENDED_SIZE + j;
    assert(0 <= k < EXTENDED_SIZE * EXTENDED_SIZE) by (nonlinear_arith)
        requires k == i * 18 + j, 0 <= i < 18, 0 <= j < 18;
    assert(-NOISE_SCALE <= s.elevation@[k] <= NOISE_SCALE);
    lemma_elevation_bounds(biome_of(at(s.biome@, i, j)), at(s.elevation@, i, j));
}

proof fn lemma_column_contents(s: &ChunkSamples, reference: int, x: int, z: int, y_end: int)
    requires
        0 <= x < CHUNK_SIZE,
        0 <= z < CHUNK_SIZE,
        0 <= y_end <= MAX_REFERENCE_HEIGHT + 1,
    ensures
        forall|k: int|
            0 <= k < column_blocks(s, reference, x, z, y_end).len() ==> {
                let p = #[trigger] column_blocks(s, reference, x, z, y_end)[k];
                &&& p.x as int == x
                &&& p.z as int == z
                &&& 0 <= p.y < y_end
                &&& exposed_in(s, reference, x, p.y as int, z)
            },
        forall|y: int|
            0 <= y < y_end && exposed_in(s, reference, x, y, z) ==> #[trigger] column_blocks(
                s,
                reference,
                x,
                z,
                y_end,
            ).contains(
                BlockPlacement {
                    x: x as i32,
                    y: y as i32,
                    z: z as i32,
                    texture_id: texture_for(column_biome(s, x, z), y, reference),
                },
            ),
    decreases y_end,
{
    if y_end > 0 {
        lemma_column_contents(s, reference, x, z, y_end - 1);
        let prev = column_blocks(s, reference, x, z, y_end - 1);
        let cur = column_blocks(s, reference, x, z, y_end);
        assert forall|k: int| 0 <= k < prev.len() implies cur[k] == #[trigger] prev[k] by {}
        assert forall|y: int|
            0 <= y < y_end && exposed_in(s, reference, x, y, z) implies #[trigger] column_blocks(
                s,
                reference,
                x,
                z,
                y_end,
            ).contains(
                BlockPlacement {
                    x: x as i32,
                    y: y as i32,
                    z: z as i32,
                    texture_id: texture_for(column_biome(s, x, z), y, reference),
                },
            ) by {
            let q = BlockPlacement {
                x: x as i32,
                y: y as i32,
                z: z as i32,
                texture_id: texture_for(column_biome(s, x, z), y, reference),
            };
            if y < y_end - 1 {
                assert(prev.contains(q));
                let w = choose|w: int| 0 <= w < prev.len() && prev[w] == q;
                assert(cur[w] == q);
            } else {
                assert(cur[cur.len() - 1] == q);
            }
        }
    }
}

proof fn lemma_terrain_contents(s: &ChunkSamples, reference: int, c_end: int)
    requires
        s.wf(),
        0 <= reference <= MAX_REFERENCE_HEIGHT,
        0 <= c_end <= COLUMNS,
    ensures
        forall|k: int|
            0 <= k < terrain_blocks(s, reference, c_end).len() ==> exposed_in(
                s,
                reference,
                (#[trigger] terrain_blocks(s, reference, c_end)[k]).x as int,
                terrain_blocks(s, reference, c_end)[k].y as int,
                terrain_blocks(s, reference, c_end)[k].z as int,
            ),
        forall|x: int, z: int, q: BlockPlacement|
            0 <= x < CHUNK_SIZE && 0 <= z < CHUNK_SIZE && CHUNK_SIZE * x + z < c_end && #[trigger] column_blocks(
                s,
                reference,
                x,
                z,
                column_height(s, reference, x + 1, z + 1) + 1,
            ).contains(q) ==> terrain_blocks(s, reference, c_end).contains(q),
    decreases c_end,
{
    if c_end > 0 {
        let c = c_end - 1;
        let cx = c / CHUNK_SIZE as int;
        let cz = c % CHUNK_SIZE as int;
        lemma_terrain_contents(s, reference, c);
        lemma_column_height_bounds(s, reference, cx + 1, cz + 1);
        let h = column_height(s, reference, cx + 1, cz + 1);
        lemma_column_contents(s, reference, cx, cz, h + 1);
        let prev = terrain_blocks(s, reference, c);
        let col = column_blocks(s, reference, cx, cz, h + 1);
        let cur = terrain_blocks(s, reference, c_end);
        assert(cur == prev + col);
        assert forall|k: int| 0 <= k < cur.len() implies exposed_in(
            s,
            reference,
            (#[trigger] cur[k]).x as int,
            cur[k].y as int,
            cur[k].z as int,
        ) by {
            if k < prev.len() {
                assert(cur[k] == prev[k]);
            } else {
                assert(cur[k] == col[k - prev.len()]);
            }
        }
        assert forall|x: int, z: int, q: BlockPlacement|
            0 <= x < CHUNK_SIZE && 0 <= z < CHUNK_SIZE && CHUNK_SIZE * x + z < c_end && #[trigger] column_blocks(
                s,
                reference,
                x,
                z,
                column_height(s, reference, x + 1, z + 1) + 1,
            ).contains(q) implies cur.contains(q) by {
            if CHUNK_SIZE * x + z < c {
                assert(prev.contains(q));
                let w = choose|w: int| 0 <= w < prev.len() && prev[w] == q;
                assert(cur[w] == q);
            } else {
                assert(x == cx && z == cz);
                let w = choose|w: int| 0 <= w < col.len() && col[w] == q;
                assert(cur[prev.len() + w] == q);
            }
        }
    }
}

/// Exposure: in a chunk's terrain, a block strictly below its column's top
/// whose four horizontal neighbours all reach at least its height is never
/// emitted, and the top block of every column always is.
pub proof fn lemma_exposure(s: &ChunkSamples, cfg: TerrainConfig, x: int, z: int, y: int)
    requires
        s.wf(),
        cfg.wf(),
        0 <= x < CHUNK_SIZE,
        0 <= z < CHUNK_SIZE,
    ensures
        ({
            let r = cfg.reference_height as int;
            let t = terrain_blocks(s, r, COLUMNS as int);
            let h = column_height(s, r, x + 1, z + 1);
            &&& (y < h && column_height(s, r, x, z + 1) >= y && column_height(s, r, x + 2, z + 1) >= y
                && column_height(s, r, x + 1, z) >= y && column_height(s, r, x + 1, z + 2) >= y) ==> forall|k: int|
                0 <= k < t.len() ==> !((#[trigger] t[k]).x == x && t[k].y == y && t[k].z == z)
            &&& t.contains(
                BlockPlacement {
                    x: x as i32,
                    y: h as i32,
                    z: z as i32,
                    texture_id: texture_for(column_biome(s, x, z), h, r),
                },
            )
        }),
{
    let r = cfg.reference_height as int;
    lemma_terrain_contents(s, r, COLUMNS as int);
    lemma_column_height_bounds(s, r, x + 1, z + 1);
    let h = column_height(s, r, x + 1, z + 1);
    lemma_column_contents(s, r, x, z, h + 1);
    assert(exposed_in(s, r, x, h, z));
    assert(CHUNK_SIZE * x + z < COLUMNS);
    let q = BlockPlacement {
        x: x as i32,
        y: h as i32,
        z: z as i32,
        texture_id: texture_for(column_biome(s, x, z), h, r),
    };
    assert(column_blocks(s, r, x, z, column_height(s, r, x + 1, z + 1) + 1).contains(q));
    let t = terrain_blocks(s, r, COLUMNS as int);
    assert(t.contains(q));
    if y < h && column_height(s, r, x, z + 1) >= y && column_height(s, r, x + 2, z + 1) >= y
        && column_height(s, r, x + 1, z) >= y && column_height(s, r, x + 1, z + 2) >= y {
        assert(!exposed_in(s, r, x, y, z));
        assert forall|k: int| 0 <= k < t.len() implies !((#[trigger] t[k]).x == x && t[k].y == y && t[k].z == z) by {
            assert(exposed_in(s, r, t[k].x as int, t[k].y as int, t[k].z as int));
        }
    }
}

} // verus!
