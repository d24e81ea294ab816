//! Further generation strategies over a chunk's columns: a dense flat floor, a
//! dense noise-driven fill, and culled relief (mountains, spirals) over a
//! height field computed elsewhere.
use vstd::prelude::*;
use crate::biome::NOISE_SCALE;
use crate::chunk::GridCoordinate;
use crate::mesh::BlockPlacement;
use crate::terrain::{
    at, exposed, hval, is_block_exposed, is_extended_map, ChunkSamples, CHUNK_SIZE, COLUMNS, EXTENDED_SIZE,
};

verus! {

/// Every block of the first `c_end` columns from 0 up to `height`, column by column.
pub open spec fn flat_blocks(height: int, texture_id: u32, c_end: int) -> Seq<BlockPlacement>
    decreases c_end,
{
    if c_end <= 0 {
        Seq::empty()
    } else {
        let c = c_end - 1;
        flat_blocks(height, texture_id, c) + Seq::new(
            (if height >= 0 {
                height + 1
            } else {
                0
            }) as nat,
            |y: int| BlockPlacement { x: (c / 16) as i32, y: y as i32, z: (c % 16) as i32, texture_id },
        )
    }
}

/// Appends every block of every column from 0 up to `flat_height`, with no culling.
pub fn generate_flat_terrain(flat_height: i32, texture_id: u32, out: &mut Vec<BlockPlacement>)
    ensures
        final(out)@ == old(out)@ + flat_blocks(flat_height as int, texture_id, COLUMNS as int),
{
    let ghost start = out@;
    let ghost count: int = if flat_height >= 0 {
        flat_height + 1
    } else {
        0
    };
    let mut c: usize = 0;
    while c < COLUMNS
        invariant
            c <= COLUMNS,
            count == (if flat_height >= 0 { flat_height + 1 } else { 0 }),
            out@ == start + flat_blocks(flat_height as int, texture_id, c as int),
        decreases COLUMNS - c,
    {
        let x = (c / 16) as i32;
        let z = (c % 16) as i32;
        let ghost col = Seq::new(
            count as nat,
            |y: int| BlockPlacement { x: (c as int / 16) as i32, y: y as i32, z: (c as int % 16) as i32, texture_id },
        );
        let ghost before = out@;
        let mut y: i64 = 0;
        while y <= flat_height as i64
            invariant
                0 <= y,
                y <= count,
                count == (if flat_height >= 0 { flat_height + 1 } else { 0 }),
                x as int == c as int / 16,
                z as int == c as int % 16,
                col.len() == count,
                forall|k: int| 0 <= k < col.len() ==> #[trigger] col[k] == (BlockPlacement { x, y: k as i32, z, texture_id }),
                out@ == before + col.subrange(0, y as int),
            decreases flat_height + 1 - y,
        {
            out.push(BlockPlacement { x, y: y as i32, z, texture_id });
            assert(out@ =~= before + col.subrange(0, y + 1));
            y = y + 1;
        }
        assert(col.subrange(0, y as int) =~= col);
        assert(out@ =~= start + flat_blocks(flat_height as int, texture_id, c + 1));
        c = c + 1;
    }
}

/// Height of the dense fill at extended cell `(i, j)`: the noise mapped from
/// `[-1, 1]` onto `[0, height_scale]` (rounded down), plus `base_height`.
pub open spec fn fill_height(s: &ChunkSamples, height_scale: int, base_height: int, i: int, j: int) -> int {
    (at(s.elevation@, i, j) + NOISE_SCALE) * height_scale / (2 * NOISE_SCALE as int) + base_height
}

/// Every block below the fill height of the first `c_end` columns.
pub open spec fn fill_blocks(
    s: &ChunkSamples,
    height_scale: int,
    base_height: int,
    texture_id: u32,
    c_end: int,
) -> Seq<BlockPlacement>
    decreases c_end,
{
    if c_end <= 0 {
        Seq::empty()
    } else {
        let c = c_end - 1;
        let h = fill_height(s, height_scale, base_height, c / 16 + 1, c % 16 + 1);
        fill_blocks(s, height_scale, base_height, texture_id, c) + Seq::new(
            (if h > 0 {
                h
            } else {
                0
            }) as nat,
            |y: int| BlockPlacement { x: (c / 16) as i32, y: y as i32, z: (c % 16) as i32, texture_id },
        )
    }
}

/// Appends, for every column, every block below its noise-driven fill height,
/// with no culling. Fill heights lie in `[base_height, base_height + height_scale]`,
/// which must fit in `i32`.
pub fn generate_terrain_chunk(
    s: &ChunkSamples,
    height_scale: i32,
    base_height: i32,
    texture_id: u32,
    out: &mut Vec<BlockPlacement>,
)
    requires
        s.wf(),
        0 <= height_scale,
        base_height + height_scale <= i32::MAX,
    ensures
        final(out)@ == old(out)@ + fill_blocks(s, height_scale as int, base_height as int, texture_id, COLUMNS as int),
{
    let ghost start = out@;
    let mut c: usize = 0;
    while c < COLUMNS
        invariant
            c <= COLUMNS,
            s.wf(),
            0 <= height_scale,
            base_height + height_scale <= i32::MAX,
            out@ == start + fill_blocks(s, height_scale as int, base_height as int, texture_id, c as int),
        decreases COLUMNS - c,
    {
        let x = c / 16;
        let z = c % 16;
        let k = (x + 1) * EXTENDED_SIZE + (z + 1);
        assert(k < EXTENDED_SIZE * EXTENDED_SIZE);
        let n = s.elevation[k] as i64;
        let hs = height_scale as i64;
        assert(0 <= (n + NOISE_SCALE) * hs <= 2 * NOISE_SCALE * hs) by (nonlinear_arith)
            requires
                -NOISE_SCALE <= n <= NOISE_SCALE,
                0 <= hs;
        assert(2 * NOISE_SCALE * hs <= 2 * NOISE_SCALE * 0x7fff_ffff) by (nonlinear_arith)
            requires 0 <= hs <= 0x7fff_ffff;
        let lift = (n + NOISE_SCALE as i64) * hs / (2 * NOISE_SCALE as i64);
        assert(0 <= lift <= hs) by (nonlinear_arith)
            requires
                lift == (n + NOISE_SCALE) * hs / (2 * NOISE_SCALE),
                0 <= (n + NOISE_SCALE) * hs <= 2 * NOISE_SCALE * hs;
        let h = (lift + base_height as i64) as i32;
        assert(h as int == fill_height(s, height_scale as int, base_height as int, x + 1, z + 1));
        let ghost col = Seq::new(
            (if h > 0 {
                h as int
            } else {
                0
            }) as nat,
            |y: int| BlockPlacement { x: (c as int / 16) as i32, y: y as i32, z: (c as int % 16) as i32, texture_id },
        );
        let ghost before = out@;
        let mut y: i32 = 0;
        while y < h
            invariant
                0 <= y,
                h > 0 ==> y <= h,
                h <= 0 ==> y == 0,
                x as int == c as int / 16,
                z as int == c as int % 16,
                forall|k: int| 0 <= k < col.len() ==> #[trigger] col[k] == (BlockPlacement { x: x as i32, y: k as i32, z: z as i32, texture_id }),
                col.len() == (if h > 0 { h as int } else { 0 }),
                out@ == before + col.subrange(0, y as int),
            decreases h - y,
        {
            out.push(BlockPlacement { x: x as i32, y, z: z as i32, texture_id });
            assert(out@ =~= before + col.subrange(0, y + 1));
            y = y + 1;
        }
        assert(col.subrange(0, y as int) =~= col);
        assert(out@ =~= start + fill_blocks(s, height_scale as int, base_height as int, texture_id, c + 1));
        c = c + 1;
    }
}

/// `round(n * height_scale)` for a noise sample `n` scaled by `NOISE_SCALE`
/// (halves round up).
pub open spec fn rounded_lift(n: int, height_scale: int) -> int {
    (2 * (n + NOISE_SCALE) * height_scale + NOISE_SCALE) / (2 * NOISE_SCALE as int) - height_scale
}

/// Builds the extended height field of a mountain range: at each cell the
/// elevation noise times `height_scale`, rounded, plus `flat_height`. Heights
/// lie in `[flat_height - height_scale, flat_height + height_scale]`, which
/// must fit in `i32`.
pub fn mountain_height_map(s: &ChunkSamples, height_scale: i32, flat_height: i32) -> (hm: Vec<Vec<i32>>)
    requires
        s.wf(),
        0 <= height_scale,
        i32::MIN <= flat_height - height_scale,
        flat_height + height_scale <= i32::MAX,
    ensures
        is_extended_map(hm@),
        forall|i: int, j: int|
            0 <= i < EXTENDED_SIZE && 0 <= j < EXTENDED_SIZE ==> #[trigger] hval(hm@, i, j) == rounded_lift(
                at(s.elevation@, i, j),
                height_scale as int,
            ) + flat_height,
{
    let mut hm: Vec<Vec<i32>> = Vec::new();
    let mut i: usize = 0;
    while i < EXTENDED_SIZE
        invariant
            i <= EXTENDED_SIZE,
            s.wf(),
            0 <= height_scale,
            i32::MIN <= flat_height - height_scale,
            flat_height + height_scale <= i32::MAX,
            hm@.len() == i,
            forall|a: int| 0 <= a < i ==> (#[trigger] hm@[a])@.len() == EXTENDED_SIZE,
            forall|a: int, j: int|
                0 <= a < i && 0 <= j < EXTENDED_SIZE ==> #[trigger] hval(hm@, a, j) == rounded_lift(
                    at(s.elevation@, a, j),
                    height_scale as int,
                ) + flat_height,
        decreases EXTENDED_SIZE - i,
    {
        let mut row: Vec<i32> = Vec::new();
        let mut j: usize = 0;
        while j < EXTENDED_SIZE
            invariant
                i < EXTENDED_SIZE,
                j <= EXTENDED_SIZE,
                s.wf(),
                0 <= height_scale,
                i32::MIN <= flat_height - height_scale,
                flat_height + height_scale <= i32::MAX,
                row@.len() == j,
                forall|b: int|
                    0 <= b < j ==> #[trigger] row@[b] as int == rounded_lift(at(s.elevation@, i as int, b), height_scale as int)
                        + flat_height,
            decreases EXTENDED_SIZE - j,
        {
            let k = i * EXTENDED_SIZE + j;
            assert(0 <= k < EXTENDED_SIZE * EXTENDED_SIZE) by (nonlinear_arith)
                requires k == i * 18 + j, i < 18, j < 18;
            let n = s.elevation[k] as i64;
            let hs = height_scale as i64;
            assert(0 <= 2 * (n + NOISE_SCALE) * hs <= 4 * NOISE_SCALE * hs) by (nonlinear_arith)
                requires
                    -NOISE_SCALE <= n <= NOISE_SCALE,
                    0 <= hs;
            assert(4 * NOISE_SCALE * hs <= 4 * NOISE_SCALE * 0x7fff_ffff) by (nonlinear_arith)
                requires 0 <= hs <= 0x7fff_ffff;
            let num = 2 * (n + NOISE_SCALE as i64) * hs + NOISE_SCALE as i64;
            let q = num / (2 * NOISE_SCALE as i64);
            assert(0 <= q <= 2 * hs) by (nonlinear_arith)
                requires
                    q == num as int / (2 * NOISE_SCALE as int),
                    NOISE_SCALE <= num <= 4 * NOISE_SCALE * hs + NOISE_SCALE,
                    0 <= hs;
            let h = (q - hs + flat_height as i64) as i32;
            row.push(h);
            j = j + 1;
        }
        let ghost prev = hm@;
        hm.push(row);
        proof {
            assert forall|a: int, j: int|
                0 <= a < i + 1 && 0 <= j < EXTENDED_SIZE implies #[trigger] hval(hm@, a, j) == rounded_lift(
                    at(s.elevation@, a, j),
                    height_scale as int,
                ) + flat_height by {
                if a < i {
                    assert(hm@[a] == prev[a]);
                    assert(hval(hm@, a, j) == hval(prev, a, j));
                } else {
                    assert(hm@[a]@ == row@);
                    assert(hval(hm@, a, j) == row@[j] as int);
                }
            }
        }
        i = i + 1;
    }
    hm
}

/// How relief blocks are textured.
pub enum ReliefTexture {
    /// `lower` up to `lower_portion_height` above the flat floor, `upper` above it.
    ByHeight { upper: u32, lower: u32, lower_portion_height: i32 },
    /// Per column: `first` (row-major over the chunk's columns) picks `texture_1`,
    /// else `texture_2`.
    ByColumn { first: Vec<bool>, texture_1: u32, texture_2: u32 },
}

impl ReliefTexture {
    pub open spec fn wf(&self) -> bool {
        match self {
            ReliefTexture::ByHeight { .. } => true,
            ReliefTexture::ByColumn { first, .. } => first@.len() == COLUMNS,
        }
    }

    pub open spec fn texture(&self, flat: int, x: int, z: int, y: int) -> u32 {
        match self {
            ReliefTexture::ByHeight { upper, lower, lower_portion_height } => if y <= flat
                + *lower_portion_height {
                *lower
            } else {
                *upper
            },
            ReliefTexture::ByColumn { first, texture_1, texture_2 } => if first@[x * 16 + z] {
                *texture_1
            } else {
                *texture_2
            },
        }
    }

    fn texture_exec(&self, flat: i32, x: usize, z: usize, y: i32) -> (r: u32)
        requires
            self.wf(),
            x < 16,
            z < 16,
        ensures
            r == self.texture(flat as int, x as int, z as int, y as int),
    {
        match self {
            ReliefTexture::ByHeight { upper, lower, lower_portion_height } => {
                if (y as i64) <= flat as i64 + *lower_portion_height as i64 {
                    *lower
                } else {
                    *upper
                }
            },
            ReliefTexture::ByColumn { first, texture_1, texture_2 } => {
                if first[x * 16 + z] {
                    *texture_1
                } else {
                    *texture_2
                }
            },
        }
    }
}

/// Exposed blocks of local column `(x, z)` above `flat` and below `y_end`, bottom up.
pub open spec fn relief_column(
    hm: Seq<Vec<i32>>,
    flat: int,
    rule: &ReliefTexture,
    x: int,
    z: int,
    y_end: int,
) -> Seq<BlockPlacement>
    decreases y_end - flat,
{
    if y_end <= flat + 1 {
        Seq::empty()
    } else {
        let prev = relief_column(hm, flat, rule, x, z, y_end - 1);
        let y = y_end - 1;
        if exposed(hm, x, y, z) {
            prev.push(BlockPlacement { x: x as i32, y: y as i32, z: z as i32, texture_id: rule.texture(flat, x, z, y) })
        } else {
            prev
        }
    }
}

/// Relief blocks of the first `c_end` columns.
pub open spec fn relief_blocks(hm: Seq<Vec<i32>>, flat: int, rule: &ReliefTexture, c_end: int) -> Seq<BlockPlacement>
    decreases c_end,
{
    if c_end <= 0 {
        Seq::empty()
    } else {
        let c = c_end - 1;
        let x = c / 16;
        let z = c % 16;
        relief_blocks(hm, flat, rule, c) + relief_column(hm, flat, rule, x, z, hval(hm, x + 1, z + 1) + 1)
    }
}

/// Appends, for every column, the exposed blocks strictly above `flat_height`
/// up to the column's height in `height_map`, textured by `rule`.
pub fn generate_relief(
    height_map: &Vec<Vec<i32>>,
    flat_height: i32,
    rule: &ReliefTexture,
    out: &mut Vec<BlockPlacement>,
)
    requires
        is_extended_map(height_map@),
        rule.wf(),
    ensures
        final(out)@ == old(out)@ + relief_blocks(height_map@, flat_height as int, rule, COLUMNS as int),
{
    let ghost start = out@;
    let ghost hm = height_map@;
    let mut c: usize = 0;
    while c < COLUMNS
        invariant
            c <= COLUMNS,
            hm == height_map@,
            is_extended_map(hm),
            rule.wf(),
            out@ == start + relief_blocks(hm, flat_height as int, rule, c as int),
        decreases COLUMNS - c,
    {
        let x = c / 16;
        let z = c % 16;
        let h = height_map[x + 1][z + 1];
        assert(h as int == hval(hm, x + 1, z + 1));
        let ghost before = out@;
        let mut y: i64 = flat_height as i64 + 1;
        while y <= h as i64
            invariant
                flat_height + 1 <= y,
                y <= h + 1 || y == flat_height + 1,
                x < 16 && z < 16,
                hm == height_map@,
                is_extended_map(hm),
                rule.wf(),
                out@ == before + relief_column(hm, flat_height as int, rule, x as int, z as int, y as int),
            decreases h + 1 - y,
        {
            let yi = y as i32;
            if is_block_exposed(x, yi, z, height_map) {
                let t = rule.texture_exec(flat_height, x, z, yi);
                out.push(BlockPlacement { x: x as i32, y: yi, z: z as i32, texture_id: t });
            }
            proof {
                let col = relief_column(hm, flat_height as int, rule, x as int, z as int, y as int);
                if exposed(hm, x as int, y as int, z as int) {
                    let p = BlockPlacement {
                        x: x as i32,
                        y: yi,
                        z: z as i32,
                        texture_id: rule.texture(flat_height as int, x as int, z as int, y as int),
                    };
                    assert(out@ =~= before + col.push(p));
                }
            }
            y = y + 1;
        }
        proof {
            let y_end = h as int + 1;
            if y_end <= flat_height + 1 {
                assert(relief_column(hm, flat_height as int, rule, x as int, z as int, y_end) =~= Seq::empty());
                assert(relief_column(hm, flat_height as int, rule, x as int, z as int, y as int) =~= Seq::empty());
            }
            assert(x as int == c as int / 16 && z as int == c as int % 16);
            assert(out@ =~= start + relief_blocks(hm, flat_height as int, rule, c + 1));
        }
        c = c + 1;
    }
}

/// Appends the culled blocks of a mountain range above `flat_height`: the lower
/// texture up to `lower_portion_height` above the floor, the upper one above.
pub fn generate_mountainous_terrain(
    height_map: &Vec<Vec<i32>>,
    flat_height: i32,
    upper_texture_id: u32,
    lower_texture_id: u32,
    lower_portion_height: i32,
    out: &mut Vec<BlockPlacement>,
)
    requires
        is_extended_map(height_map@),
    ensures
        final(out)@ == old(out)@ + relief_blocks(
            height_map@,
            flat_height as int,
            &ReliefTexture::ByHeight {
                upper: upper_texture_id,
                lower: lower_texture_id,
                lower_portion_height,
            },
            COLUMNS as int,
        ),
{
    let rule = ReliefTexture::ByHeight {
        upper: upper_texture_id,
        lower: lower_texture_id,
        lower_portion_height,
    };
    generate_relief(height_map, flat_height, &rule, out);
}

/// Appends the culled blocks of a spiral mountain above `flat_height`, each
/// column textured `texture_id_1` where `first` holds and `texture_id_2` elsewhere.
pub fn generate_spiral_mountain_terrain(
    height_map: &Vec<Vec<i32>>,
    flat_height: i32,
    first: Vec<bool>,
    texture_id_1: u32,
    texture_id_2: u32,
    out: &mut Vec<BlockPlacement>,
)
    requires
        is_extended_map(height_map@),
        first@.len() == COLUMNS,
    ensures
        final(out)@ == old(out)@ + relief_blocks(
            height_map@,
            flat_height as int,
            &ReliefTexture::ByColumn { first, texture_1: texture_id_1, texture_2: texture_id_2 },
            COLUMNS as int,
        ),
{
    let rule = ReliefTexture::ByColumn { first, texture_1: texture_id_1, texture_2: texture_id_2 };
    generate_relief(height_map, flat_height, &rule, out);
}

/// Placements of one chunk under construction, with its grid position and flat floor.
pub struct Terrain {
    pub chunk_position: GridCoordinate,
    pub flat_height: i32,
    pub placements: Vec<BlockPlacement>,
}

pub open spec fn raised(flat_height: i32, add_height: Option<i32>) -> int {
    flat_height + match add_height {
        Some(a) => a as int,
        None => 0,
    }
}

impl Terrain {
    pub fn new(flat_height: i32, placements: Vec<BlockPlacement>, chunk_position: GridCoordinate) -> (r: Terrain)
        ensures
            r.flat_height == flat_height,
            r.placements@ == placements@,
            r.chunk_position == chunk_position,
    {
        Terrain { chunk_position, flat_height, placements }
    }

    /// Appends a dense floor up to the flat height raised by `add_height` (none: 0).
    pub fn generate_flat_terrain(&mut self, add_height: Option<i32>, texture_id: u32)
        requires
            i32::MIN <= raised(old(self).flat_height, add_height) <= i32::MAX,
        ensures
            final(self).placements@ == old(self).placements@ + flat_blocks(
                raised(old(self).flat_height, add_height),
                texture_id,
                COLUMNS as int,
            ),
            final(self).flat_height == old(self).flat_height,
            final(self).chunk_position == old(self).chunk_position,
    {
        let add: i64 = match add_height {
            Some(a) => a as i64,
            None => 0,
        };
        let height = (self.flat_height as i64 + add) as i32;
        generate_flat_terrain(height, texture_id, &mut self.placements);
    }
}

/// Whether block `(x, y, z)` of the world lies in the chunk at `position`.
pub fn is_position_in_chunk(x: i32, y: i32, z: i32, position: GridCoordinate) -> (r: bool)
    ensures
        r == (position.x * 16 <= x < position.x * 16 + 16 && position.y * 16 <= y < position.y * 16 + 16
            && position.z * 16 <= z < position.z * 16 + 16),
{
    let (x, y, z) = (x as i64, y as i64, z as i64);
    let cx = position.x as i64 * CHUNK_SIZE as i64;
    let cy = position.y as i64 * CHUNK_SIZE as i64;
    let cz = position.z as i64 * CHUNK_SIZE as i64;
    cx <= x && x < cx + 16 && cy <= y && y < cy + 16 && cz <= z && z < cz + 16
}

} // verus!
