//! Texture-atlas coordinates, in atlas pixels, for the tiles each block kind
//! shows on its six faces. The table is built once and passed around.
use vstd::prelude::*;
use crate::mesh::{corner, create_single_tx_cube_vertices, cube_vertex, face_at, BlockPlacement, Face};

verus! {

/// Edge of one tile in the atlas, in pixels.
pub const TILE_SIZE: u32 = 64;

/// Edge of the atlas, in pixels.
pub const ATLAS_SIZE: u32 = 1024;

/// Largest tile column or row that `calculate_tile_uvs` accepts.
pub const MAX_TILE: u32 = 1_000_000;

/// One corner of a tile, in atlas pixels; divide by `ATLAS_SIZE` for a texture coordinate.
#[derive(Clone, Copy, Debug, PartialEq, Eq, Structural)]
pub struct AtlasPoint {
    pub u: u32,
    pub v: u32,
}

/// The corners of one tile: bottom-left, bottom-right, top-right, top-left.
#[derive(Clone, Copy, Debug, PartialEq, Eq, Structural)]
pub struct TileUvs {
    pub bottom_left: AtlasPoint,
    pub bottom_right: AtlasPoint,
    pub top_right: AtlasPoint,
    pub top_left: AtlasPoint,
}

/// The tile shown on each face of a block.
#[derive(Clone, Copy, Debug, PartialEq, Eq, Structural)]
pub struct FaceUVs {
    pub front: TileUvs,
    pub back: TileUvs,
    pub top: TileUvs,
    pub bottom: TileUvs,
    pub right: TileUvs,
    pub left: TileUvs,
}

/// Block kinds that have an entry in the table.
#[derive(Clone, Copy, Debug, PartialEq, Eq, Structural)]
pub enum BlockKind {
    Grass,
    LightGrass,
    DarkGrass,
}

/// The face table of every block kind.
#[derive(Clone, Copy, Debug, PartialEq, Eq, Structural)]
pub struct UvTable {
    pub grass: FaceUVs,
    pub light_grass: FaceUVs,
    pub dark_grass: FaceUVs,
}

pub open spec fn tile_spec(tile_x: int, tile_y: int) -> TileUvs {
    let u1 = tile_x * TILE_SIZE;
    let v1 = tile_y * TILE_SIZE;
    let u2 = u1 + TILE_SIZE;
    let v2 = v1 + TILE_SIZE;
    TileUvs {
        bottom_left: AtlasPoint { u: u1 as u32, v: v1 as u32 },
        bottom_right: AtlasPoint { u: u2 as u32, v: v1 as u32 },
        top_right: AtlasPoint { u: u2 as u32, v: v2 as u32 },
        top_left: AtlasPoint { u: u1 as u32, v: v2 as u32 },
    }
}

/// Every face shows the same tile.
pub open spec fn uniform(t: TileUvs) -> FaceUVs {
    FaceUVs { front: t, back: t, top: t, bottom: t, right: t, left: t }
}

/// The corners of tile `(tile_x, tile_y)` of the atlas.
pub fn calculate_tile_uvs(tile_x: u32, tile_y: u32) -> (r: TileUvs)
    requires
        tile_x <= MAX_TILE,
        tile_y <= MAX_TILE,
    ensures
        r == tile_spec(tile_x as int, tile_y as int),
{
    let u1 = tile_x * TILE_SIZE;
    let v1 = tile_y * TILE_SIZE;
    let u2 = u1 + TILE_SIZE;
    let v2 = v1 + TILE_SIZE;
    TileUvs {
        bottom_left: AtlasPoint { u: u1, v: v1 },
        bottom_right: AtlasPoint { u: u2, v: v1 },
        top_right: AtlasPoint { u: u2, v: v2 },
        top_left: AtlasPoint { u: u1, v: v2 },
    }
}

/// Builds the table: grass shows its side tile `(3, 15)` on the four sides,
/// `(0, 16)` on top and `(2, 16)` below; light grass shows `(13, 2)` and dark
/// grass `(13, 0)` on every face.
pub fn init_uvs() -> (r: UvTable)
    ensures
        r.grass == (FaceUVs {
            front: tile_spec(3, 15),
            back: tile_spec(3, 15),
            top: tile_spec(0, 16),
            bottom: tile_spec(2, 16),
            right: tile_spec(3, 15),
            left: tile_spec(3, 15),
        }),
        r.light_grass == uniform(tile_spec(13, 2)),
        r.dark_grass == uniform(tile_spec(13, 0)),
{
    let side = calculate_tile_uvs(3, 15);
    let grass = FaceUVs {
        front: side,
        back: side,
        top: calculate_tile_uvs(0, 16),
        bottom: calculate_tile_uvs(2, 16),
        right: side,
        left: side,
    };
    let light = calculate_tile_uvs(13, 2);
    let dark = calculate_tile_uvs(13, 0);
    UvTable {
        grass,
        light_grass: FaceUVs { front: light, back: light, top: light, bottom: light, right: light, left: light },
        dark_grass: FaceUVs { front: dark, back: dark, top: dark, bottom: dark, right: dark, left: dark },
    }
}

/// The face table of one block kind.
pub fn get_uvs(table: &UvTable, kind: BlockKind) -> (r: FaceUVs)
    ensures
        r == match kind {
            BlockKind::Grass => table.grass,
            BlockKind::LightGrass => table.light_grass,
            BlockKind::DarkGrass => table.dark_grass,
        },
{
    match kind {
        BlockKind::Grass => table.grass,
        BlockKind::LightGrass => table.light_grass,
        BlockKind::DarkGrass => table.dark_grass,
    }
}

/// One corner of a cube centered on the origin, with its atlas coordinates;
/// `px`, `py`, `pz` are twice the corner's coordinates.
#[derive(Clone, Copy, Debug, PartialEq, Eq, Structural)]
pub struct AtlasVertex {
    pub px: i64,
    pub py: i64,
    pub pz: i64,
    pub face: Face,
    pub uv: AtlasPoint,
}

/// Corner `k` (0..4) of a tile, in the order the cube's face corners use.
pub open spec fn tile_corner(t: TileUvs, k: int) -> AtlasPoint {
    if k == 0 {
        t.bottom_left
    } else if k == 1 {
        t.bottom_right
    } else if k == 2 {
        t.top_right
    } else {
        t.top_left
    }
}

pub open spec fn atlas_vertex(uvs: TileUvs, top_uvs: TileUvs, i: int) -> AtlasVertex {
    let face = face_at(i / 4);
    let c = corner(face, i % 4);
    AtlasVertex {
        px: c.0 as i64,
        py: c.1 as i64,
        pz: c.2 as i64,
        face,
        uv: tile_corner(if face == Face::Top { top_uvs } else { uvs }, i % 4),
    }
}

/// The 24 corners of a unit cube at the origin: the top face shows `top_uvs`,
/// the other faces `uvs`.
pub fn create_cube_vertices(uvs: &TileUvs, top_uvs: &TileUvs) -> (r: Vec<AtlasVertex>)
    ensures
        r@.len() == 24,
        forall|i: int| 0 <= i < 24 ==> r@[i] == atlas_vertex(*uvs, *top_uvs, i),
{
    let corners = create_single_tx_cube_vertices(0, 0, 0, 0);
    let mut out: Vec<AtlasVertex> = Vec::new();
    let mut i: usize = 0;
    while i < 24
        invariant
            i <= 24,
            corners@.len() == 24,
            forall|j: int|
                0 <= j < 24 ==> corners@[j] == cube_vertex(
                    BlockPlacement { x: 0, y: 0, z: 0, texture_id: 0 },
                    j,
                ),
            out@.len() == i,
            forall|j: int| 0 <= j < i ==> out@[j] == atlas_vertex(*uvs, *top_uvs, j),
        decreases 24 - i,
    {
        let v = corners[i];
        let tile = if v.face == Face::Top {
            *top_uvs
        } else {
            *uvs
        };
        let k = i % 4;
        let uv = if k == 0 {
            tile.bottom_left
        } else if k == 1 {
            tile.bottom_right
        } else if k == 2 {
            tile.top_right
        } else {
            tile.top_left
        };
        out.push(AtlasVertex { px: v.px, py: v.py, pz: v.pz, face: v.face, uv });
        i = i + 1;
    }
    out
}

} // verus!
