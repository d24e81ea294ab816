//! Cube geometry: the fixed per-face tables and an append-only mesh
//! accumulator that turns block placements into vertex and index lists.
//!
//! Positions are kept in half-block units so that every cube corner lies on
//! an integer: the corner of a block at `(x, y, z)` is `2 * x ± 1` and so on.
use vstd::prelude::*;

verus! {

/// Number of textures in the block atlas; a texture id must be below it.
pub const TEXTURE_COUNT: u32 = 5;

/// Vertices emitted for one cube: 4 corners on each of 6 faces.
pub const VERTICES_PER_CUBE: usize = 24;

/// Indices emitted for one cube: 2 triangles on each of 6 faces.
pub const INDICES_PER_CUBE: usize = 36;

/// Largest number of cubes one mesh may hold, so that every index fits in `u32`.
pub const MAX_CUBES: usize = 150_000_000;

/// One face of a unit cube, in emission order.
#[derive(Clone, Copy, Debug, PartialEq, Eq, Structural)]
pub enum Face {
    Front,
    Back,
    Top,
    Bottom,
    Right,
    Left,
}

/// One block to be drawn: its cell within the chunk and its texture.
#[derive(Clone, Copy, Debug, PartialEq, Eq, Structural)]
pub struct BlockPlacement {
    pub x: i32,
    pub y: i32,
    pub z: i32,
    pub texture_id: u32,
}

/// One corner of one cube face.
///
/// `px`, `py`, `pz` are twice the corner's coordinates; `u`, `v` are the corner's
/// texture coordinates (each 0 or 1).
#[derive(Clone, Copy, Debug, PartialEq, Eq, Structural)]
pub struct Vertex {
    pub px: i64,
    pub py: i64,
    pub pz: i64,
    pub face: Face,
    pub u: u8,
    pub v: u8,
    pub texture_id: u32,
}

/// Ways in which a cube is refused by the mesh builder.
#[derive(Clone, Copy, Debug, PartialEq, Eq, Structural)]
pub enum MeshError {
    /// The texture id is not below `TEXTURE_COUNT`.
    InvalidTexture,
    /// The mesh already holds `MAX_CUBES` cubes.
    Full,
}

pub open spec fn face_at(f: int) -> Face {
    if f == 0 {
        Face::Front
    } else if f == 1 {
        Face::Back
    } else if f == 2 {
        Face::Top
    } else if f == 3 {
        Face::Bottom
    } else if f == 4 {
        Face::Right
    } else {
        Face::Left
    }
}

/// Outward unit normal of a face.
pub open spec fn face_normal(face: Face) -> (int, int, int) {
    match face {
        Face::Front => (0, 0, 1),
        Face::Back => (0, 0, -1),
        Face::Top => (0, 1, 0),
        Face::Bottom => (0, -1, 0),
        Face::Right => (1, 0, 0),
        Face::Left => (-1, 0, 0),
    }
}

/// Corner `k` (0..4) of a face, in half-block units relative to the cube's center.
pub open spec fn corner(face: Face, k: int) -> (int, int, int) {
    match face {
        Face::Front => if k == 0 { (-1, -1, 1) } else if k == 1 { (1, -1, 1) } else if k == 2 { (1, 1, 1) } else { (-1, 1, 1) },
        Face::Back => if k == 0 { (-1, -1, -1) } else if k == 1 { (1, -1, -1) } else if k == 2 { (1, 1, -1) } else { (-1, 1, -1) },
        Face::Top => if k == 0 { (-1, 1, -1) } else if k == 1 { (1, 1, -1) } else if k == 2 { (1, 1, 1) } else { (-1, 1, 1) },
        Face::Bottom => if k == 0 { (-1, -1, -1) } else if k == 1 { (1, -1, -1) } else if k == 2 { (1, -1, 1) } else { (-1, -1, 1) },
        Face::Right => if k == 0 { (1, -1, -1) } else if k == 1 { (1, -1, 1) } else if k == 2 { (1, 1, 1) } else { (1, 1, -1) },
        Face::Left => if k == 0 { (-1, -1, -1) } else if k == 1 { (-1, -1, 1) } else if k == 2 { (-1, 1, 1) } else { (-1, 1, -1) },
    }
}

/// Texture coordinates of corner `k` (0..4); the same on every face.
pub open spec fn corner_uv(k: int) -> (int, int) {
    if k == 0 {
        (0, 1)
    } else if k == 1 {
        (1, 1)
    } else if k == 2 {
        (0, 0)
    } else {
        (1, 0)
    }
}

/// Vertex `i` (0..24) of the cube drawn for `p`.
pub open spec fn cube_vertex(p: BlockPlacement, i: int) -> Vertex {
    let face = face_at(i / 4);
    let c = corner(face, i % 4);
    let uv = corner_uv(i % 4);
    Vertex {
        px: (2 * p.x + c.0) as i64,
        py: (2 * p.y + c.1) as i64,
        pz: (2 * p.z + c.2) as i64,
        face,
        u: uv.0 as u8,
        v: uv.1 as u8,
        texture_id: p.texture_id,
    }
}

/// The two triangles of a quad with corners 0..4.
pub open spec fn quad_index(j: int) -> int {
    if j == 0 {
        0
    } else if j == 1 {
        1
    } else if j == 2 {
        2
    } else if j == 3 {
        2
    } else if j == 4 {
        3
    } else {
        0
    }
}

/// Index `k` (0..36) of one cube, relative to the cube's first vertex.
pub open spec fn cube_index(k: int) -> int {
    4 * (k / 6) + quad_index(k % 6)
}

fn face_at_exec(f: usize) -> (r: Face)
    requires
        f < 6,
    ensures
        r == face_at(f as int),
{
    if f == 0 {
        Face::Front
    } else if f == 1 {
        Face::Back
    } else if f == 2 {
        Face::Top
    } else if f == 3 {
        Face::Bottom
    } else if f == 4 {
        Face::Right
    } else {
        Face::Left
    }
}

/// Outward unit normal of a face.
pub fn normal_of(face: Face) -> (r: (i8, i8, i8))
    ensures
        (r.0 as int, r.1 as int, r.2 as int) == face_normal(face),
{
    match face {
        Face::Front => (0, 0, 1),
        Face::Back => (0, 0, -1),
        Face::Top => (0, 1, 0),
        Face::Bottom => (0, -1, 0),
        Face::Right => (1, 0, 0),
        Face::Left => (-1, 0, 0),
    }
}

fn corner_exec(face: Face, k: usize) -> (r: (i64, i64, i64))
    requires
        k < 4,
    ensures
        (r.0 as int, r.1 as int, r.2 as int) == corner(face, k as int),
{
    match face {
        Face::Front => if k == 0 { (-1, -1, 1) } else if k == 1 { (1, -1, 1) } else if k == 2 { (1, 1, 1) } else { (-1, 1, 1) },
        Face::Back => if k == 0 { (-1, -1, -1) } else if k == 1 { (1, -1, -1) } else if k == 2 { (1, 1, -1) } else { (-1, 1, -1) },
        Face::Top => if k == 0 { (-1, 1, -1) } else if k == 1 { (1, 1, -1) } else if k == 2 { (1, 1, 1) } else { (-1, 1, 1) },
        Face::Bottom => if k == 0 { (-1, -1, -1) } else if k == 1 { (1, -1, -1) } else if k == 2 { (1, -1, 1) } else { (-1, -1, 1) },
        Face::Right => if k == 0 { (1, -1, -1) } else if k == 1 { (1, -1, 1) } else if k == 2 { (1, 1, 1) } else { (1, 1, -1) },
        Face::Left => if k == 0 { (-1, -1, -1) } else if k == 1 { (-1, -1, 1) } else if k == 2 { (-1, 1, 1) } else { (-1, 1, -1) },
    }
}

fn corner_uv_exec(k: usize) -> (r: (u8, u8))
    requires
        k < 4,
    ensures
        (r.0 as int, r.1 as int) == corner_uv(k as int),
{
    if k == 0 {
        (0, 1)
    } else if k == 1 {
        (1, 1)
    } else if k == 2 {
        (0, 0)
    } else {
        (1, 0)
    }
}

/// Index `k` (0..36) of one cube, relative to the cube's first vertex.
pub fn cube_index_exec(k: usize) -> (r: u32)
    requires
        k < INDICES_PER_CUBE,
    ensures
        r as int == cube_index(k as int),
        r < VERTICES_PER_CUBE,
{
    let j = k % 6;
    let q: u32 = if j == 0 {
        0
    } else if j == 1 {
        1
    } else if j == 2 {
        2
    } else if j == 3 {
        2
    } else if j == 4 {
        3
    } else {
        0
    };
    4 * ((k / 6) as u32) + q
}

/// The 24 vertices of a unit cube centered on the block `(x, y, z)`, all carrying `texture_id`.
pub fn create_single_tx_cube_vertices(x: i32, y: i32, z: i32, texture_id: u32) -> (r: Vec<Vertex>)
    ensures
        r@.len() == VERTICES_PER_CUBE,
        forall|i: int|
            0 <= i < VERTICES_PER_CUBE ==> r@[i] == cube_vertex(
                BlockPlacement { x, y, z, texture_id },
                i,
            ),
{
    let ghost p = BlockPlacement { x, y, z, texture_id };
    let mut out: Vec<Vertex> = Vec::new();
    let mut i: usize = 0;
    while i < VERTICES_PER_CUBE
        invariant
            i <= VERTICES_PER_CUBE,
            out@.len() == i,
            p == (BlockPlacement { x, y, z, texture_id }),
            forall|j: int| 0 <= j < i ==> out@[j] == cube_vertex(p, j),
        decreases VERTICES_PER_CUBE - i,
    {
        let face = face_at_exec(i / 4);
        let c = corner_exec(face, i % 4);
        let uv = corner_uv_exec(i % 4);
        let vert = Vertex {
            px: 2 * (x as i64) + c.0,
            py: 2 * (y as i64) + c.1,
            pz: 2 * (z as i64) + c.2,
            face,
            u: uv.0,
            v: uv.1,
            texture_id,
        };
        out.push(vert);
        i = i + 1;
    }
    out
}

/// One cube on its own: its 24 vertices and its 36 indices, counted from 0.
pub fn create_cube(x: i32, y: i32, z: i32, texture_id: u32) -> (r: (Vec<Vertex>, Vec<u32>))
    ensures
        r.0@.len() == VERTICES_PER_CUBE,
        r.1@.len() == INDICES_PER_CUBE,
        forall|i: int|
            0 <= i < VERTICES_PER_CUBE ==> r.0@[i] == cube_vertex(
                BlockPlacement { x, y, z, texture_id },
                i,
            ),
        forall|k: int| 0 <= k < INDICES_PER_CUBE ==> r.1@[k] as int == cube_index(k),
{
    let vertices = create_single_tx_cube_vertices(x, y, z, texture_id);
    let mut indices: Vec<u32> = Vec::new();
    let mut k: usize = 0;
    while k < INDICES_PER_CUBE
        invariant
            k <= INDICES_PER_CUBE,
            indices@.len() == k,
            forall|j: int| 0 <= j < k ==> indices@[j] as int == cube_index(j),
        decreases INDICES_PER_CUBE - k,
    {
        indices.push(cube_index_exec(k));
        k = k + 1;
    }
    (vertices, indices)
}

/// The vertex and index lists of one chunk, built one whole cube at a time.
pub struct ChunkData {
    pub vertices: Vec<Vertex>,
    pub indices: Vec<u32>,
    /// The cubes appended so far, in order.
    pub blocks: Ghost<Seq<BlockPlacement>>,
}

impl ChunkData {
    /// The vertices and indices are exactly those of the cubes in `blocks`, in order:
    /// cube `c` owns vertices `24c..24c+24` and indices `36c..36c+36`, and its
    /// indices are offset by its first vertex.
    pub open spec fn wf(&self) -> bool {
        let n = self.blocks@.len();
        &&& n <= MAX_CUBES
        &&& self.vertices@.len() == VERTICES_PER_CUBE * n
        &&& self.indices@.len() == INDICES_PER_CUBE * n
        &&& forall|c: int, i: int|
            0 <= c < n && 0 <= i < VERTICES_PER_CUBE ==> #[trigger] self.vertices@[VERTICES_PER_CUBE
                * c + i] == cube_vertex(self.blocks@[c], i)
        &&& forall|c: int, k: int|
            0 <= c < n && 0 <= k < INDICES_PER_CUBE ==> #[trigger] self.indices@[INDICES_PER_CUBE
                * c + k] as int == VERTICES_PER_CUBE * c + cube_index(k)
    }

    pub open spec fn view(&self) -> Seq<BlockPlacement> {
        self.blocks@
    }

    /// An empty mesh.
    pub fn new() -> (r: ChunkData)
        ensures
            r.wf(),
            r@ == Seq::<BlockPlacement>::empty(),
    {
        ChunkData { vertices: Vec::new(), indices: Vec::new(), blocks: Ghost(Seq::empty()) }
    }

    /// Number of cubes in the mesh.
    pub fn cube_count(&self) -> (r: usize)
        requires
            self.wf(),
        ensures
            r == self@.len(),
    {
        self.vertices.len() / VERTICES_PER_CUBE
    }

    /// Appends one cube for `p`: 24 vertices, and 36 indices offset by the vertex count
    /// before the call.
    ///
    /// A texture id at or above `TEXTURE_COUNT` is refused, as is a cube beyond
    /// `MAX_CUBES`; a refused cube leaves the mesh as it was.
    pub fn append_cube(&mut self, p: BlockPlacement) -> (r: Result<(), MeshError>)
        requires
            old(self).wf(),
        ensures
            final(self).wf(),
            p.texture_id >= TEXTURE_COUNT ==> r == Err::<(), MeshError>(MeshError::InvalidTexture),
            p.texture_id < TEXTURE_COUNT && old(self)@.len() == MAX_CUBES ==> r == Err::<(), MeshError>(MeshError::Full),
            p.texture_id < TEXTURE_COUNT && old(self)@.len() < MAX_CUBES ==> r == Ok::<(), MeshError>(()),
            r is Ok ==> final(self)@ == old(self)@.push(p),
            r is Err ==> final(self)@ == old(self)@,
            r is Err ==> final(self).vertices@ == old(self).vertices@ && final(self).indices@ == old(self).indices@,
            r is Ok ==> final(self).vertices@.len() == old(self).vertices@.len() + VERTICES_PER_CUBE
                && final(self).indices@.len() == old(self).indices@.len() + INDICES_PER_CUBE
                && final(self).vertices@.subrange(0, old(self).vertices@.len() as int) == old(self).vertices@
                && final(self).indices@.subrange(0, old(self).indices@.len() as int) == old(self).indices@,
            r is Ok ==> forall|k: int|
                old(self).indices@.len() <= k < final(self).indices@.len() ==> old(self).vertices@.len()
                    <= #[trigger] final(self).indices@[k] < final(self).vertices@.len(),
    {
        if p.texture_id >= TEXTURE_COUNT {
            return Err(MeshError::InvalidTexture);
        }
        if self.vertices.len() / VERTICES_PER_CUBE >= MAX_CUBES {
            return Err(MeshError::Full);
        }
        let ghost n = self.blocks@.len();
        let ghost old_vertices = self.vertices@;
        let ghost old_indices = self.indices@;
        let base = self.vertices.len() as u32;
        let cube = create_single_tx_cube_vertices(p.x, p.y, p.z, p.texture_id);
        let mut i: usize = 0;
        while i < VERTICES_PER_CUBE
            invariant
                i <= VERTICES_PER_CUBE,
                n < MAX_CUBES,
                cube@.len() == VERTICES_PER_CUBE,
                forall|j: int| 0 <= j < VERTICES_PER_CUBE ==> cube@[j] == cube_vertex(p, j),
                self.vertices@.len() == VERTICES_PER_CUBE * n + i,
                self.vertices@.subrange(0, VERTICES_PER_CUBE * n) == old_vertices,
                forall|j: int| 0 <= j < i ==> self.vertices@[VERTICES_PER_CUBE * n + j] == cube_vertex(p, j),
                self.indices@ == old_indices,
                self.blocks@ == old(self).blocks@,
            decreases VERTICES_PER_CUBE - i,
        {
            self.vertices.push(cube[i]);
            proof {
                assert(self.vertices@.subrange(0, VERTICES_PER_CUBE * n) =~= old_vertices);
            }
            i = i + 1;
        }
        let ghost new_vertices = self.vertices@;
        let mut k: usize = 0;
        while k < INDICES_PER_CUBE
            invariant
                k <= INDICES_PER_CUBE,
                n < MAX_CUBES,
                self.vertices@ == new_vertices,
                base as int == VERTICES_PER_CUBE * n,
                self.indices@.len() == INDICES_PER_CUBE * n + k,
                self.indices@.subrange(0, INDICES_PER_CUBE * n) == old_indices,
                forall|j: int|
                    0 <= j < k ==> self.indices@[INDICES_PER_CUBE * n + j] as int == VERTICES_PER_CUBE
                        * n + cube_index(j),
                self.blocks@ == old(self).blocks@,
            decreases INDICES_PER_CUBE - k,
        {
            let ci = cube_index_exec(k);
            self.indices.push(base + ci);
            proof {
                assert(self.indices@.subrange(0, INDICES_PER_CUBE * n) =~= old_indices);
            }
            k = k + 1;
        }
        let ghost old_blocks = self.blocks@;
        self.blocks = Ghost(old_blocks.push(p));
        proof {
            assert forall|k: int|
                old_indices.len() <= k < self.indices@.len() implies old_vertices.len() <= #[trigger] self.indices@[k]
                    < self.vertices@.len() by {
                let j = k - INDICES_PER_CUBE * n;
                assert(self.indices@[INDICES_PER_CUBE * n + j] as int == VERTICES_PER_CUBE * n + cube_index(j));
            }
        }
        proof {
            assert forall|c: int, i: int|
                0 <= c < n + 1 && 0 <= i < VERTICES_PER_CUBE implies #[trigger] self.vertices@[VERTICES_PER_CUBE
                    * c + i] == cube_vertex(self.blocks@[c], i) by {
                if c < n {
                    assert(24 * c + i < 24 * n) by (nonlinear_arith)
                        requires c < n, 0 <= i < 24;
                    assert(self.vertices@[VERTICES_PER_CUBE * c + i] == self.vertices@.subrange(
                        0,
                        VERTICES_PER_CUBE * n,
                    )[VERTICES_PER_CUBE * c + i]);
                }
            }
            assert forall|c: int, k: int|
                0 <= c < n + 1 && 0 <= k < INDICES_PER_CUBE implies #[trigger] self.indices@[INDICES_PER_CUBE
                    * c + k] as int == VERTICES_PER_CUBE * c + cube_index(k) by {
                if c < n {
                    assert(36 * c + k < 36 * n) by (nonlinear_arith)
                        requires c < n, 0 <= k < 36;
                    assert(self.indices@[INDICES_PER_CUBE * c + k] == self.indices@.subrange(
                        0,
                        INDICES_PER_CUBE * n,
                    )[INDICES_PER_CUBE * c + k]);
                }
            }
        }
        Ok(())
    }
}

/// Appends the cube for block `(x, y, z)` with `texture_id` to `data`.
pub fn add_block(x: i32, y: i32, z: i32, texture_id: u32, data: &mut ChunkData) -> (r: Result<(), MeshError>)
    requires
        old(data).wf(),
    ensures
        final(data).wf(),
        texture_id >= TEXTURE_COUNT ==> r == Err::<(), MeshError>(MeshError::InvalidTexture),
        texture_id < TEXTURE_COUNT && old(data)@.len() == MAX_CUBES ==> r == Err::<(), MeshError>(MeshError::Full),
        texture_id < TEXTURE_COUNT && old(data)@.len() < MAX_CUBES ==> r == Ok::<(), MeshError>(()),
        r is Ok ==> final(data)@ == old(data)@.push(BlockPlacement { x, y, z, texture_id }),
        r is Err ==> final(data)@ == old(data)@,
{
    data.append_cube(BlockPlacement { x, y, z, texture_id })
}

/// Every index of a well-formed mesh names one of its vertices; there are whole
/// triangles and whole cubes only.
pub proof fn lemma_mesh_well_formed(d: ChunkData)
    requires
        d.wf(),
    ensures
        forall|j: int| 0 <= j < d.indices@.len() ==> (#[trigger] d.indices@[j] as int) < d.vertices@.len(),
        d.indices@.len() % 3 == 0,
        d.vertices@.len() % 24 == 0,
{
    let n = d.blocks@.len();
    assert forall|j: int| 0 <= j < d.indices@.len() implies (#[trigger] d.indices@[j] as int) < d.vertices@.len() by {
        let c = j / 36;
        let k = j % 36;
        assert(j == 36 * c + k);
        assert(0 <= c < n) by (nonlinear_arith)
            requires j == 36 * c + k, 0 <= k < 36, 0 <= j < 36 * n;
        assert(d.indices@[INDICES_PER_CUBE * c + k] as int == VERTICES_PER_CUBE * c + cube_index(k));
        assert(cube_index(k) < 24);
    }
}

/// A row of `num_cubes` cubes two blocks apart, centered on `x = 0`, three
/// blocks below the origin.
pub fn generate_world(num_cubes: usize) -> (r: ChunkData)
    requires
        num_cubes <= 1_000_000,
    ensures
        r.wf(),
        r@ == Seq::new(
            num_cubes as nat,
            |i: int| BlockPlacement { x: (2 * i - (num_cubes as int - 1)) as i32, y: -3i32, z: 0i32, texture_id: 0u32 },
        ),
{
    let ghost row = Seq::new(
        num_cubes as nat,
        |i: int| BlockPlacement { x: (2 * i - (num_cubes as int - 1)) as i32, y: -3i32, z: 0i32, texture_id: 0u32 },
    );
    let mut data = ChunkData::new();
    let mut i: usize = 0;
    while i < num_cubes
        invariant
            i <= num_cubes <= 1_000_000,
            data.wf(),
            data@ == row.subrange(0, i as int),
            row.len() == num_cubes,
            forall|k: int| 0 <= k < num_cubes ==> #[trigger] row[k] == (BlockPlacement { x: (2 * k - (num_cubes as int - 1)) as i32, y: -3i32, z: 0i32, texture_id: 0u32 }),
        decreases num_cubes - i,
    {
        let x = (2 * i as i64 - (num_cubes as i64 - 1)) as i32;
        let res = data.append_cube(BlockPlacement { x, y: -3i32, z: 0i32, texture_id: 0u32 });
        assert(res is Ok);
        assert(data@ =~= row.subrange(0, i + 1));
        i = i + 1;
    }
    assert(row.subrange(0, num_cubes as int) =~= row);
    data
}

} // verus!
