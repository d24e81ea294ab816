//! A chunk: one grid cell of the world and the mesh synthesized for it.
use vstd::prelude::*;
use crate::biome::NoiseSource;
use crate::mesh::{BlockPlacement, ChunkData, MeshError, Vertex, MAX_CUBES, TEXTURE_COUNT};
use crate::terrain::{
    chunk_blocks, generate_chunk, lemma_sampled_unique, lemma_synthesis_deterministic, sample_chunk,
    sampled_from, ChunkSamples, TerrainConfig,
};

verus! {

/// Identity of a chunk in the chunk grid; `y` is 0 for every chunk the world streams.
#[derive(Clone, Copy, Debug, PartialEq, Eq, Structural, Hash)]
pub struct GridCoordinate {
    pub x: i32,
    pub y: i32,
    pub z: i32,
}

/// A resident grid cell and its geometry.
pub struct Chunk {
    pub position: GridCoordinate,
    pub chunk_data: ChunkData,
}

/// Builds the mesh of a list of placements, one cube each, in order.
pub fn build_mesh(placements: &Vec<BlockPlacement>) -> (r: ChunkData)
    requires
        placements@.len() <= MAX_CUBES,
        forall|k: int| 0 <= k < placements@.len() ==> (#[trigger] placements@[k]).texture_id < TEXTURE_COUNT,
    ensures
        r.wf(),
        r@ == placements@,
{
    let mut data = ChunkData::new();
    let mut i: usize = 0;
    while i < placements.len()
        invariant
            i <= placements@.len(),
            placements@.len() <= MAX_CUBES,
            forall|k: int| 0 <= k < placements@.len() ==> (#[trigger] placements@[k]).texture_id < TEXTURE_COUNT,
            data.wf(),
            data@ == placements@.subrange(0, i as int),
        decreases placements@.len() - i,
    {
        let res = data.append_cube(placements[i]);
        assert(res is Ok);
        assert(data@ =~= placements@.subrange(0, i + 1));
        i = i + 1;
    }
    assert(placements@.subrange(0, placements@.len() as int) =~= placements@);
    data
}

/// `c` is the chunk synthesized at its position from the samples of `source`.
pub open spec fn synthesized_for<S: NoiseSource>(source: &S, config: TerrainConfig, c: &Chunk) -> bool {
    &&& c.wf()
    &&& forall|s: ChunkSamples|
        #[trigger] sampled_from(source, config.seed, c.position.x, c.position.z, &s) ==> c.chunk_data@
            == chunk_blocks(&s, config)
}

impl Chunk {
    pub open spec fn wf(&self) -> bool {
        self.chunk_data.wf()
    }

    /// The chunk at `position` synthesized from the given noise samples.
    pub fn from_samples(position: GridCoordinate, samples: &ChunkSamples, config: &TerrainConfig) -> (r: Chunk)
        requires
            samples.wf(),
            config.wf(),
        ensures
            r.position == position,
            r.wf(),
            r.chunk_data@ == chunk_blocks(samples, *config),
    {
        let placements = generate_chunk(samples, config);
        let chunk_data = build_mesh(&placements);
        Chunk { position, chunk_data }
    }

    /// The chunk at `position`, synthesized from noise read from `source`.
    pub fn new<S: NoiseSource>(source: &S, config: &TerrainConfig, position: GridCoordinate) -> (r: Chunk)
        requires
            config.wf(),
        ensures
            r.position == position,
            r.wf(),
            synthesized_for(source, *config, &r),
    {
        let samples = sample_chunk(source, config.seed, position.x, position.z);
        let r = Chunk::from_samples(position, &samples, config);
        proof {
            assert forall|s: ChunkSamples| #[trigger] sampled_from(source, config.seed, position.x, position.z, &s)
                implies r.chunk_data@ == chunk_blocks(&s, *config) by {
                lemma_sampled_unique(source, config.seed, position.x, position.z, &samples, &s);
                lemma_synthesis_deterministic(&samples, &s, *config);
            }
        }
        r
    }

    /// The chunk's vertices and indices.
    pub fn geometry(&self) -> (r: (&Vec<Vertex>, &Vec<u32>))
        ensures
            r.0@ == self.chunk_data.vertices@,
            r.1@ == self.chunk_data.indices@,
    {
        (&self.chunk_data.vertices, &self.chunk_data.indices)
    }

    /// Appends one cube at local block `(x, y, z)`; see `ChunkData::append_cube`.
    pub fn add_block(&mut self, x: i32, y: i32, z: i32, texture_id: u32) -> (r: Result<(), MeshError>)
        requires
            old(self).wf(),
        ensures
            final(self).wf(),
            final(self).position == old(self).position,
            texture_id >= TEXTURE_COUNT ==> r == Err::<(), MeshError>(MeshError::InvalidTexture),
            texture_id < TEXTURE_COUNT && old(self).chunk_data@.len() == MAX_CUBES ==> r == Err::<
                (),
                MeshError,
            >(MeshError::Full),
            texture_id < TEXTURE_COUNT && old(self).chunk_data@.len() < MAX_CUBES ==> r == Ok::<
                (),
                MeshError,
            >(()),
            r is Ok ==> final(self).chunk_data@ == old(self).chunk_data@.push(
                BlockPlacement { x, y, z, texture_id },
            ),
            r is Err ==> final(self).chunk_data@ == old(self).chunk_data@,
    {
        self.chunk_data.append_cube(BlockPlacement { x, y, z, texture_id })
    }
}

} // verus!
