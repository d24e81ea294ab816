use pixelquest::biome::{
    channel_period, channel_seed, clamp_sample, classify, sample_channel, Biome, BiomeGenerator, NoiseChannel,
    ConstantNoise, NOISE_SCALE,
};
use pixelquest::terrain::{
    build_height_map, generate_chunk, generate_tree, is_block_exposed, sample_chunk, ChunkSamples, TerrainConfig,
    EXTENDED_SIZE, LEAF_TEXTURE, TRUNK_TEXTURE,
};

const CELLS: usize = EXTENDED_SIZE * EXTENDED_SIZE;


fn samples(biome: i32, elevation: i32, tree: i32) -> ChunkSamples {
    ChunkSamples::new(vec![biome; CELLS], vec![elevation; CELLS], vec![tree; CELLS]).unwrap()
}

fn config(tree_density: i32) -> TerrainConfig {
    TerrainConfig { seed: 142, reference_height: 0, tree_density, tree_height: 13 }
}

fn map(center: i32, around: i32) -> Vec<Vec<i32>> {
    let mut hm = vec![vec![around; EXTENDED_SIZE]; EXTENDED_SIZE];
    hm[6][6] = center;
    hm
}

#[test]
fn classify_thresholds_and_elevations() {
    assert_eq!(classify(-400_000, 0), (Biome::Desert, 64));
    assert_eq!(classify(-300_000, 0), (Biome::Plains, 68));
    assert_eq!(classify(299_999, 500_000), (Biome::Plains, 75));
    assert_eq!(classify(300_000, 1_000_000), (Biome::Mountains, 130));
    assert_eq!(classify(300_000, -1_000_000), (Biome::Mountains, 30));
    assert_eq!(classify(-1_000_000, -1_000_000), (Biome::Desert, 54));
    // rounds down: 68 + floor(15 * -0.1) = 66
    assert_eq!(classify(0, -100_000), (Biome::Plains, 66));
}

#[test]
fn channels_get_their_own_seed_and_period() {
    assert_eq!(channel_seed(142, NoiseChannel::Biome), 142);
    assert_eq!(channel_seed(142, NoiseChannel::Elevation), 143);
    assert_eq!(channel_seed(142, NoiseChannel::Tree), 144);
    assert_eq!(channel_seed(u32::MAX, NoiseChannel::Elevation), 0);
    assert_eq!(channel_period(NoiseChannel::Biome), 200);
    assert_eq!(channel_period(NoiseChannel::Elevation), 100);
    assert_eq!(channel_period(NoiseChannel::Tree), 20);
}

#[test]
fn samples_are_clamped() {
    assert_eq!(clamp_sample(5_000_000), NOISE_SCALE);
    assert_eq!(clamp_sample(-5_000_000), -NOISE_SCALE);
    assert_eq!(clamp_sample(12), 12);
    assert_eq!(sample_channel(&ConstantNoise { value: 7_000_000 }, 1, NoiseChannel::Tree, 0, 0), NOISE_SCALE);
    let gen = BiomeGenerator::new(9);
    assert_eq!(gen.get_biome_and_elevation(&ConstantNoise { value: -2_000_000 }, 0, 0), (Biome::Desert, 54));
}

#[test]
fn malformed_samples_are_refused() {
    assert!(ChunkSamples::new(vec![0; CELLS - 1], vec![0; CELLS], vec![0; CELLS]).is_none());
    let mut high = vec![0; CELLS];
    high[7] = NOISE_SCALE + 1;
    assert!(ChunkSamples::new(vec![0; CELLS], high, vec![0; CELLS]).is_none());
    assert!(ChunkSamples::new(vec![0; CELLS], vec![0; CELLS], vec![0; CELLS]).is_some());
}

#[test]
fn height_map_is_clamped_to_reference() {
    let s = samples(0, 0, 0);
    assert!(build_height_map(&s, 0).iter().all(|row| row.iter().all(|&h| h == 68)));
    assert!(build_height_map(&s, 100).iter().all(|row| row.iter().all(|&h| h == 100)));
}

#[test]
fn level_column_emits_only_its_top() {
    let hm = map(10, 10);
    let exposed: Vec<i32> = (0..=12).filter(|&y| is_block_exposed(5, y, 5, &hm)).collect();
    assert_eq!(exposed, vec![10]);
}

#[test]
fn raised_column_emits_its_sides() {
    let hm = map(10, 5);
    let exposed: Vec<i32> = (0..=12).filter(|&y| is_block_exposed(5, y, 5, &hm)).collect();
    assert_eq!(exposed, vec![6, 7, 8, 9, 10]);
}

#[test]
fn buried_block_is_not_exposed() {
    let hm = map(4, 10);
    assert!(!is_block_exposed(5, 3, 5, &hm));
    assert!(is_block_exposed(5, 4, 5, &hm));
    assert!(!is_block_exposed(5, -1, 5, &hm));
}

#[test]
fn flat_plains_chunk_has_one_block_per_column() {
    let blocks = generate_chunk(&samples(0, 0, 0), &config(100_000));
    assert_eq!(blocks.len(), 256);
    assert!(blocks.iter().all(|b| b.y == 68 && b.texture_id == 0));
    assert_eq!((blocks[0].x, blocks[0].z), (0, 0));
    assert_eq!((blocks[1].x, blocks[1].z), (0, 1));
    assert_eq!((blocks[255].x, blocks[255].z), (15, 15));
}

#[test]
fn desert_and_snow_textures() {
    let desert = generate_chunk(&samples(-500_000, 0, 0), &config(0));
    assert!(desert.iter().all(|b| b.texture_id == 2 && b.y == 64));
    let peaks = generate_chunk(&samples(500_000, 0, 0), &config(0));
    assert!(peaks.iter().all(|b| b.texture_id == 3 && b.y == 80));
    let mut low = TerrainConfig { seed: 1, reference_height: 75, tree_density: 0, tree_height: 13 };
    let below_snow = generate_chunk(&samples(500_000, 0, 0), &low);
    assert!(below_snow.iter().all(|b| b.texture_id == 0 && b.y == 80));
    low.reference_height = 69;
    let above_snow = generate_chunk(&samples(500_000, 0, 0), &low);
    assert!(above_snow.iter().all(|b| b.texture_id == 3));
}

#[test]
fn every_column_grows_a_tree_in_dense_forest() {
    let blocks = generate_chunk(&samples(0, 0, NOISE_SCALE), &config(100_000));
    assert_eq!(blocks.len(), 256 + 256 * (13 + 123));
    let trunk = blocks.iter().filter(|b| b.texture_id == TRUNK_TEXTURE).count();
    assert_eq!(trunk, 256 * 13);
}

#[test]
fn single_tree_shape() {
    let mut out = Vec::new();
    generate_tree(4, 0, 5, 13, TRUNK_TEXTURE, LEAF_TEXTURE, &mut out);
    assert_eq!(out.len(), 13 + 123);
    assert!(out[..13].iter().enumerate().all(|(i, b)| b.x == 4 && b.z == 5 && b.y == i as i32));
    let leaves = &out[13..];
    assert!(leaves.iter().all(|b| {
        let (dx, dy, dz) = (b.x - 4, b.y - 13, b.z - 5);
        dx * dx + dy * dy + dz * dz <= 9 && b.texture_id == LEAF_TEXTURE
    }));
    assert_eq!(leaves[0].x, 1);
}

#[test]
fn synthesis_is_deterministic() {
    let a = generate_chunk(&samples(250_000, -300_000, 950_000), &config(100_000));
    let b = generate_chunk(&samples(250_000, -300_000, 950_000), &config(100_000));
    assert_eq!(a, b);
}

#[test]
fn top_below_zero_is_exposed() {
    let hm = vec![vec![-3; EXTENDED_SIZE]; EXTENDED_SIZE];
    assert!(is_block_exposed(5, -3, 5, &hm));
    assert!(!is_block_exposed(5, -4, 5, &hm));
    assert!(!is_block_exposed(5, -2, 5, &hm));
}

#[test]
fn chunk_samples_are_clamped_source_values() {
    let s = sample_chunk(&ConstantNoise { value: 2_000_000 }, 142, -3, 7);
    assert!(s.biome.iter().all(|&v| v == NOISE_SCALE));
    assert!(s.elevation.iter().all(|&v| v == NOISE_SCALE));
    assert!(s.tree.iter().all(|&v| v == NOISE_SCALE));
    assert_eq!(s.biome.len(), CELLS);
}
