use pixelquest::chunk::GridCoordinate;
use pixelquest::mesh::{generate_world, Face};
use pixelquest::strategies::{
    generate_flat_terrain, generate_mountainous_terrain, generate_spiral_mountain_terrain, generate_terrain_chunk,
    is_position_in_chunk, mountain_height_map, Terrain,
};
use pixelquest::terrain::{ChunkSamples, EXTENDED_SIZE};
use pixelquest::texture::{calculate_tile_uvs, create_cube_vertices};

const CELLS: usize = EXTENDED_SIZE * EXTENDED_SIZE;

fn elevation(n: i32) -> ChunkSamples {
    ChunkSamples::new(vec![0; CELLS], vec![n; CELLS], vec![0; CELLS]).unwrap()
}

#[test]
fn flat_floor_is_dense() {
    let mut out = Vec::new();
    generate_flat_terrain(2, 1, &mut out);
    assert_eq!(out.len(), 256 * 3);
    assert_eq!((out[0].x, out[0].y, out[0].z), (0, 0, 0));
    assert_eq!((out[2].x, out[2].y, out[2].z), (0, 2, 0));
    assert_eq!((out[3].x, out[3].y, out[3].z), (0, 0, 1));
    assert!(out.iter().all(|b| b.texture_id == 1));
    let mut none = Vec::new();
    generate_flat_terrain(-1, 1, &mut none);
    assert!(none.is_empty());
}

#[test]
fn terrain_struct_raises_its_floor() {
    let mut t = Terrain::new(1, Vec::new(), GridCoordinate { x: 2, y: 0, z: -1 });
    t.generate_flat_terrain(Some(1), 2);
    assert_eq!(t.placements.len(), 256 * 3);
    t.generate_flat_terrain(None, 0);
    assert_eq!(t.placements.len(), 256 * 3 + 256 * 2);
    assert_eq!(t.chunk_position, GridCoordinate { x: 2, y: 0, z: -1 });
}

#[test]
fn noise_fill_heights() {
    let mut out = Vec::new();
    generate_terrain_chunk(&elevation(0), 10, 1, 0, &mut out);
    assert_eq!(out.len(), 256 * 6);
    let mut low = Vec::new();
    generate_terrain_chunk(&elevation(-1_000_000), 10, 1, 0, &mut low);
    assert_eq!(low.len(), 256);
    let mut high = Vec::new();
    generate_terrain_chunk(&elevation(1_000_000), 10, 1, 3, &mut high);
    assert_eq!(high.len(), 256 * 11);
    assert!(high.iter().all(|b| b.texture_id == 3));
}

#[test]
fn mountain_heights_round_to_nearest() {
    let hm = mountain_height_map(&elevation(500_000), 60, 0);
    assert!(hm.iter().all(|row| row.iter().all(|&h| h == 30)));
    let hm = mountain_height_map(&elevation(-250_000), 2, 5);
    assert!(hm.iter().all(|row| row.iter().all(|&h| h == 5)));
    let hm = mountain_height_map(&elevation(-1_000_000), 7, 0);
    assert!(hm.iter().all(|row| row.iter().all(|&h| h == -7)));
}

#[test]
fn mountain_relief_is_culled_and_banded() {
    let mut hm = mountain_height_map(&elevation(500_000), 60, 0);
    hm[6][6] = 35;
    let mut out = Vec::new();
    generate_mountainous_terrain(&hm, 0, 0, 4, 32, &mut out);
    assert_eq!(out.len(), 255 + 5);
    let peak: Vec<i32> = out.iter().filter(|b| b.x == 5 && b.z == 5).map(|b| b.y).collect();
    assert_eq!(peak, vec![31, 32, 33, 34, 35]);
    assert!(out.iter().all(|b| (b.y <= 32) == (b.texture_id == 4)));
}

#[test]
fn spiral_relief_textures_by_column() {
    let hm = vec![vec![3; EXTENDED_SIZE]; EXTENDED_SIZE];
    let first: Vec<bool> = (0..256).map(|c| (c / 16) % 2 == 0).collect();
    let mut out = Vec::new();
    generate_spiral_mountain_terrain(&hm, 0, first, 1, 2, &mut out);
    assert_eq!(out.len(), 256);
    assert!(out.iter().all(|b| b.y == 3 && b.texture_id == if b.x % 2 == 0 { 1 } else { 2 }));
    let mut below = Vec::new();
    generate_spiral_mountain_terrain(&hm, 3, vec![true; 256], 1, 2, &mut below);
    assert!(below.is_empty());
}

#[test]
fn cube_top_face_uses_top_tile() {
    let side = calculate_tile_uvs(3, 15);
    let top = calculate_tile_uvs(0, 16);
    let v = create_cube_vertices(&side, &top);
    assert_eq!(v.len(), 24);
    assert_eq!(v[0].uv, side.bottom_left);
    assert_eq!(v[8].face, Face::Top);
    assert_eq!(v[8].uv, top.bottom_left);
    assert_eq!(v[10].uv, top.top_right);
    assert_eq!(v[12].uv, side.bottom_left);
    assert_eq!((v[8].px, v[8].py, v[8].pz), (-1, 1, -1));
}

#[test]
fn world_row_is_centered() {
    let data = generate_world(3);
    assert_eq!(data.vertices.len(), 72);
    assert_eq!(data.indices.len(), 108);
    // first corner of each cube: (2x - 1, -7, 1)
    assert_eq!((data.vertices[0].px, data.vertices[0].py, data.vertices[0].pz), (-5, -7, 1));
    assert_eq!(data.vertices[24].px, -1);
    assert_eq!(data.vertices[48].px, 3);
    assert_eq!(data.indices[36], 24);
}

#[test]
fn position_in_chunk_bounds() {
    let origin = GridCoordinate { x: 0, y: 0, z: 0 };
    assert!(is_position_in_chunk(15, 0, 0, origin));
    assert!(!is_position_in_chunk(16, 0, 0, origin));
    assert!(!is_position_in_chunk(0, -1, 0, origin));
    assert!(is_position_in_chunk(-1, 5, -16, GridCoordinate { x: -1, y: 0, z: -1 }));
    assert!(!is_position_in_chunk(-1, 5, -17, GridCoordinate { x: -1, y: 0, z: -1 }));
}

#[test]
fn relief_below_zero() {
    let hm = vec![vec![-10; EXTENDED_SIZE]; EXTENDED_SIZE];
    let mut out = Vec::new();
    generate_mountainous_terrain(&hm, -20, 0, 4, 5, &mut out);
    assert_eq!(out.len(), 256);
    assert!(out.iter().all(|b| b.y == -10 && b.texture_id == 0));
    let mut low = Vec::new();
    generate_mountainous_terrain(&hm, -20, 0, 4, 15, &mut low);
    assert!(low.iter().all(|b| b.texture_id == 4));
}

#[test]
fn tall_mountains_and_floors() {
    let hm = mountain_height_map(&elevation(500_000), 1_000_000, 0);
    assert!(hm.iter().all(|row| row.iter().all(|&h| h == 500_000)));
    let mut out = Vec::new();
    generate_flat_terrain(-5, 0, &mut out);
    assert!(out.is_empty());
    let mut fill = Vec::new();
    generate_terrain_chunk(&elevation(1_000_000), 4000, 100, 0, &mut fill);
    assert_eq!(fill.len(), 256 * 4100);
}
