use pixelquest::chunk::{build_mesh, Chunk, GridCoordinate};
use pixelquest::mesh::{
    add_block, create_cube, create_single_tx_cube_vertices, normal_of, BlockPlacement, ChunkData, Face,
    MeshError,
};
use pixelquest::texture::{calculate_tile_uvs, get_uvs, init_uvs, AtlasPoint, BlockKind};

#[test]
fn test_block_vertices_generation() {
    let vertices = create_single_tx_cube_vertices(0, -3, 0, 0);
    assert_eq!(vertices.len(), 24);
    // front face, first corner: (-0.5, -3.5, 0.5) in half-block units
    assert_eq!((vertices[0].px, vertices[0].py, vertices[0].pz), (-1, -7, 1));
    assert_eq!(vertices[0].face, Face::Front);
    assert_eq!((vertices[0].u, vertices[0].v), (0, 1));
    // top face, third corner: (0.5, -2.5, 0.5)
    assert_eq!((vertices[10].px, vertices[10].py, vertices[10].pz), (1, -5, 1));
    assert_eq!(vertices[10].face, Face::Top);
    assert_eq!((vertices[10].u, vertices[10].v), (0, 0));
    // left face, last corner: (-0.5, -2.5, -0.5)
    assert_eq!((vertices[23].px, vertices[23].py, vertices[23].pz), (-1, -5, -1));
    assert_eq!(vertices[23].face, Face::Left);
    assert!(vertices.iter().all(|v| v.texture_id == 0));
}

#[test]
fn cube_indices_are_two_triangles_per_face() {
    let (vertices, indices) = create_cube(2, 3, 4, 1);
    assert_eq!(vertices.len(), 24);
    assert_eq!(
        indices,
        vec![
            0, 1, 2, 2, 3, 0, 4, 5, 6, 6, 7, 4, 8, 9, 10, 10, 11, 8, 12, 13, 14, 14, 15, 12, 16, 17, 18,
            18, 19, 16, 20, 21, 22, 22, 23, 20
        ]
    );
    assert_eq!((vertices[0].px, vertices[0].py, vertices[0].pz), (3, 5, 9));
    assert!(vertices.iter().all(|v| v.texture_id == 1));
}

#[test]
fn face_normals() {
    assert_eq!(normal_of(Face::Front), (0, 0, 1));
    assert_eq!(normal_of(Face::Back), (0, 0, -1));
    assert_eq!(normal_of(Face::Top), (0, 1, 0));
    assert_eq!(normal_of(Face::Bottom), (0, -1, 0));
    assert_eq!(normal_of(Face::Right), (1, 0, 0));
    assert_eq!(normal_of(Face::Left), (-1, 0, 0));
}

#[test]
fn appended_cubes_offset_their_indices() {
    let mut data = ChunkData::new();
    assert_eq!(add_block(0, 0, 0, 0, &mut data), Ok(()));
    assert_eq!(add_block(1, 0, 0, 2, &mut data), Ok(()));
    assert_eq!(data.vertices.len(), 48);
    assert_eq!(data.indices.len(), 72);
    assert_eq!(data.cube_count(), 2);
    assert_eq!(&data.indices[36..42], &[24, 25, 26, 26, 27, 24]);
    assert!(data.indices.iter().all(|&i| (i as usize) < data.vertices.len()));
    assert_eq!(data.indices.len() % 3, 0);
    assert_eq!(data.vertices.len() % 24, 0);
}

#[test]
fn invalid_texture_is_refused() {
    let mut data = ChunkData::new();
    assert_eq!(add_block(0, 0, 0, 5, &mut data), Err(MeshError::InvalidTexture));
    assert_eq!(data.vertices.len(), 0);
    assert_eq!(data.indices.len(), 0);
    let p = BlockPlacement { x: 0, y: 0, z: 0, texture_id: 99 };
    assert_eq!(data.append_cube(p), Err(MeshError::InvalidTexture));
}

#[test]
fn build_mesh_keeps_placement_order() {
    let placements = vec![
        BlockPlacement { x: 0, y: 1, z: 2, texture_id: 3 },
        BlockPlacement { x: 5, y: 6, z: 7, texture_id: 4 },
    ];
    let data = build_mesh(&placements);
    assert_eq!(data.vertices.len(), 48);
    assert_eq!((data.vertices[24].px, data.vertices[24].py, data.vertices[24].pz), (9, 11, 15));
    assert_eq!(data.vertices[24].texture_id, 4);
}

#[test]
fn chunk_edit_appends_one_cube() {
    let placements = vec![BlockPlacement { x: 0, y: 0, z: 0, texture_id: 0 }];
    let mut chunk = Chunk { position: GridCoordinate { x: 0, y: 0, z: 0 }, chunk_data: build_mesh(&placements) };
    let before_vertices = chunk.geometry().0.len();
    let before_indices = chunk.geometry().1.len();
    assert_eq!(chunk.add_block(3, 4, 5, 1), Ok(()));
    let (vertices, indices) = chunk.geometry();
    assert_eq!(vertices.len(), before_vertices + 24);
    assert_eq!(indices.len(), before_indices + 36);
    assert!(indices[before_indices..].iter().all(|&i| i as usize >= before_vertices && (i as usize) < vertices.len()));
}

#[test]
fn tile_uvs_in_atlas_pixels() {
    let t = calculate_tile_uvs(3, 15);
    assert_eq!(t.bottom_left, AtlasPoint { u: 192, v: 960 });
    assert_eq!(t.bottom_right, AtlasPoint { u: 256, v: 960 });
    assert_eq!(t.top_right, AtlasPoint { u: 256, v: 1024 });
    assert_eq!(t.top_left, AtlasPoint { u: 192, v: 1024 });
}

#[test]
fn uv_table_entries() {
    let table = init_uvs();
    let grass = get_uvs(&table, BlockKind::Grass);
    assert_eq!(grass.front, calculate_tile_uvs(3, 15));
    assert_eq!(grass.top, calculate_tile_uvs(0, 16));
    assert_eq!(grass.bottom, calculate_tile_uvs(2, 16));
    let light = get_uvs(&table, BlockKind::LightGrass);
    assert_eq!(light.left, calculate_tile_uvs(13, 2));
    let dark = get_uvs(&table, BlockKind::DarkGrass);
    assert_eq!(dark.top, calculate_tile_uvs(13, 0));
}
