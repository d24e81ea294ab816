use pixelquest::biome::ConstantNoise;
use pixelquest::chunk::GridCoordinate;
use pixelquest::mesh::MeshError;
use pixelquest::terrain::TerrainConfig;
use pixelquest::world::{
    chebyshev_distance, chunk_coordinate, chunk_position_of, manhattan_distance, ConfigError, EditError, World,
    WorldConfig,
};

const FLAT: ConstantNoise = ConstantNoise { value: 0 };

fn terrain() -> TerrainConfig {
    TerrainConfig { seed: 142, reference_height: 0, tree_density: 100_000, tree_height: 13 }
}

fn world() -> World {
    World::new(WorldConfig::new(5, 3, 5, 500, terrain()).unwrap())
}

fn gc(x: i32, z: i32) -> GridCoordinate {
    GridCoordinate { x, y: 0, z }
}

fn no_double_build(w: &World) -> bool {
    let resident: Vec<GridCoordinate> = w.chunks().iter().map(|c| c.position).collect();
    let queued = w.queued();
    resident.iter().all(|p| !queued.contains(p))
        && resident.iter().enumerate().all(|(i, p)| !resident[..i].contains(p))
        && queued.iter().enumerate().all(|(i, p)| !queued[..i].contains(p))
}

#[test]
fn origin_fills_after_twenty_five_ticks() {
    let mut w = world();
    w.update(&FLAT, 0, 0);
    assert_eq!(w.resident_count(), 5);
    assert_eq!(w.queued().len(), 116);
    for _ in 1..25 {
        w.update(&FLAT, 0, 0);
    }
    assert_eq!(w.resident_count(), 121);
    assert!(w.queued().is_empty());
    for x in -5..=5 {
        for z in -5..=5 {
            assert!(w.chunk_exists(gc(x, z)));
        }
    }
}

#[test]
fn queue_is_closest_first() {
    let mut w = world();
    w.update(&FLAT, 0, 0);
    let built: Vec<GridCoordinate> = w.chunks().iter().map(|c| c.position).collect();
    assert_eq!(built[0], gc(0, 0));
    assert!(built[1..].iter().all(|p| manhattan_distance(*p, gc(0, 0)) == 1));
    let d: Vec<i64> = w.queued().iter().map(|p| manhattan_distance(*p, gc(0, 0))).collect();
    assert!(d.windows(2).all(|w| w[0] <= w[1]));
    assert_eq!(*d.last().unwrap(), 10);
}

#[test]
fn idle_ticks_change_nothing() {
    let mut w = world();
    for _ in 0..25 {
        w.update(&FLAT, 3, 7);
    }
    let before: Vec<GridCoordinate> = w.chunks().iter().map(|c| c.position).collect();
    for _ in 0..5 {
        w.update(&FLAT, 10, 2);
    }
    let after: Vec<GridCoordinate> = w.chunks().iter().map(|c| c.position).collect();
    assert_eq!(before, after);
    assert!(w.queued().is_empty());
}

#[test]
fn moving_evicts_far_chunks() {
    let mut w = world();
    for _ in 0..25 {
        w.update(&FLAT, 0, 0);
    }
    w.update(&FLAT, 16 * 9, 0);
    let cam = gc(9, 0);
    assert_eq!(w.last_viewpoint_chunk(), Some(cam));
    assert!(w.chunks().iter().all(|c| chebyshev_distance(c.position, cam) <= 8));
    // columns x = 1..=5 stay (within 8 of x = 9), plus five new builds
    assert_eq!(w.resident_count(), 5 * 11 + 5);
    assert!(no_double_build(&w));
    for _ in 0..30 {
        w.update(&FLAT, 16 * 9, 0);
        assert!(no_double_build(&w));
    }
    // the wanted square, plus the old columns x = 1..=3 still inside the unload distance
    assert_eq!(w.resident_count(), 121 + 3 * 11);
    assert!(w.queued().is_empty());
}

#[test]
fn streaming_never_builds_twice() {
    let mut w = world();
    let path = [(0, 0), (20, 0), (40, 40), (-30, 5), (-30, 5), (100, -100), (0, 0)];
    for (vx, vz) in path.iter() {
        for _ in 0..3 {
            w.update(&FLAT, *vx, *vz);
            assert!(no_double_build(&w));
        }
    }
}

#[test]
fn edit_targets_owning_chunk() {
    let mut w = world();
    assert_eq!(w.add_block(3, 70, 3, 1), Err(EditError::NoChunk));
    w.update(&FLAT, 0, 0);
    let idx = w.chunks().iter().position(|c| c.position == gc(0, 0)).unwrap();
    let vertices = w.chunks()[idx].geometry().0.len();
    let indices = w.chunks()[idx].geometry().1.len();
    assert_eq!(w.add_block(3, 70, 4, 1), Ok(()));
    let (v, i) = w.chunks()[idx].geometry();
    assert_eq!(v.len(), vertices + 24);
    assert_eq!(i.len(), indices + 36);
    assert!(i[indices..].iter().all(|&k| k as usize >= vertices));
    assert_eq!((v[vertices].px, v[vertices].py, v[vertices].pz), (5, 139, 9));
    assert_eq!(w.add_block(3, 70, 4, 7), Err(EditError::Mesh(MeshError::InvalidTexture)));
    assert_eq!(w.add_block(16 * 4, 0, 0, 1), Err(EditError::NoChunk));
}

#[test]
fn edit_in_negative_chunk_uses_local_position() {
    let mut w = world();
    for _ in 0..25 {
        w.update(&FLAT, 0, 0);
    }
    let idx = w.chunks().iter().position(|c| c.position == gc(-1, -1)).unwrap();
    let vertices = w.chunks()[idx].geometry().0.len();
    assert_eq!(w.add_block(-1, 2, -16, 0), Ok(()));
    let v = w.chunks()[idx].geometry().0;
    assert_eq!((v[vertices].px, v[vertices].py, v[vertices].pz), (29, 3, 1));
}

#[test]
fn viewpoint_chunk_rounds_down() {
    assert_eq!(chunk_coordinate(0), 0);
    assert_eq!(chunk_coordinate(15), 0);
    assert_eq!(chunk_coordinate(16), 1);
    assert_eq!(chunk_coordinate(-1), -1);
    assert_eq!(chunk_coordinate(-16), -1);
    assert_eq!(chunk_coordinate(-17), -2);
    assert_eq!(chunk_coordinate(i32::MIN), -134_217_728);
    assert_eq!(chunk_position_of(-5, 40), gc(-1, 2));
}

#[test]
fn distances() {
    assert_eq!(manhattan_distance(gc(1, -2), gc(-3, 4)), 10);
    assert_eq!(chebyshev_distance(gc(1, -2), gc(-3, 4)), 6);
}

#[test]
fn configuration_errors() {
    let t = terrain();
    assert_eq!(WorldConfig::new(-1, 3, 5, 500, t), Err(ConfigError::ChunkRadius));
    assert_eq!(WorldConfig::new(33, 3, 5, 5000, t), Err(ConfigError::ChunkRadius));
    assert_eq!(WorldConfig::new(5, -1, 5, 500, t), Err(ConfigError::UnloadMargin));
    assert_eq!(WorldConfig::new(5, 3, 0, 500, t), Err(ConfigError::BuildBudget));
    assert_eq!(WorldConfig::new(5, 3, 5, 120, t), Err(ConfigError::QueueLength));
    assert!(WorldConfig::new(5, 3, 5, 121, t).is_ok());
    let bad_ref = TerrainConfig { reference_height: -1, ..t };
    assert_eq!(WorldConfig::new(5, 3, 5, 500, bad_ref), Err(ConfigError::ReferenceHeight));
    let bad_density = TerrainConfig { tree_density: 1_000_001, ..t };
    assert_eq!(WorldConfig::new(5, 3, 5, 500, bad_density), Err(ConfigError::TreeDensity));
    let bad_height = TerrainConfig { tree_height: 100_001, ..t };
    assert_eq!(WorldConfig::new(5, 3, 5, 500, bad_height), Err(ConfigError::TreeHeight));
}
