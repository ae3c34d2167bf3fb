use terrain::heightmap::{GridPos, Heightmap};
use terrain::lod::{gen_lod, SimpleHeightmap, TileLod, TileUpdate, DEFAULT_TILE_SIZE};
use terrain::mesh::MeshError;
use terrain::physics::MovementState;

#[test]
fn full_grid_mesh() {
    let map = Heightmap::with_size(4, 4, 0.0f32);
    let g = map.as_geometry(1, 0, 0, 4, 4).unwrap();
    assert_eq!(g.vertices, (0..16).collect::<Vec<usize>>());
    assert_eq!(g.indices.len(), 6 * 9);
    assert_eq!(*g.indices.iter().max().unwrap() as usize, g.vertices.len() - 1);
    // Even row 0: split along 1-4; odd row 1: split along 4-9.
    assert_eq!(&g.indices[0..6], &[0, 4, 1, 1, 4, 5]);
    assert_eq!(&g.indices[18..24], &[4, 9, 5, 4, 8, 9]);
}

#[test]
fn decimated_window_mesh() {
    let map = Heightmap::with_size(8, 8, 0u8);
    let g = map.as_geometry(2, 2, 1, 100, 100).unwrap();
    // Columns 2, 4, 6 of rows 1, 3, 5, 7.
    assert_eq!(g.vertices, vec![10, 12, 14, 26, 28, 30, 42, 44, 46, 58, 60, 62]);
    assert_eq!(g.indices.len(), 6 * 2 * 3);
    // Row 1 is odd in the undecimated grid.
    assert_eq!(&g.indices[0..6], &[0, 4, 1, 0, 3, 4]);
    assert_eq!(*g.indices.iter().max().unwrap(), 11);
}

#[test]
fn mesh_errors() {
    let map = Heightmap::with_size(4, 4, 0u8);
    assert_eq!(
        map.as_geometry(1, 2, 2, 2, 4),
        Err(MeshError::IndexMismatch { vertices: 0, max_index: 0 })
    );
    assert_eq!(
        map.as_geometry(1, 0, 0, 4, 1),
        Err(MeshError::IndexMismatch { vertices: 4, max_index: 0 })
    );
    let one = map.as_geometry(4, 0, 0, 4, 4).unwrap();
    assert_eq!(one.vertices, vec![0]);
    assert!(one.indices.is_empty());
    let big = Heightmap::with_size(300, 300, 0u8);
    assert_eq!(
        big.as_geometry(1, 0, 0, 300, 300),
        Err(MeshError::TooManyVertices { vertices: 90000 })
    );
    let fits = big.as_geometry(1, 0, 0, 256, 256).unwrap();
    assert_eq!(fits.vertices.len(), 65536);
    assert_eq!(*fits.indices.iter().max().unwrap() as usize, 65535);
}

#[test]
fn lod_by_distance() {
    // Tile of 16 at the origin: centre (16384, 8192); a tile side is 32768 steps of x.
    let centre = GridPos::new(16384, 8192);
    assert_eq!(gen_lod(16, &centre, 0, 0), 1);
    assert_eq!(gen_lod(16, &GridPos::new(16384 + 49152, 8192), 0, 0), 2);
    assert_eq!(gen_lod(16, &GridPos::new(16384 + 65536, 8192), 0, 0), 4);
    assert_eq!(gen_lod(16, &GridPos::new(16384 + 3 * 32768, 8192), 0, 0), 8);
    assert_eq!(gen_lod(16, &GridPos::new(16384 + 100 * 32768, 8192), 0, 0), 15);
    // Along z distances weigh by 3: the stride doubles once 3 * dv^2 reaches 2^31.
    assert_eq!(gen_lod(16, &GridPos::new(16384, 8192 + 26754), 0, 0), 1);
    assert_eq!(gen_lod(16, &GridPos::new(16384, 8192 + 26755), 0, 0), 2);
}

#[test]
fn lod_is_monotonic_in_distance() {
    let mut last = 0;
    for step in 0..200i64 {
        let lod = gen_lod(256, &GridPos::new(262_144 + step * 50_000, 131_072), 0, 0);
        assert!(lod >= last);
        assert!((1..256).contains(&lod));
        last = lod;
    }
    assert_eq!(last, 255);
}

#[test]
fn first_update_builds_every_tile() {
    let mut map = SimpleHeightmap::from_heightmap(Heightmap::with_size(8, 6, 0.0f32), 4);
    assert_eq!(map.tile_count(), 4);
    let updates = map.update_lod(&GridPos::new(0, 0));
    let tiles: Vec<usize> = updates.iter().map(|u| u.tile).collect();
    assert_eq!(tiles, vec![0, 1, 2, 3]);
    assert_eq!(
        updates[1],
        TileUpdate { tile: 1, lod: updates[1].lod, left_x: 0, top_z: 4, right_x: 4, bottom_z: 8 }
    );
    assert_eq!(updates[2].left_x, 4);
    assert_eq!(updates[2].top_z, 0);
    for k in 0..4 {
        assert_eq!(map.tile_lod_at(k), TileLod::Built(updates[k].lod));
    }
}

#[test]
fn second_update_at_same_place_is_idle() {
    let mut map = SimpleHeightmap::with_size(600, 600, 0.0f32);
    assert_eq!(map.tile_size(), DEFAULT_TILE_SIZE);
    let pos = GridPos::new(123_456, 98_765);
    let first = map.update_lod(&pos);
    assert_eq!(first.len(), map.tile_count());
    let second = map.update_lod(&pos);
    assert!(second.is_empty());
    // A small step stays inside the dead band.
    assert!(map.update_lod(&GridPos::new(124_000, 99_000)).is_empty());
}

#[test]
fn leaving_dead_band_rebuilds_only_changed_tiles() {
    let mut map = SimpleHeightmap::from_heightmap(Heightmap::with_size(64, 64, 0u8), 8);
    map.update_lod(&GridPos::new(0, 0));
    let far = GridPos::new(2 * 8 * 1024 * 3, 0);
    let updates = map.update_lod(&far);
    for u in &updates {
        assert_eq!(gen_lod(8, &far, u.left_x, u.top_z), u.lod);
    }
    for k in 0..map.tile_count() {
        let x = (k / 8) * 8;
        let z = (k % 8) * 8;
        assert_eq!(map.tile_lod_at(k), TileLod::Built(gen_lod(8, &far, x, z)));
    }
    assert!(updates.len() < map.tile_count());
}

#[test]
fn jump_budget() {
    let mut m = MovementState::new();
    m.jumping = true;
    // Take-off: grounded with jump held.
    assert!(m.jump_step(true));
    assert_eq!(m.can_jump, 5);
    for expected in [4u8, 3, 2, 1, 0] {
        assert!(m.jump_step(false));
        assert_eq!(m.can_jump, expected);
    }
    assert!(!m.jump_step(false));
    assert_eq!(m.can_jump, 0);
    // Letting go keeps the budget but stops the acceleration.
    let mut m = MovementState::new();
    m.jumping = true;
    m.jump_step(true);
    m.jumping = false;
    assert!(!m.jump_step(false));
    assert_eq!(m.can_jump, 5);
}

/// Drives any heightmap through the shared interface.
fn update_through_interface<T: terrain::terrain::Heightmap>(map: &mut T, pos: &GridPos) -> usize {
    map.update_lod(pos).len()
}

#[test]
fn heightmaps_share_an_interface() {
    let pos = GridPos::new(3000, 1500);
    let mut flat = Heightmap::with_size(4, 4, 0.0f32);
    let mut tiled = SimpleHeightmap::from_heightmap(Heightmap::with_size(4, 4, 0.0f32), 2);
    assert_eq!(update_through_interface(&mut flat, &pos), 0);
    assert_eq!(update_through_interface(&mut tiled, &pos), 4);
    assert_eq!(update_through_interface(&mut tiled, &pos), 0);
    let expected = flat.get_tri_from_position(&pos);
    assert_eq!(expected, Some([5, 10, 9]));
    assert_eq!(tiled.get_tri_from_position(&pos), expected);
    assert_eq!(terrain::terrain::Heightmap::get_tri_from_position(&tiled, &pos), expected);
}
