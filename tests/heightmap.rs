use terrain::heightmap::{GridPos, Heightmap, SUBDIVISION};
use terrain::lod::SimpleHeightmap;

/// Row spacing of equilateral triangles with unit sides.
const ROW_SPACING: f32 = 0.8660254037844386;

#[test]
fn heightmap_test_adjacents() {
    // 0---1---2---3
    //  \ / \ / \ / \
    //   4---5---6---7
    //  / \ / \ / \ /
    // 8---9---10--11
    //  \ / \ / \ / \
    //   12--13--14--15

    let map = Heightmap::with_size(4, 4, 0.0f32);

    assert_eq!(vec![4, 1], map.get_adjacent_vertices(0, 0));
    assert_eq!(vec![4, 5, 0, 2], map.get_adjacent_vertices(1, 0));
    assert_eq!(vec![6, 7, 2], map.get_adjacent_vertices(3, 0));
    assert_eq!(vec![0, 1, 8, 9, 5], map.get_adjacent_vertices(0, 1));
    assert_eq!(vec![1, 2, 9, 10, 4, 6], map.get_adjacent_vertices(1, 1));
    assert_eq!(vec![3, 11, 6], map.get_adjacent_vertices(3, 1));
    assert_eq!(vec![4, 12, 9], map.get_adjacent_vertices(0, 2));
    assert_eq!(vec![5, 6, 13, 14, 9, 11], map.get_adjacent_vertices(2, 2));
    assert_eq!(vec![6, 7, 14, 15, 10], map.get_adjacent_vertices(3, 2));
    assert_eq!(vec![8, 9, 13], map.get_adjacent_vertices(0, 3));
    assert_eq!(vec![10, 11, 13, 15], map.get_adjacent_vertices(2, 3));
    assert_eq!(vec![11, 14], map.get_adjacent_vertices(3, 3));

    // For even bottom rows
    let map = Heightmap::with_size(4, 3, 0.0f32);

    assert_eq!(vec![4, 9], map.get_adjacent_vertices(0, 2));
    assert_eq!(vec![5, 6, 9, 11], map.get_adjacent_vertices(2, 2));
    assert_eq!(vec![6, 7, 10], map.get_adjacent_vertices(3, 2));
}

#[test]
fn simpleheightmap_test_adjacents() {
    let tiled = SimpleHeightmap::with_size(4, 4, 0.0f32);
    let map = tiled.geometry();

    assert_eq!(vec![4, 1], map.get_adjacent_vertices(0, 0));
    assert_eq!(vec![4, 5, 0, 2], map.get_adjacent_vertices(1, 0));
    assert_eq!(vec![6, 7, 2], map.get_adjacent_vertices(3, 0));
    assert_eq!(vec![0, 1, 8, 9, 5], map.get_adjacent_vertices(0, 1));
    assert_eq!(vec![1, 2, 9, 10, 4, 6], map.get_adjacent_vertices(1, 1));
    assert_eq!(vec![3, 11, 6], map.get_adjacent_vertices(3, 1));
    assert_eq!(vec![4, 12, 9], map.get_adjacent_vertices(0, 2));
    assert_eq!(vec![5, 6, 13, 14, 9, 11], map.get_adjacent_vertices(2, 2));
    assert_eq!(vec![6, 7, 14, 15, 10], map.get_adjacent_vertices(3, 2));
    assert_eq!(vec![8, 9, 13], map.get_adjacent_vertices(0, 3));
    assert_eq!(vec![10, 11, 13, 15], map.get_adjacent_vertices(2, 3));
    assert_eq!(vec![11, 14], map.get_adjacent_vertices(3, 3));

    let tiled = SimpleHeightmap::with_size(4, 3, 0.0f32);
    let map = tiled.geometry();

    assert_eq!(vec![4, 9], map.get_adjacent_vertices(0, 2));
    assert_eq!(vec![5, 6, 9, 11], map.get_adjacent_vertices(2, 2));
    assert_eq!(vec![6, 7, 10], map.get_adjacent_vertices(3, 2));
}

/// The lattice position of world point `(x, z)` on a grid with zero offsets
/// and unit resolution.
fn lattice(x: f32, z: f32) -> GridPos {
    let sub = SUBDIVISION as f32;
    GridPos::new((2.0 * x * sub).floor() as i64, (z / ROW_SPACING * sub).floor() as i64)
}

#[test]
fn heightmap_test_get_index_from_position() {
    let map = Heightmap::with_size(4, 4, 0.0f32);

    for index in 0..16 {
        let pos = map.get_position(index);
        let unpos = map.get_index_from_position(&pos);
        assert_eq!(index, unpos, "({}, {}): expected {}, got {}", pos.x, pos.z, index, unpos);
    }

    assert_eq!(0, map.get_index_from_position(&lattice(0.5, 0.5)));
    assert_eq!(4, map.get_index_from_position(&lattice(1.49, 1.0)));
    assert_eq!(5, map.get_index_from_position(&lattice(1.51, 1.0)));
}

#[test]
fn simpleheightmap_test_get_index_from_position() {
    let tiled = SimpleHeightmap::with_size(4, 4, 0.0f32);
    let map = tiled.geometry();

    for index in 0..16 {
        let pos = map.get_position(index);
        let unpos = map.get_index_from_position(&pos);
        assert_eq!(index, unpos, "({}, {}): expected {}, got {}", pos.x, pos.z, index, unpos);
    }

    assert_eq!(0, map.get_index_from_position(&lattice(0.5, 0.5)));
    assert_eq!(4, map.get_index_from_position(&lattice(1.49, 1.0)));
    assert_eq!(5, map.get_index_from_position(&lattice(1.51, 1.0)));
}

#[test]
fn positions_follow_row_shift() {
    let map = Heightmap::with_size(3, 2, 0u8);
    assert_eq!(map.get_position(0), GridPos::new(0, 0));
    assert_eq!(map.get_position(2), GridPos::new(4 * SUBDIVISION, 0));
    assert_eq!(map.get_position(3), GridPos::new(SUBDIVISION, SUBDIVISION));
    assert_eq!(map.get_position(5), GridPos::new(5 * SUBDIVISION, SUBDIVISION));
}

#[test]
fn round_trip_on_uneven_grid() {
    let map = Heightmap::with_size(5, 3, 0i32);
    for index in 0..15 {
        assert_eq!(index, map.get_index_from_position(&map.get_position(index)));
    }
}

#[test]
fn adjacency_is_symmetric_on_small_grid() {
    let map = Heightmap::with_size(5, 4, 0u8);
    for z in 0..4 {
        for x in 0..5 {
            let i = map.get_index(x, z);
            for j in map.get_adjacent_vertices(x, z) {
                let back = map.get_adjacent_vertices(j % 5, j / 5);
                assert!(back.contains(&i), "{} lists {} but not back", i, j);
            }
        }
    }
}

#[test]
fn adjacency_counts() {
    let map = Heightmap::with_size(5, 4, 0u8);
    assert_eq!(map.get_adjacent_vertices(2, 1).len(), 6);
    assert_eq!(map.get_adjacent_vertices(2, 2).len(), 6);
    assert_eq!(map.get_adjacent_vertices(0, 0).len(), 2);
    assert_eq!(map.get_adjacent_vertices(4, 3).len(), 2);
    assert_eq!(map.get_adjacent_vertices(2, 0).len(), 4);
    // Corners and edges that the half-column shift gives more neighbours.
    assert_eq!(map.get_adjacent_vertices(4, 0).len(), 3);
    assert_eq!(map.get_adjacent_vertices(0, 1).len(), 5);
}

#[test]
fn triangle_query_cases() {
    let map = Heightmap::with_size(4, 4, 0.0f32);
    let s = SUBDIVISION;
    // Row 0, below A-D: triangle A, D, C.
    assert_eq!(map.get_tri_from_position(&GridPos::new(2 * s + 100, 500)), Some([1, 5, 4]));
    // Above A-D and B-D: triangle A, B, D.
    assert_eq!(map.get_tri_from_position(&GridPos::new(2 * s + 500, 100)), Some([1, 2, 5]));
    // Past B-D: triangle B, E, D.
    assert_eq!(map.get_tri_from_position(&GridPos::new(2 * s + 1800, 600)), Some([2, 6, 5]));
    // Odd row: D is one column further right.
    assert_eq!(map.get_tri_from_position(&GridPos::new(s + 50, s + 900)), Some([4, 9, 8]));
    // On the line A-D the point belongs to triangle A, B, D.
    assert_eq!(map.get_tri_from_position(&GridPos::new(2 * s + 300, 300)), Some([1, 2, 5]));
    // Outside the grid.
    assert_eq!(map.get_tri_from_position(&GridPos::new(2 * s, 3 * s + 10)), None);
    assert_eq!(map.get_tri_from_position(&GridPos::new(-5, 100)), None);
    assert_eq!(map.get_tri_from_position(&GridPos::new(100, 500)), None);
}

#[test]
fn raster_levels() {
    let map = vec![
        vec![(1u8, 2u8, 3u8, 255u8), (10, 0, 0, 0), (255, 255, 255, 0)],
        vec![(0, 0, 0, 0), (4, 4, 4, 4), (7, 0, 1, 9)],
    ];
    let grid = Heightmap::from_map(&map).unwrap();
    assert_eq!(grid.width(), 2);
    assert_eq!(grid.height(), 3);
    assert_eq!(grid.heights(), &vec![6u16, 0, 10, 12, 765, 8]);
    assert!(Heightmap::from_map(&Vec::new()).is_none());
}

#[test]
fn set_height_and_samples() {
    let mut grid = Heightmap::with_size(3, 2, 1.5f32);
    grid.set_height(2, 1, 4.0);
    assert_eq!(grid.height_at(5), 4.0);
    assert_eq!(grid.height_at(4), 1.5);
    assert!(Heightmap::from_samples(3, vec![0u8; 7]).is_none());
    assert!(Heightmap::from_samples(0, vec![0u8; 0]).is_none());
    let g = Heightmap::from_samples(3, vec![1u8, 2, 3, 4, 5, 6]).unwrap();
    assert_eq!(g.height(), 2);
    assert_eq!(g.height_at(g.get_index(1, 1)), 5);
}
