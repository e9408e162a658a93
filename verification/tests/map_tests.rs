//! The spatial cache: coordinate mapping, memoization, rescaling, and
//! reproducibility across fresh instances.
use world_gen::map::floor_div;
use world_gen::map::WorldMap;
use world_gen::FIELD_ONE;

#[test]
fn chunk_coordinate_brackets_every_world_coordinate() {
    for &c in &[8i64, 16, 32, 64] {
        for x in -1000..=1000i64 {
            let q = floor_div(x, c);
            assert!(q * c <= x, "x={x} c={c} q={q}");
            assert!(x < q * c + c, "x={x} c={c} q={q}");
        }
    }
}

#[test]
fn chunk_coords_handle_negative_positions() {
    let map = WorldMap::new(FIELD_ONE, 16, Some(1)).unwrap();
    assert_eq!(map.chunk_coords_from_world_coords((0, 0)), (0, 0));
    assert_eq!(map.chunk_coords_from_world_coords((15, 15)), (0, 0));
    assert_eq!(map.chunk_coords_from_world_coords((16, 31)), (1, 1));
    assert_eq!(map.chunk_coords_from_world_coords((-1, -16)), (-1, -1));
    assert_eq!(map.chunk_coords_from_world_coords((-17, -32)), (-2, -2));
}

#[test]
fn get_chunk_is_memoized_and_idempotent() {
    let mut map = WorldMap::new(FIELD_ONE, 16, Some(9)).unwrap();
    assert_eq!(map.generated_chunk_count(), 0);
    let first = map.get_chunk((2, -3));
    assert_eq!(map.generated_chunk_count(), 1);
    let second = map.get_chunk((2, -3));
    // The second call returns equal content and generates nothing new.
    assert_eq!(map.generated_chunk_count(), 1);
    assert_eq!(first, second);
    assert_eq!(first.cells.len(), 256);
}

#[test]
fn cells_agree_with_their_chunk() {
    let mut map = WorldMap::new(FIELD_ONE, 8, Some(3)).unwrap();
    let chunk = map.get_chunk((1, 1));
    let cell = map.get_cell((8, 8));
    assert_eq!(chunk.cells[0], cell);
    let cell = map.get_cell((15, 15));
    assert_eq!(chunk.cells[63], cell);
}

#[test]
fn fresh_instances_reproduce_the_same_world() {
    let mut a = WorldMap::new(FIELD_ONE, 16, Some(1)).unwrap();
    let mut b = WorldMap::new(FIELD_ONE, 16, Some(1)).unwrap();
    let ca = a.get_cell((0, 0));
    let cb = b.get_cell((0, 0));
    assert_eq!(ca, cb);
    // Also across scattered positions, including negative ones.
    for &pos in &[(5i64, -7i64), (-123, 456), (1000, -1000), (-1, -1)] {
        assert_eq!(a.get_cell(pos), b.get_cell(pos));
    }
    // And the derived chunks agree as well.
    assert_eq!(a.get_chunk((0, 0)), b.get_chunk((0, 0)));
}

#[test]
fn concrete_cells_are_cached() {
    let mut map = WorldMap::new(FIELD_ONE, 16, Some(4)).unwrap();
    assert_eq!(map.generated_cell_count(), 0);
    assert!(!map.is_generated((3, 4)));
    let first = map.get_concrete_cell((3, 4)).unwrap();
    assert!(map.is_generated((3, 4)));
    assert_eq!(map.generated_cell_count(), 1);
    let second = map.get_concrete_cell((3, 4)).unwrap();
    assert_eq!(map.generated_cell_count(), 1);
    assert_eq!(first, second);
}

#[test]
fn update_scale_invalidates_every_cache() {
    let mut map = WorldMap::new(FIELD_ONE, 16, Some(2)).unwrap();
    let before = map.get_cell((10, 10));
    map.get_concrete_cell((10, 10)).unwrap();
    assert!(map.generated_chunk_count() > 0);
    assert!(map.generated_cell_count() > 0);
    map.update_scale(2 * FIELD_ONE).unwrap();
    // The caches are empty: the next request re-invokes generation.
    assert_eq!(map.generated_chunk_count(), 0);
    assert_eq!(map.generated_cell_count(), 0);
    assert!(!map.is_generated((10, 10)));
    let after = map.get_cell((10, 10));
    assert_eq!(map.generated_chunk_count(), 1);
    // The seed is kept, so restoring the old scale restores the world.
    map.update_scale(FIELD_ONE).unwrap();
    let restored = map.get_cell((10, 10));
    assert_eq!(before, restored);
    // At a different scale the cell content may differ; both samples
    // are legitimate, so only document that regeneration happened.
    let _ = after;
}

#[test]
fn construction_rejects_bad_configuration() {
    assert!(WorldMap::new(0, 16, Some(1)).is_err());
    assert!(WorldMap::new(-FIELD_ONE, 16, Some(1)).is_err());
    assert!(WorldMap::new(FIELD_ONE, 0, Some(1)).is_err());
    assert!(WorldMap::new(FIELD_ONE, -4, Some(1)).is_err());
    assert!(WorldMap::new(FIELD_ONE, 257, Some(1)).is_err());
    assert!(WorldMap::new(FIELD_ONE, 256, Some(1)).is_ok());
}

#[test]
fn auto_seed_is_reported_and_reproducible() {
    let mut first = WorldMap::new(FIELD_ONE, 16, None).unwrap();
    let seed = first.seed();
    let mut second = WorldMap::new(FIELD_ONE, 16, Some(seed)).unwrap();
    assert_eq!(first.get_cell((7, -9)), second.get_cell((7, -9)));
}
