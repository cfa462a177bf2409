use simulation::budget::BuildingType;
use simulation::spatial::{cell_key, SpatialGrid, TilePos, TypedSpatialGrid, CELL_SIZE};

fn tile(x: u32, y: u32) -> TilePos {
    TilePos { x, y }
}

#[test]
fn cell_key_maps_positions_to_grid_cells() {
    assert_eq!(cell_key(&tile(0, 0)), (0, 0));
    assert_eq!(cell_key(&tile(7, 7)), (0, 0)); // Still in first cell
    assert_eq!(cell_key(&tile(8, 8)), (1, 1)); // Next cell
    assert_eq!(cell_key(&tile(100, 200)), (100 / CELL_SIZE, 200 / CELL_SIZE));
}

#[test]
fn typed_grid_insert_query_remove() {
    let mut grid = TypedSpatialGrid::default();

    grid.insert(tile(10, 10));
    grid.insert(tile(11, 10));
    grid.insert(tile(20, 20)); // Far away

    // Query within radius 2 should find 2 positions
    let results = grid.query_chebyshev(&tile(10, 10), 2);
    assert_eq!(results.len(), 2);

    // After removal, only 1 remains
    grid.remove(&tile(10, 10));
    let results = grid.query_chebyshev(&tile(10, 10), 2);
    assert_eq!(results.len(), 1);
}

#[test]
fn spatial_grid_tracks_building_types_separately() {
    let mut grid = SpatialGrid::default();

    grid.insert(tile(5, 5), BuildingType::Residential);
    grid.insert(tile(6, 6), BuildingType::Road);
    grid.insert(tile(7, 7), BuildingType::Commercial);

    assert_eq!(grid.count_residential_in_radius(&tile(10, 10), 10), 1);
    assert!(grid.has_road_in_radius(&tile(10, 10), 10));
    assert_eq!(grid.buildings_in_radius(&tile(6, 6), 5).len(), 3);
}

#[test]
fn queries_exclude_center_position() {
    let mut grid = SpatialGrid::default();
    let center = tile(10, 10);

    grid.insert(center, BuildingType::Residential);
    grid.insert(tile(11, 10), BuildingType::Residential);

    // count_residential excludes center
    assert_eq!(grid.count_residential_in_radius(&center, 5), 1);
    // has_building excludes center
    assert!(!grid.has_building_in_radius(&center, 0));
}

#[test]
fn remove_clears_from_all_relevant_grids() {
    let mut grid = SpatialGrid::default();
    let pos = tile(5, 5);

    grid.insert(pos, BuildingType::Residential);
    grid.remove(&pos, BuildingType::Residential);

    assert_eq!(grid.count_residential_in_radius(&tile(6, 6), 5), 0);
    assert!(!grid.has_building_in_radius(&tile(6, 6), 5));
}

#[test]
fn query_returns_exactly_the_positions_within_radius() {
    let mut grid = TypedSpatialGrid::default();
    grid.insert(tile(0, 0));
    grid.insert(tile(3, 4));
    grid.insert(tile(4, 4));
    grid.insert(tile(30, 30));

    let results = grid.query_chebyshev(&tile(0, 0), 4);
    assert_eq!(results.len(), 3);
    assert!(results.contains(&tile(0, 0)));
    assert!(results.contains(&tile(3, 4)));
    assert!(results.contains(&tile(4, 4)));
    assert!(!results.contains(&tile(30, 30)));
}

#[test]
fn query_handles_negative_and_huge_radii() {
    let mut grid = TypedSpatialGrid::default();
    grid.insert(tile(1, 1));

    assert_eq!(grid.query_chebyshev(&tile(1, 1), -1).len(), 0);
    assert_eq!(grid.query_chebyshev(&tile(1, 1), 0).len(), 1);
}

#[test]
fn inserting_twice_keeps_one_copy() {
    let mut grid = TypedSpatialGrid::default();
    grid.insert(tile(2, 2));
    grid.insert(tile(2, 2));
    assert_eq!(grid.query_chebyshev(&tile(2, 2), 0).len(), 1);

    grid.remove(&tile(2, 2));
    assert_eq!(grid.query_chebyshev(&tile(2, 2), 0).len(), 0);
}

#[test]
fn removing_untracked_position_is_a_no_op() {
    let mut grid = SpatialGrid::default();
    grid.insert(tile(1, 1), BuildingType::Road);
    grid.remove(&tile(9, 9), BuildingType::Road);
    assert!(grid.has_road_in_radius(&tile(1, 1), 0));
}

#[test]
fn decorative_occupies_a_tile_but_has_no_category() {
    let mut grid = SpatialGrid::default();
    grid.insert(tile(4, 4), BuildingType::Decorative);

    assert!(grid.has_building_in_radius(&tile(5, 5), 2));
    assert_eq!(grid.count_residential_in_radius(&tile(5, 5), 2), 0);
    assert!(!grid.has_road_in_radius(&tile(5, 5), 2));
}

#[test]
fn cells_drop_when_emptied_and_queries_stay_correct() {
    let mut grid = TypedSpatialGrid::default();
    // Two positions in the same cell, one in a neighboring cell.
    grid.insert(tile(0, 0));
    grid.insert(tile(1, 1));
    grid.insert(tile(9, 9));

    grid.remove(&tile(0, 0));
    grid.remove(&tile(1, 1));

    let results = grid.query_chebyshev(&tile(0, 0), 20);
    assert_eq!(results.len(), 1);
    assert!(results.contains(&tile(9, 9)));
}
