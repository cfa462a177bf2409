use simulation::budget::{Budget, BuildingType};
use simulation::map::{
    count_placed_tiles, cycle_variant, demolish_tile, execute_placement_intents,
    expand_placeable_area, incremental_update_placeable_area, update_placeable_indicators,
    PlaceableMap, PlacementIntent, TileGrid, PLACEABLE_TEXTURE_INDEX,
};
use simulation::spatial::{SpatialGrid, TilePos};

fn tile(x: u32, y: u32) -> TilePos {
    TilePos { x, y }
}

#[test]
fn variant_cycling_wraps_both_ways() {
    assert_eq!(cycle_variant(0, 1, 5), 1);
    assert_eq!(cycle_variant(4, 1, 5), 0);
    assert_eq!(cycle_variant(0, -1, 5), 4);
    assert_eq!(cycle_variant(2, -1, 11), 1);
}

#[test]
fn placement_charges_cost_and_stamps_texture() {
    let mut grid = TileGrid::new(8, 8, PLACEABLE_TEXTURE_INDEX);
    let mut placeable = PlaceableMap::default();
    placeable.mark_placeable(tile(3, 3));
    let mut budget = Budget { money: 50000 };
    let intents = vec![PlacementIntent {
        tile_pos: tile(3, 3),
        building_type: BuildingType::Residential,
    }];
    let (placed, failed) = execute_placement_intents(&placeable, &mut grid, &mut budget, &intents, 0);
    assert_eq!(placed.len(), 1);
    assert_eq!(failed.len(), 0);
    assert_eq!(placed[0].tile_pos, tile(3, 3));
    assert_eq!(budget.money, 49000);
    assert_eq!(grid.texture(&tile(3, 3)), 3); // early residential variant art
    assert_eq!(count_placed_tiles(&grid), 1);
}

#[test]
fn placement_is_rejected_off_the_placeable_area() {
    let mut grid = TileGrid::new(8, 8, PLACEABLE_TEXTURE_INDEX);
    let placeable = PlaceableMap::default();
    let mut budget = Budget { money: 50000 };
    let intents = vec![PlacementIntent {
        tile_pos: tile(3, 3),
        building_type: BuildingType::Road,
    }];
    let (placed, failed) = execute_placement_intents(&placeable, &mut grid, &mut budget, &intents, 0);
    assert_eq!(placed.len(), 0);
    assert_eq!(failed.len(), 1);
    assert_eq!(budget.money, 50000);
}

#[test]
fn placement_is_rejected_on_occupied_tiles_and_when_unaffordable() {
    let mut grid = TileGrid::new(8, 8, PLACEABLE_TEXTURE_INDEX);
    grid.set_texture(&tile(2, 2), 4);
    let mut placeable = PlaceableMap::default();
    placeable.mark_placeable(tile(2, 2));
    placeable.mark_placeable(tile(4, 4));
    let mut budget = Budget { money: 100 };
    let intents = vec![
        PlacementIntent { tile_pos: tile(2, 2), building_type: BuildingType::Road },
        PlacementIntent { tile_pos: tile(4, 4), building_type: BuildingType::Industry },
    ];
    let (placed, failed) = execute_placement_intents(&placeable, &mut grid, &mut budget, &intents, 0);
    assert_eq!(placed.len(), 0);
    assert_eq!(failed.len(), 2);
    assert_eq!(budget.money, 100);
}

#[test]
fn placement_off_the_map_is_dropped_silently() {
    let mut grid = TileGrid::new(8, 8, PLACEABLE_TEXTURE_INDEX);
    let placeable = PlaceableMap::default();
    let mut budget = Budget { money: 50000 };
    let intents = vec![PlacementIntent {
        tile_pos: tile(8, 8),
        building_type: BuildingType::Road,
    }];
    let (placed, failed) = execute_placement_intents(&placeable, &mut grid, &mut budget, &intents, 0);
    assert_eq!(placed.len(), 0);
    assert_eq!(failed.len(), 0);
}

#[test]
fn demolition_reverts_the_tile_and_reports_the_category() {
    let mut grid = TileGrid::new(8, 8, 0);
    grid.set_texture(&tile(3, 3), 3);
    grid.set_texture(&tile(4, 4), 4);
    let mut placeable = PlaceableMap::default();
    let mut spatial = SpatialGrid::default();
    spatial.insert(tile(3, 3), BuildingType::Commercial);
    spatial.insert(tile(4, 4), BuildingType::Industry);

    let event = demolish_tile(&mut grid, &mut placeable, &spatial, &tile(3, 3));
    let event = event.expect("a placed tile should yield an event");
    // texture 3 encodes the commercial category in the tile sheet
    assert_eq!(event.building_type, BuildingType::Commercial);
    assert_eq!(event.tile_pos, tile(3, 3));
    // another building is within range, so the tile stays placeable ground
    assert_eq!(grid.texture(&tile(3, 3)), PLACEABLE_TEXTURE_INDEX);
}

#[test]
fn the_last_structure_cannot_be_demolished() {
    let mut grid = TileGrid::new(8, 8, 0);
    grid.set_texture(&tile(3, 3), 2);
    let mut placeable = PlaceableMap::default();
    let spatial = SpatialGrid::default();
    let event = demolish_tile(&mut grid, &mut placeable, &spatial, &tile(3, 3));
    assert!(event.is_none());
    assert_eq!(grid.texture(&tile(3, 3)), 2);
}

#[test]
fn demolishing_empty_ground_does_nothing() {
    let mut grid = TileGrid::new(8, 8, 0);
    let mut placeable = PlaceableMap::default();
    let spatial = SpatialGrid::default();
    assert!(demolish_tile(&mut grid, &mut placeable, &spatial, &tile(1, 1)).is_none());
}

#[test]
fn placed_structures_expand_the_placeable_area() {
    let mut grid = TileGrid::new(8, 8, 0);
    grid.set_texture(&tile(3, 3), 2);
    let mut placeable = PlaceableMap::default();
    expand_placeable_area(&mut placeable, &grid);
    assert!(placeable.is_placeable(&tile(1, 1))); // within radius 2
    assert!(placeable.is_placeable(&tile(5, 5)));
    assert!(!placeable.is_placeable(&tile(3, 3))); // the structure itself
    assert!(!placeable.is_placeable(&tile(6, 6))); // too far
}

#[test]
fn indicators_paint_placeable_ground() {
    let mut grid = TileGrid::new(8, 8, 0);
    grid.set_texture(&tile(3, 3), 2);
    let mut placeable = PlaceableMap::default();
    expand_placeable_area(&mut placeable, &grid);
    update_placeable_indicators(&placeable, &mut grid);
    assert_eq!(grid.texture(&tile(1, 1)), 1);
    assert_eq!(grid.texture(&tile(3, 3)), 2);
    assert_eq!(grid.texture(&tile(6, 6)), 0);
}

#[test]
fn incremental_update_revokes_orphaned_placeability() {
    let mut placeable = PlaceableMap::default();
    placeable.mark_placeable(tile(0, 0));
    let grid = TileGrid::new(8, 8, 0);
    let spatial = SpatialGrid::default();
    incremental_update_placeable_area(&tile(0, 0), &mut placeable, &grid, &spatial);
    assert!(!placeable.is_placeable(&tile(0, 0)));
}
