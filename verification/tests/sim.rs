use simulation::budget::{BuildingDemolished, BuildingPlaced, BuildingType};
use simulation::clock::{speed_multiplier, update_game_clock, GameClock, TimeSpeed};
use simulation::sim::CityState;
use simulation::sim_city::City;
use simulation::spatial::TilePos;

fn tile(x: u32, y: u32) -> TilePos {
    TilePos { x, y }
}

fn day(d: u32) -> GameClock {
    GameClock { day: d, hour: 0, minute: 0, second: 0 }
}

#[test]
fn a_full_tick_runs_producers_before_consumers() {
    let mut city = CityState::default();
    let placed = vec![
        BuildingPlaced { building_type: BuildingType::Road, tile_pos: tile(10, 11) },
        BuildingPlaced { building_type: BuildingType::Residential, tile_pos: tile(10, 10) },
    ];
    let abandoned = city.tick(&day(1), &placed, &vec![], &vec![]);

    assert_eq!(city.services.housing_capacity, 10);
    // population moves toward the new housing: round(10 * 0.35) = 4
    assert_eq!(city.population.population, 4);
    // demands: housing 0 (bonus 1 below capacity), jobs and entertainment 4
    assert_eq!(city.services.housing_demand, 0);
    assert_eq!(city.services.job_demand, 4);
    // happiness: pressure 0.85, one smoothing step from 1.0, local deltas 0
    assert_eq!(city.population.happiness, 682);
    // treasury: nobody employed, nothing to keep up
    assert_eq!(city.budget.money, 50000);
    assert_eq!(abandoned.len(), 0);
    assert!(city.spatial.has_road_in_radius(&tile(10, 10), 4));
}

#[test]
fn placing_and_demolishing_restores_ledger_and_index() {
    let mut city = CityState::default();
    let pos = tile(5, 5);
    let place = vec![BuildingPlaced { building_type: BuildingType::Residential, tile_pos: pos }];
    let remove = vec![BuildingDemolished {
        building_type: BuildingType::Residential,
        tile_pos: pos,
    }];

    // day 0 matches every gate's marker, so only event processing runs
    city.tick(&day(0), &place, &vec![], &vec![]);
    assert_eq!(city.services.housing_capacity, 10);
    assert_eq!(city.infrastructure.residential_count, 1);
    assert_eq!(city.spatial.count_residential_in_radius(&tile(5, 6), 2), 1);

    city.tick(&day(0), &vec![], &remove, &vec![]);
    assert_eq!(city.services.housing_capacity, 0);
    assert_eq!(city.infrastructure.residential_count, 0);
    assert_eq!(city.spatial.count_residential_in_radius(&tile(5, 6), 2), 0);
    assert!(!city.spatial.has_building_in_radius(&tile(5, 6), 3));
}

#[test]
fn day_gates_fire_once_per_day_across_ticks() {
    let mut city = CityState::default();
    let placed = vec![BuildingPlaced {
        building_type: BuildingType::Residential,
        tile_pos: tile(1, 1),
    }];
    city.tick(&day(1), &placed, &vec![], &vec![]);
    let pop_after_first = city.population.population;
    // same day, no new events: population must not step again
    city.tick(&day(1), &vec![], &vec![], &vec![]);
    assert_eq!(city.population.population, pop_after_first);
    // next day it steps again
    city.tick(&day(2), &vec![], &vec![], &vec![]);
    assert!(city.population.population > pop_after_first);
}

#[test]
fn clock_conversion_counts_days_from_one() {
    let mut clock = GameClock::default();
    update_game_clock(&mut clock, 0);
    assert_eq!((clock.day, clock.hour, clock.minute, clock.second), (1, 0, 0, 0));
    update_game_clock(&mut clock, 90061);
    assert_eq!((clock.day, clock.hour, clock.minute, clock.second), (2, 1, 1, 1));
}

#[test]
fn speed_multipliers_double_in_turn() {
    assert_eq!(speed_multiplier(TimeSpeed::Paused), 0);
    assert_eq!(speed_multiplier(TimeSpeed::Normal), 10080);
    assert_eq!(speed_multiplier(TimeSpeed::Fast), 20160);
    assert_eq!(speed_multiplier(TimeSpeed::UltraFast), 40320);
}

#[test]
fn city_status_line_shows_name_and_clock() {
    let mut city = City::new(String::from("Test City"));
    assert_eq!(city.display_status(), "Test City/Day 0, 00:00 (1x speed)");
    city.update(90000);
    assert_eq!(city.display_status(), "Test City/Day 1, 01:00 (1x speed)");
}
