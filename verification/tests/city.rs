use simulation::budget::{Budget, BuildingDemolished, BuildingPlaced, BuildingType};
use simulation::city::{
    apply_abandonment, apply_demolition_happiness, apply_placement_happiness, building_contribution,
    calculate_population_target, update_capacities_from_building_events, update_demands,
    update_happiness_from_demands, update_infrastructure_from_building_events, update_population,
    CityInfrastructure, CityPopulation, CityServices,
};
use simulation::clock::GameClock;
use simulation::spatial::{SpatialGrid, TilePos};
use simulation::spending::update_income_on_day_tick;

fn tile(x: u32, y: u32) -> TilePos {
    TilePos { x, y }
}

fn placed(bt: BuildingType, x: u32, y: u32) -> BuildingPlaced {
    BuildingPlaced { building_type: bt, tile_pos: tile(x, y) }
}

fn demolished(bt: BuildingType, x: u32, y: u32) -> BuildingDemolished {
    BuildingDemolished { building_type: bt, tile_pos: tile(x, y) }
}

fn day(d: u32) -> GameClock {
    GameClock { day: d, hour: 0, minute: 0, second: 0 }
}

#[test]
fn contributions_are_fixed_per_category() {
    let res = building_contribution(BuildingType::Residential);
    assert_eq!((res.housing, res.jobs, res.entertainment), (10, 0, 0));
    let com = building_contribution(BuildingType::Commercial);
    assert_eq!((com.housing, com.jobs, com.entertainment), (0, 5, 15));
    let ind = building_contribution(BuildingType::Industry);
    assert_eq!((ind.housing, ind.jobs, ind.entertainment), (0, 15, 3));
    let road = building_contribution(BuildingType::Road);
    assert_eq!((road.housing, road.jobs, road.entertainment), (0, 0, 0));
    let dec = building_contribution(BuildingType::Decorative);
    assert_eq!((dec.housing, dec.jobs, dec.entertainment), (0, 0, 0));
}

#[test]
fn capacities_follow_place_and_demolish_events() {
    let mut services = CityServices::default();
    let events = vec![
        placed(BuildingType::Residential, 1, 1),
        placed(BuildingType::Commercial, 2, 2),
    ];
    update_capacities_from_building_events(&mut services, &events, &vec![]);
    assert_eq!(services.housing_capacity, 10);
    assert_eq!(services.job_capacity, 5);
    assert_eq!(services.entertainment_capacity, 15);

    update_capacities_from_building_events(
        &mut services,
        &vec![],
        &vec![demolished(BuildingType::Commercial, 2, 2)],
    );
    assert_eq!(services.housing_capacity, 10);
    assert_eq!(services.job_capacity, 0);
    assert_eq!(services.entertainment_capacity, 0);
}

#[test]
fn capacities_clamp_to_zero_on_unmatched_demolitions() {
    let mut services = CityServices::default();
    update_capacities_from_building_events(
        &mut services,
        &vec![],
        &vec![demolished(BuildingType::Industry, 0, 0)],
    );
    assert_eq!(services.job_capacity, 0);
    assert_eq!(services.entertainment_capacity, 0);
}

#[test]
fn balanced_batch_equals_direct_replay_sum() {
    let mut services = CityServices::default();
    let p = vec![
        placed(BuildingType::Industry, 0, 0),
        placed(BuildingType::Industry, 1, 0),
        placed(BuildingType::Commercial, 2, 0),
    ];
    let d = vec![demolished(BuildingType::Industry, 1, 0)];
    update_capacities_from_building_events(&mut services, &p, &d);
    // direct sums: jobs 15 + 15 + 5 - 15, entertainment 3 + 3 + 15 - 3
    assert_eq!(services.job_capacity, 20);
    assert_eq!(services.entertainment_capacity, 18);
    assert!(services.job_capacity >= 0 && services.entertainment_capacity >= 0);
}

#[test]
fn infrastructure_counts_and_sector_capacities() {
    let mut infra = CityInfrastructure::default();
    let p = vec![
        placed(BuildingType::Residential, 0, 0),
        placed(BuildingType::Commercial, 1, 0),
        placed(BuildingType::Industry, 2, 0),
        placed(BuildingType::Road, 3, 0),
        placed(BuildingType::Decorative, 4, 0),
    ];
    update_infrastructure_from_building_events(&mut infra, &p, &vec![]);
    assert_eq!(infra.residential_count, 1);
    assert_eq!(infra.commercial_count, 1);
    assert_eq!(infra.industry_count, 1);
    assert_eq!(infra.road_count, 1);
    assert_eq!(infra.decorative_count, 1);
    assert_eq!(infra.commercial_job_capacity, 5);
    assert_eq!(infra.industry_job_capacity, 15);
}

#[test]
fn demands_are_shortfalls_with_happy_growth_bonus() {
    let mut services = CityServices::default();
    let population = CityPopulation { population: 100, happiness: 1000 };
    update_demands(&mut services, &population);
    // very happy: bonus = ceil(100 * 0.02) = 2
    assert_eq!(services.housing_demand, 102);
    assert_eq!(services.job_demand, 100);
    assert_eq!(services.entertainment_demand, 100);

    let calmer = CityPopulation { population: 100, happiness: 800 };
    update_demands(&mut services, &calmer);
    assert_eq!(services.housing_demand, 100);
}

#[test]
fn population_target_includes_immigration_bonus() {
    // happy, well employed, large city: bonus = 1000 * 0.0035 = 3
    assert_eq!(calculate_population_target(2000, 1000, 1000, 1000), 2003);
    // unhappy city: just the housing capacity
    assert_eq!(calculate_population_target(500, 100, 600, 100), 500);
    // job starved city: just the housing capacity
    assert_eq!(calculate_population_target(500, 100, 900, 10), 500);
}

#[test]
fn population_steps_toward_target_once_per_day() {
    let services = CityServices { housing_capacity: 100, ..CityServices::default() };
    let mut population = CityPopulation { population: 0, happiness: 1000 };
    let mut last_day: u32 = 0;
    update_population(&day(1), &services, &mut population, &mut last_day);
    // diff 100, step 35 clamped to the fast-growth cap of 8
    assert_eq!(population.population, 8);
    assert_eq!(last_day, 1);

    // day gate: same day again changes nothing
    update_population(&day(1), &services, &mut population, &mut last_day);
    assert_eq!(population.population, 8);
}

#[test]
fn happiness_blends_toward_pressure_target_once_per_day() {
    let services = CityServices {
        housing_demand: 100,
        job_demand: 100,
        entertainment_demand: 100,
        ..CityServices::default()
    };
    let mut population = CityPopulation { population: 100, happiness: 1000 };
    let mut last_day: u32 = 0;
    update_happiness_from_demands(&day(1), &services, &mut population, &mut last_day);
    // pressure capped at 1.5 => target 0 => one smoothing step of 37.5%
    assert_eq!(population.happiness, 625);

    update_happiness_from_demands(&day(1), &services, &mut population, &mut last_day);
    assert_eq!(population.happiness, 625);
}

#[test]
fn inaccessible_placement_leaves_happiness_untouched() {
    // Empty city: one residential placed with no road nearby.
    let spatial = SpatialGrid::default();
    let services = CityServices::default();
    let mut population = CityPopulation::default();
    let events = vec![placed(BuildingType::Residential, 10, 10)];
    apply_placement_happiness(&mut population, &services, &spatial, &events);
    assert_eq!(population.happiness, 1000);
}

#[test]
fn accessible_residential_placement_raises_happiness() {
    let mut spatial = SpatialGrid::default();
    spatial.insert(tile(10, 11), BuildingType::Road);
    let services = CityServices { housing_demand: 100, ..CityServices::default() };
    let mut population = CityPopulation { population: 100, happiness: 500 };
    let events = vec![placed(BuildingType::Residential, 10, 10)];
    apply_placement_happiness(&mut population, &services, &spatial, &events);
    // road within radius 4; delta = 0.01 * (0 + 1) * housing_need(1.0) = +10/1000
    assert_eq!(population.happiness, 510);
}

#[test]
fn commercial_demolition_saddens_dense_neighborhoods() {
    let mut spatial = SpatialGrid::default();
    spatial.insert(tile(9, 9), BuildingType::Residential);
    spatial.insert(tile(11, 11), BuildingType::Residential);
    let services = CityServices::default();
    let mut population = CityPopulation { population: 100, happiness: 500 };
    let events = vec![demolished(BuildingType::Commercial, 10, 10)];
    apply_demolition_happiness(&mut population, &services, &spatial, &events);
    // delta = -0.02 * 2 = -40/1000
    assert_eq!(population.happiness, 460);
}

#[test]
fn sustained_deficit_costs_happiness_on_the_third_day() {
    let services = CityServices::default();
    let infra = CityInfrastructure::default();
    let mut population = CityPopulation { population: 0, happiness: 800 };
    let mut budget = Budget { money: -1 };
    let mut last_day: u32 = 0;
    let mut streak: u32 = 0;

    update_income_on_day_tick(&day(1), &mut population, &services, &infra, &mut budget, &mut last_day, &mut streak);
    assert_eq!(population.happiness, 800);
    update_income_on_day_tick(&day(2), &mut population, &services, &infra, &mut budget, &mut last_day, &mut streak);
    assert_eq!(population.happiness, 800);
    update_income_on_day_tick(&day(3), &mut population, &services, &infra, &mut budget, &mut last_day, &mut streak);
    // exactly one fixed penalty of 10/1000, on day 3
    assert_eq!(population.happiness, 790);
    assert_eq!(budget.money, -1);
    assert_eq!(streak, 3);
}

#[test]
fn healthy_reserves_with_no_demand_earn_a_bonus() {
    let services = CityServices::default();
    let infra = CityInfrastructure::default();
    let mut population = CityPopulation { population: 0, happiness: 800 };
    let mut budget = Budget { money: 200000 };
    let mut last_day: u32 = 0;
    let mut streak: u32 = 0;
    update_income_on_day_tick(&day(1), &mut population, &services, &infra, &mut budget, &mut last_day, &mut streak);
    assert_eq!(population.happiness, 805);
    assert_eq!(streak, 0);
}

#[test]
fn treasury_collects_taxes_and_corporate_income_minus_upkeep() {
    let services = CityServices { job_capacity: 100, ..CityServices::default() };
    let infra = CityInfrastructure {
        commercial_count: 2,
        industry_count: 1,
        industry_job_capacity: 60,
        commercial_job_capacity: 40,
        ..CityInfrastructure::default()
    };
    let mut population = CityPopulation { population: 100, happiness: 1000 };
    let mut budget = Budget { money: 0 };
    let mut last_day: u32 = 0;
    let mut streak: u32 = 0;
    update_income_on_day_tick(&day(1), &mut population, &services, &infra, &mut budget, &mut last_day, &mut streak);
    // workers: 100 * 8 = 800; industry 60 * 3 = 180; commercial 40 * 2 = 80;
    // upkeep: 2 * 2 + 1 * 10 = 14
    assert_eq!(budget.money, 800 + 180 + 80 - 14);
}

#[test]
fn day_gate_keeps_treasury_idempotent_within_a_day() {
    let services = CityServices::default();
    let infra = CityInfrastructure {
        decorative_count: 1,
        ..CityInfrastructure::default()
    };
    let mut population = CityPopulation { population: 0, happiness: 800 };
    let mut budget = Budget { money: 100 };
    let mut last_day: u32 = 0;
    let mut streak: u32 = 0;
    update_income_on_day_tick(&day(1), &mut population, &services, &infra, &mut budget, &mut last_day, &mut streak);
    assert_eq!(budget.money, 85); // one day of decorative upkeep
    update_income_on_day_tick(&day(1), &mut population, &services, &infra, &mut budget, &mut last_day, &mut streak);
    assert_eq!(budget.money, 85);
}

#[test]
fn zero_job_capacity_never_counts_as_understaffed() {
    // population 100, job_capacity 0: only a housing shortage can trigger.
    let population = CityPopulation { population: 100, happiness: 500 };
    let candidates = vec![
        (tile(1, 1), BuildingType::Commercial),
        (tile(2, 2), BuildingType::Residential),
    ];
    let mut services = CityServices::default();
    update_demands(&mut services, &population);
    assert_eq!(services.job_demand, 100);
    let no_shortage = CityServices { housing_demand: 0, ..services };
    let mut last_day: u32 = 0;
    let events = apply_abandonment(&day(3), &population, &no_shortage, &mut last_day, &candidates);
    assert_eq!(events.len(), 0);

    let shortage = CityServices { housing_demand: 5, ..services };
    let mut last_day2: u32 = 0;
    let events = apply_abandonment(&day(3), &population, &shortage, &mut last_day2, &candidates);
    assert_eq!(events.len(), 1);
    assert_eq!(events[0].building_type, BuildingType::Residential);
    assert_eq!(events[0].tile_pos, tile(2, 2));
}

#[test]
fn understaffed_jobs_abandon_commercial_or_industry_first_in_order() {
    let population = CityPopulation { population: 100, happiness: 500 };
    let services = CityServices { job_capacity: 100, ..CityServices::default() };
    let candidates = vec![
        (tile(5, 5), BuildingType::Road),
        (tile(1, 1), BuildingType::Commercial),
        (tile(2, 2), BuildingType::Industry),
    ];
    let mut last_day: u32 = 0;
    // staffing ratio = (100 * 0.5) / 100 = 0.5 < 0.6
    let events = apply_abandonment(&day(3), &population, &services, &mut last_day, &candidates);
    assert_eq!(events.len(), 1);
    assert_eq!(events[0].building_type, BuildingType::Commercial);
    assert_eq!(events[0].tile_pos, tile(1, 1));

    // second sweep on the same day selects nothing
    let events = apply_abandonment(&day(3), &population, &services, &mut last_day, &candidates);
    assert_eq!(events.len(), 0);
}

#[test]
fn happy_cities_are_never_swept() {
    let population = CityPopulation { population: 100, happiness: 700 };
    let services = CityServices { housing_demand: 50, ..CityServices::default() };
    let candidates = vec![(tile(2, 2), BuildingType::Residential)];
    let mut last_day: u32 = 0;
    let events = apply_abandonment(&day(3), &population, &services, &mut last_day, &candidates);
    assert_eq!(events.len(), 0);
}
