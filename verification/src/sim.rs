//! The per-tick simulation pipeline.
//!
//! Each tick consumes the tick's placement and demolition events and runs
//! the systems in their required order: spatial index and ledger first
//! (producers), then demographics, local happiness, treasury and the
//! abandonment policy (consumers).  The whole transition is captured by
//! `spec_tick_model` over a ghost view of the state, so properties of whole
//! tick sequences can be stated and proved by induction.

use vstd::prelude::*;
use crate::budget::{Budget, BuildingDemolished, BuildingPlaced, BuildingType};
use crate::city::{
    apply_abandonment, apply_demolition_happiness, apply_placement_happiness, clamp0_i64,
    spec_apply_abandonment, spec_apply_demolition_events, spec_apply_placement_events,
    spec_update_demands, spec_update_happiness, spec_update_population, sum_entertainment,
    sum_housing, sum_jobs, count_cat, types_of_demolished, types_of_placed,
    update_capacities_from_building_events, update_demands, update_happiness_from_demands,
    update_infrastructure_from_building_events, update_population, AbandonmentCandidate,
    CityInfrastructure, CityPopulation, CityServices, HAPPINESS_SCALE,
};
use crate::clock::GameClock;
use crate::spatial::{
    insert_all_positions, insert_category_positions, remove_all_positions,
    remove_category_positions, sync_spatial_grid_on_demolition, sync_spatial_grid_on_placement,
    SpatialGrid, TilePos,
};
use crate::spending::{spec_update_income, update_income_on_day_tick};

verus! {

/// Ghost view of the whole simulation state: the five position sets of the
/// spatial index plus the numeric state of every component.
pub struct CityModel {
    pub residential: Set<TilePos>,
    pub commercial: Set<TilePos>,
    pub industry: Set<TilePos>,
    pub roads: Set<TilePos>,
    pub all_buildings: Set<TilePos>,
    pub services: CityServices,
    pub infrastructure: CityInfrastructure,
    pub population: CityPopulation,
    pub budget: Budget,
    pub last_population_day: u32,
    pub last_happiness_day: u32,
    pub last_income_day: u32,
    pub negative_streak: u32,
    pub last_abandonment_day: u32,
}

/// Everything one tick consumes.
pub struct TickInput {
    pub day: u32,
    pub placed: Seq<BuildingPlaced>,
    pub demolished: Seq<BuildingDemolished>,
    pub candidates: Seq<AbandonmentCandidate>,
}

/// Capacities after a batch: contributions added and subtracted, then
/// clamped to be non-negative.  Demand fields are untouched.
pub open spec fn spec_apply_capacities(
    services: CityServices,
    pts: Seq<BuildingType>,
    dts: Seq<BuildingType>,
) -> CityServices {
    CityServices {
        housing_capacity: clamp0_i64(
            services.housing_capacity + sum_housing(pts) - sum_housing(dts),
        ) as i64,
        job_capacity: clamp0_i64(services.job_capacity + sum_jobs(pts) - sum_jobs(dts)) as i64,
        entertainment_capacity: clamp0_i64(
            services.entertainment_capacity + sum_entertainment(pts) - sum_entertainment(dts),
        ) as i64,
        housing_demand: services.housing_demand,
        job_demand: services.job_demand,
        entertainment_demand: services.entertainment_demand,
    }
}

/// Infrastructure counts after a batch, clamped to be non-negative.
pub open spec fn spec_apply_infrastructure(
    infra: CityInfrastructure,
    pts: Seq<BuildingType>,
    dts: Seq<BuildingType>,
) -> CityInfrastructure {
    CityInfrastructure {
        residential_count: clamp0_i64(
            infra.residential_count + count_cat(pts, BuildingType::Residential) - count_cat(
                dts,
                BuildingType::Residential,
            ),
        ) as i64,
        commercial_count: clamp0_i64(
            infra.commercial_count + count_cat(pts, BuildingType::Commercial) - count_cat(
                dts,
                BuildingType::Commercial,
            ),
        ) as i64,
        industry_count: clamp0_i64(
            infra.industry_count + count_cat(pts, BuildingType::Industry) - count_cat(
                dts,
                BuildingType::Industry,
            ),
        ) as i64,
        road_count: clamp0_i64(
            infra.road_count + count_cat(pts, BuildingType::Road) - count_cat(
                dts,
                BuildingType::Road,
            ),
        ) as i64,
        decorative_count: clamp0_i64(
            infra.decorative_count + count_cat(pts, BuildingType::Decorative) - count_cat(
                dts,
                BuildingType::Decorative,
            ),
        ) as i64,
        industry_job_capacity: clamp0_i64(
            infra.industry_job_capacity + 15 * count_cat(pts, BuildingType::Industry) - 15
                * count_cat(dts, BuildingType::Industry),
        ) as i64,
        commercial_job_capacity: clamp0_i64(
            infra.commercial_job_capacity + 5 * count_cat(pts, BuildingType::Commercial) - 5
                * count_cat(dts, BuildingType::Commercial),
        ) as i64,
    }
}

/// One full tick over the ghost view: producers before consumers, exactly
/// in the order the executable `tick` runs them.  The returned events are
/// the abandonment sweep's demolitions, to be fed into a later tick.
pub open spec fn spec_tick_model(m: CityModel, input: TickInput) -> (CityModel, Seq<
    BuildingDemolished,
>) {
    let pts = types_of_placed(input.placed);
    let dts = types_of_demolished(input.demolished);
    let residential2 = remove_category_positions(
        insert_category_positions(m.residential, input.placed, BuildingType::Residential),
        input.demolished,
        BuildingType::Residential,
    );
    let commercial2 = remove_category_positions(
        insert_category_positions(m.commercial, input.placed, BuildingType::Commercial),
        input.demolished,
        BuildingType::Commercial,
    );
    let industry2 = remove_category_positions(
        insert_category_positions(m.industry, input.placed, BuildingType::Industry),
        input.demolished,
        BuildingType::Industry,
    );
    let roads2 = remove_category_positions(
        insert_category_positions(m.roads, input.placed, BuildingType::Road),
        input.demolished,
        BuildingType::Road,
    );
    let all2 = remove_all_positions(insert_all_positions(m.all_buildings, input.placed), input.demolished);
    let s1 = spec_apply_capacities(m.services, pts, dts);
    let i1 = spec_apply_infrastructure(m.infrastructure, pts, dts);
    let pop_step = spec_update_population(input.day, s1, m.population, m.last_population_day);
    let p1 = pop_step.0;
    let s2 = spec_update_demands(s1, p1);
    let happy_step = spec_update_happiness(input.day, s2, p1, m.last_happiness_day);
    let p2 = happy_step.0;
    let p3 = spec_apply_placement_events(roads2, residential2, s2, p2, input.placed);
    let p4 = spec_apply_demolition_events(residential2, s2, p3, input.demolished);
    let income_step = spec_update_income(
        input.day,
        p4,
        s2,
        i1,
        m.budget,
        m.last_income_day,
        m.negative_streak,
    );
    let sweep = spec_apply_abandonment(
        input.day,
        income_step.0,
        s2,
        m.last_abandonment_day,
        input.candidates,
    );
    (
        CityModel {
            residential: residential2,
            commercial: commercial2,
            industry: industry2,
            roads: roads2,
            all_buildings: all2,
            services: s2,
            infrastructure: i1,
            population: income_step.0,
            budget: income_step.1,
            last_population_day: pop_step.1,
            last_happiness_day: happy_step.1,
            last_income_day: income_step.2,
            negative_streak: income_step.3,
            last_abandonment_day: sweep.1,
        },
        sweep.0,
    )
}

/// The exclusively owned simulation state: every component the pipeline
/// reads and writes, each day-gated system with its own marker.
pub struct CityState {
    pub services: CityServices,
    pub infrastructure: CityInfrastructure,
    pub population: CityPopulation,
    pub budget: Budget,
    pub spatial: SpatialGrid,
    pub last_population_day: u32,
    pub last_happiness_day: u32,
    pub last_income_day: u32,
    pub negative_streak: u32,
    pub last_abandonment_day: u32,
}

impl CityState {
    /// The ghost view this state presents.
    pub open spec fn model(self) -> CityModel {
        CityModel {
            residential: self.spatial.residential.pos_set(),
            commercial: self.spatial.commercial.pos_set(),
            industry: self.spatial.industry.pos_set(),
            roads: self.spatial.roads.pos_set(),
            all_buildings: self.spatial.all_buildings.pos_set(),
            services: self.services,
            infrastructure: self.infrastructure,
            population: self.population,
            budget: self.budget,
            last_population_day: self.last_population_day,
            last_happiness_day: self.last_happiness_day,
            last_income_day: self.last_income_day,
            negative_streak: self.negative_streak,
            last_abandonment_day: self.last_abandonment_day,
        }
    }

    /// The spatial index is well formed.
    pub open spec fn wf(self) -> bool {
        self.spatial.wf()
    }

    /// Run one tick: update the spatial index and the ledger from the
    /// events, then demographics, demands, happiness, the local happiness
    /// effects of the events, the treasury, and finally the abandonment
    /// sweep, whose demolition events are returned for a later tick.
    pub fn tick(
        &mut self,
        clock: &GameClock,
        placed: &Vec<BuildingPlaced>,
        demolished: &Vec<BuildingDemolished>,
        candidates: &Vec<AbandonmentCandidate>,
    ) -> (abandoned: Vec<BuildingDemolished>)
        requires
            old(self).wf(),
        ensures
            final(self).wf(),
            ({
                let step = spec_tick_model(
                    old(self).model(),
                    TickInput {
                        day: clock.day,
                        placed: placed@,
                        demolished: demolished@,
                        candidates: candidates@,
                    },
                );
                final(self).model() == step.0 && abandoned@ == step.1
            }),
            old(self).population.wf() ==> final(self).population.wf(),
    {
        proof {
            if old(self).population.wf() {
                lemma_tick_model_preserves_population_wf(
                    old(self).model(),
                    TickInput {
                        day: clock.day,
                        placed: placed@,
                        demolished: demolished@,
                        candidates: candidates@,
                    },
                );
            }
        }
        sync_spatial_grid_on_placement(&mut self.spatial, placed);
        sync_spatial_grid_on_demolition(&mut self.spatial, demolished);
        update_capacities_from_building_events(&mut self.services, placed, demolished);
        update_infrastructure_from_building_events(&mut self.infrastructure, placed, demolished);
        update_population(
            clock,
            &self.services,
            &mut self.population,
            &mut self.last_population_day,
        );
        update_demands(&mut self.services, &self.population);
        update_happiness_from_demands(
            clock,
            &self.services,
            &mut self.population,
            &mut self.last_happiness_day,
        );
        apply_placement_happiness(&mut self.population, &self.services, &self.spatial, placed);
        apply_demolition_happiness(&mut self.population, &self.services, &self.spatial, demolished);
        update_income_on_day_tick(
            clock,
            &mut self.population,
            &self.services,
            &self.infrastructure,
            &mut self.budget,
            &mut self.last_income_day,
            &mut self.negative_streak,
        );
        let abandoned = apply_abandonment(
            clock,
            &self.population,
            &self.services,
            &mut self.last_abandonment_day,
            candidates,
        );
        abandoned
    }
}

impl Default for CityState {
    /// An empty, fully happy city with the starting grant and no buildings.
    fn default() -> (r: Self)
        ensures
            r.wf(),
            r.services == (CityServices {
                housing_capacity: 0,
                job_capacity: 0,
                entertainment_capacity: 0,
                housing_demand: 0,
                job_demand: 0,
                entertainment_demand: 0,
            }),
            r.infrastructure == (CityInfrastructure {
                residential_count: 0,
                commercial_count: 0,
                industry_count: 0,
                road_count: 0,
                decorative_count: 0,
                industry_job_capacity: 0,
                commercial_job_capacity: 0,
            }),
            r.population.population == 0,
            r.population.happiness == HAPPINESS_SCALE,
            r.budget.money == 50000,
            r.spatial.residential.pos_set() == Set::<TilePos>::empty(),
            r.spatial.commercial.pos_set() == Set::<TilePos>::empty(),
            r.spatial.industry.pos_set() == Set::<TilePos>::empty(),
            r.spatial.roads.pos_set() == Set::<TilePos>::empty(),
            r.spatial.all_buildings.pos_set() == Set::<TilePos>::empty(),
            r.last_population_day == 0 && r.last_happiness_day == 0 && r.last_income_day == 0
                && r.negative_streak == 0 && r.last_abandonment_day == 0,
    {
        CityState {
            services: CityServices::default(),
            infrastructure: CityInfrastructure::default(),
            population: CityPopulation::default(),
            budget: Budget::default(),
            spatial: SpatialGrid::default(),
            last_population_day: 0,
            last_happiness_day: 0,
            last_income_day: 0,
            negative_streak: 0,
            last_abandonment_day: 0,
        }
    }
}

/// The local placement adjustments never change the population count, and
/// keep a well-formed population well formed: every non-zero delta ends in
/// a clamp to the happiness scale.
pub proof fn lemma_placement_fold_preserves_wf(
    roads: Set<TilePos>,
    residential: Set<TilePos>,
    services: CityServices,
    population: CityPopulation,
    events: Seq<BuildingPlaced>,
)
    ensures
        spec_apply_placement_events(roads, residential, services, population, events).population
            == population.population,
        population.wf() ==> spec_apply_placement_events(
            roads,
            residential,
            services,
            population,
            events,
        ).wf(),
    decreases events.len(),
{
    if events.len() > 0 {
        lemma_placement_fold_preserves_wf(
            roads,
            residential,
            services,
            population,
            events.drop_last(),
        );
    }
}

/// The local demolition adjustments never change the population count, and
/// keep a well-formed population well formed.
pub proof fn lemma_demolition_fold_preserves_wf(
    residential: Set<TilePos>,
    services: CityServices,
    population: CityPopulation,
    events: Seq<BuildingDemolished>,
)
    ensures
        spec_apply_demolition_events(residential, services, population, events).population
            == population.population,
        population.wf() ==> spec_apply_demolition_events(
            residential,
            services,
            population,
            events,
        ).wf(),
    decreases events.len(),
{
    if events.len() > 0 {
        lemma_demolition_fold_preserves_wf(residential, services, population, events.drop_last());
    }
}

/// One tick keeps the population well formed: the count stays
/// non-negative and happiness stays on its scale, whatever the events,
/// demands and balances are.
pub proof fn lemma_tick_model_preserves_population_wf(m: CityModel, input: TickInput)
    requires
        m.population.wf(),
    ensures
        spec_tick_model(m, input).0.population.wf(),
{
    let pts = types_of_placed(input.placed);
    let dts = types_of_demolished(input.demolished);
    let residential2 = remove_category_positions(
        insert_category_positions(m.residential, input.placed, BuildingType::Residential),
        input.demolished,
        BuildingType::Residential,
    );
    let roads2 = remove_category_positions(
        insert_category_positions(m.roads, input.placed, BuildingType::Road),
        input.demolished,
        BuildingType::Road,
    );
    let s1 = spec_apply_capacities(m.services, pts, dts);
    let pop_step = spec_update_population(input.day, s1, m.population, m.last_population_day);
    let p1 = pop_step.0;
    let s2 = spec_update_demands(s1, p1);
    let happy_step = spec_update_happiness(input.day, s2, p1, m.last_happiness_day);
    let p2 = happy_step.0;
    lemma_placement_fold_preserves_wf(roads2, residential2, s2, p2, input.placed);
    let p3 = spec_apply_placement_events(roads2, residential2, s2, p2, input.placed);
    lemma_demolition_fold_preserves_wf(residential2, s2, p3, input.demolished);
}

/// The state after a whole sequence of ticks, first to last.
pub open spec fn run_ticks(m: CityModel, inputs: Seq<TickInput>) -> CityModel
    decreases inputs.len(),
{
    if inputs.len() == 0 {
        m
    } else {
        spec_tick_model(run_ticks(m, inputs.drop_last()), inputs.last()).0
    }
}

/// Happiness is always within its scale after any sequence of ticks,
/// regardless of the magnitudes of the events, demands or balances fed in,
/// and the population count never goes negative.
pub proof fn lemma_happiness_bounded_after_any_ticks(m: CityModel, inputs: Seq<TickInput>)
    requires
        m.population.wf(),
    ensures
        run_ticks(m, inputs).population.wf(),
        0 <= run_ticks(m, inputs).population.happiness <= HAPPINESS_SCALE,
    decreases inputs.len(),
{
    if inputs.len() > 0 {
        lemma_happiness_bounded_after_any_ticks(m, inputs.drop_last());
        lemma_tick_model_preserves_population_wf(run_ticks(m, inputs.drop_last()), inputs.last());
    }
}

/// Placing a building on a free tile and demolishing it in the same batch
/// restores the ledger (capacities and infrastructure counts) and every
/// layer of the spatial index exactly.
pub proof fn lemma_place_demolish_round_trip(m: CityModel, bt: BuildingType, pos: TilePos)
    requires
        m.services.housing_capacity >= 0,
        m.services.job_capacity >= 0,
        m.services.entertainment_capacity >= 0,
        m.infrastructure.residential_count >= 0,
        m.infrastructure.commercial_count >= 0,
        m.infrastructure.industry_count >= 0,
        m.infrastructure.road_count >= 0,
        m.infrastructure.decorative_count >= 0,
        m.infrastructure.industry_job_capacity >= 0,
        m.infrastructure.commercial_job_capacity >= 0,
        !m.all_buildings.contains(pos),
        !m.residential.contains(pos),
        !m.commercial.contains(pos),
        !m.industry.contains(pos),
        !m.roads.contains(pos),
    ensures
        ({
            let placed = seq![BuildingPlaced { building_type: bt, tile_pos: pos }];
            let demolished = seq![BuildingDemolished { building_type: bt, tile_pos: pos }];
            let pts = types_of_placed(placed);
            let dts = types_of_demolished(demolished);
            &&& spec_apply_capacities(m.services, pts, dts) == m.services
            &&& spec_apply_infrastructure(m.infrastructure, pts, dts) == m.infrastructure
            &&& remove_all_positions(insert_all_positions(m.all_buildings, placed), demolished)
                == m.all_buildings
            &&& remove_category_positions(
                insert_category_positions(m.residential, placed, BuildingType::Residential),
                demolished,
                BuildingType::Residential,
            ) == m.residential
            &&& remove_category_positions(
                insert_category_positions(m.commercial, placed, BuildingType::Commercial),
                demolished,
                BuildingType::Commercial,
            ) == m.commercial
            &&& remove_category_positions(
                insert_category_positions(m.industry, placed, BuildingType::Industry),
                demolished,
                BuildingType::Industry,
            ) == m.industry
            &&& remove_category_positions(
                insert_category_positions(m.roads, placed, BuildingType::Road),
                demolished,
                BuildingType::Road,
            ) == m.roads
        }),
{
    let placed = seq![BuildingPlaced { building_type: bt, tile_pos: pos }];
    let demolished = seq![BuildingDemolished { building_type: bt, tile_pos: pos }];
    let pts = types_of_placed(placed);
    let dts = types_of_demolished(demolished);
    assert(pts =~= seq![bt]);
    assert(dts =~= seq![bt]);
    assert(pts.drop_last() =~= Seq::<BuildingType>::empty());
    assert(dts.drop_last() =~= Seq::<BuildingType>::empty());
    assert(pts.last() == bt && dts.last() == bt);
    assert(sum_housing(pts.drop_last()) == 0);
    assert(sum_jobs(pts.drop_last()) == 0);
    assert(sum_entertainment(pts.drop_last()) == 0);
    assert(sum_housing(pts) == sum_housing(dts));
    assert(sum_jobs(pts) == sum_jobs(dts));
    assert(sum_entertainment(pts) == sum_entertainment(dts));
    assert forall|cat: BuildingType| #[trigger]
        count_cat(pts, cat) == count_cat(dts, cat) by {
        assert(count_cat(pts.drop_last(), cat) == 0);
    }
    assert(spec_apply_capacities(m.services, pts, dts) == m.services);
    assert(spec_apply_infrastructure(m.infrastructure, pts, dts) == m.infrastructure);
    assert(placed.drop_last() =~= Seq::<BuildingPlaced>::empty());
    assert(demolished.drop_last() =~= Seq::<BuildingDemolished>::empty());
    assert(placed.last().tile_pos == pos && demolished.last().tile_pos == pos);
    assert(insert_all_positions(m.all_buildings, placed.drop_last()) == m.all_buildings);
    assert(insert_all_positions(m.all_buildings, placed) =~= m.all_buildings.insert(pos));
    assert(remove_all_positions(m.all_buildings.insert(pos), demolished.drop_last())
        == m.all_buildings.insert(pos));
    assert(remove_all_positions(m.all_buildings.insert(pos), demolished) =~= m.all_buildings);
    lemma_category_round_trip(m.residential, bt, pos, BuildingType::Residential);
    lemma_category_round_trip(m.commercial, bt, pos, BuildingType::Commercial);
    lemma_category_round_trip(m.industry, bt, pos, BuildingType::Industry);
    lemma_category_round_trip(m.roads, bt, pos, BuildingType::Road);
}

/// One category layer is restored exactly by a place/demolish pair of the
/// same building, whether or not the building belongs to the category.
proof fn lemma_category_round_trip(s: Set<TilePos>, bt: BuildingType, pos: TilePos, cat: BuildingType)
    requires
        !s.contains(pos),
    ensures
        remove_category_positions(
            insert_category_positions(
                s,
                seq![BuildingPlaced { building_type: bt, tile_pos: pos }],
                cat,
            ),
            seq![BuildingDemolished { building_type: bt, tile_pos: pos }],
            cat,
        ) == s,
{
    let placed = seq![BuildingPlaced { building_type: bt, tile_pos: pos }];
    let demolished = seq![BuildingDemolished { building_type: bt, tile_pos: pos }];
    assert(placed.drop_last() =~= Seq::<BuildingPlaced>::empty());
    assert(demolished.drop_last() =~= Seq::<BuildingDemolished>::empty());
    assert(insert_category_positions(s, placed.drop_last(), cat) == s);
    let mid = insert_category_positions(s, placed, cat);
    assert(remove_category_positions(mid, demolished.drop_last(), cat) == mid);
    if bt == cat {
        assert(mid == s.insert(pos));
        assert(remove_category_positions(mid, demolished, cat) == mid.remove(pos));
        assert(s.insert(pos).remove(pos) =~= s);
    } else {
        assert(mid == s);
        assert(remove_category_positions(mid, demolished, cat) == mid);
    }
}

} // verus!
