//! City state and the event-driven bookkeeping that maintains it: service
//! capacities, infrastructure counts, population, demand figures and
//! happiness.
//!
//! Happiness is stored in thousandths (0 = everyone sad, 1000 = everyone
//! happy) so that every update is exact integer arithmetic.  Each system
//! that runs once per in-game day carries its own last-processed-day marker
//! and is a no-op when called again on the same day.

use vstd::prelude::*;
use crate::budget::{BuildingDemolished, BuildingPlaced, BuildingType};
use crate::clock::GameClock;
use crate::spatial::{SpatialGrid, TilePos};

verus! {

/// Happiness scale: the value that stands for 1.0 (everyone happy).
pub const HAPPINESS_SCALE: i64 = 1000;

/// Clamp an unbounded integer into `[0, i64::MAX]`.
pub open spec fn clamp0_i64(x: int) -> int {
    if x < 0 {
        0
    } else if x > i64::MAX as int {
        i64::MAX as int
    } else {
        x
    }
}

/// Clamp an unbounded integer into `[lo, hi]`.
pub open spec fn clamp_int(x: int, lo: int, hi: int) -> int {
    if x < lo {
        lo
    } else if x > hi {
        hi
    } else {
        x
    }
}

/// Exec counterpart of `clamp0_i64` for a 128-bit intermediate.
fn clamp0_from_i128(v: i128) -> (r: i64)
    ensures
        r as int == clamp0_i64(v as int),
{
    if v < 0 {
        0
    } else if v > i64::MAX as i128 {
        i64::MAX
    } else {
        v as i64
    }
}

/// The city's population and aggregate happiness.
#[derive(Clone, Copy, PartialEq, Eq, Debug, Structural)]
pub struct CityPopulation {
    /// Total number of citizens currently living in the city.
    pub population: i64,
    /// From 0 ("everyone is sad") to `HAPPINESS_SCALE` ("everyone is happy"),
    /// in thousandths.
    pub happiness: i64,
}

impl Default for CityPopulation {
    /// An empty city starts perfectly happy.
    fn default() -> (r: Self)
        ensures
            r.population == 0,
            r.happiness == HAPPINESS_SCALE,
            r.wf(),
    {
        CityPopulation { population: 0, happiness: HAPPINESS_SCALE }
    }
}

impl CityPopulation {
    /// Population is never negative; happiness stays on its scale.
    pub open spec fn wf(self) -> bool {
        &&& self.population >= 0
        &&& 0 <= self.happiness <= HAPPINESS_SCALE
    }
}

/// How much housing, jobs and entertainment the city provides, and the
/// shortfall of each relative to the population.
#[derive(Clone, Copy, PartialEq, Eq, Debug, Structural)]
pub struct CityServices {
    pub housing_capacity: i64,
    pub job_capacity: i64,
    pub entertainment_capacity: i64,
    pub housing_demand: i64,
    pub job_demand: i64,
    pub entertainment_demand: i64,
}

impl Default for CityServices {
    /// No capacity and no demand.
    fn default() -> (r: Self)
        ensures
            r == (CityServices {
                housing_capacity: 0,
                job_capacity: 0,
                entertainment_capacity: 0,
                housing_demand: 0,
                job_demand: 0,
                entertainment_demand: 0,
            }),
    {
        CityServices {
            housing_capacity: 0,
            job_capacity: 0,
            entertainment_capacity: 0,
            housing_demand: 0,
            job_demand: 0,
            entertainment_demand: 0,
        }
    }
}

/// Coarse infrastructure statistics that drive upkeep and income.
#[derive(Clone, Copy, PartialEq, Eq, Debug, Structural)]
pub struct CityInfrastructure {
    pub residential_count: i64,
    pub commercial_count: i64,
    pub industry_count: i64,
    pub road_count: i64,
    pub decorative_count: i64,
    pub industry_job_capacity: i64,
    pub commercial_job_capacity: i64,
}

impl Default for CityInfrastructure {
    /// Nothing built yet.
    fn default() -> (r: Self)
        ensures
            r == (CityInfrastructure {
                residential_count: 0,
                commercial_count: 0,
                industry_count: 0,
                road_count: 0,
                decorative_count: 0,
                industry_job_capacity: 0,
                commercial_job_capacity: 0,
            }),
    {
        CityInfrastructure {
            residential_count: 0,
            commercial_count: 0,
            industry_count: 0,
            road_count: 0,
            decorative_count: 0,
            industry_job_capacity: 0,
            commercial_job_capacity: 0,
        }
    }
}

/// Fixed contribution of one building to the city's capacities.
#[derive(Clone, Copy, PartialEq, Eq, Debug, Structural)]
pub struct BuildingContribution {
    pub housing: i64,
    pub jobs: i64,
    pub entertainment: i64,
}

/// Housing places contributed by one building of the category.
pub open spec fn housing_of(bt: BuildingType) -> int {
    match bt {
        BuildingType::Residential => 10,
        _ => 0,
    }
}

/// Jobs contributed by one building of the category.
pub open spec fn jobs_of(bt: BuildingType) -> int {
    match bt {
        BuildingType::Commercial => 5,
        BuildingType::Industry => 15,
        _ => 0,
    }
}

/// Entertainment contributed by one building of the category.
pub open spec fn entertainment_of(bt: BuildingType) -> int {
    match bt {
        BuildingType::Commercial => 15,
        BuildingType::Industry => 3,
        _ => 0,
    }
}

/// The fixed capacity contribution of each building category.  Roads and
/// decorative buildings occupy a tile but contribute nothing.
pub fn building_contribution(building_type: BuildingType) -> (r: BuildingContribution)
    ensures
        r.housing == housing_of(building_type),
        r.jobs == jobs_of(building_type),
        r.entertainment == entertainment_of(building_type),
{
    match building_type {
        BuildingType::Residential => BuildingContribution { housing: 10, jobs: 0, entertainment: 0 },
        BuildingType::Commercial => BuildingContribution { housing: 0, jobs: 5, entertainment: 15 },
        BuildingType::Industry => BuildingContribution { housing: 0, jobs: 15, entertainment: 3 },
        BuildingType::Road => BuildingContribution { housing: 0, jobs: 0, entertainment: 0 },
        BuildingType::Decorative => BuildingContribution { housing: 0, jobs: 0, entertainment: 0 },
    }
}

/// Total housing contributed by a sequence of building categories.
pub open spec fn sum_housing(ts: Seq<BuildingType>) -> int
    decreases ts.len(),
{
    if ts.len() == 0 {
        0
    } else {
        sum_housing(ts.drop_last()) + housing_of(ts.last())
    }
}

/// Total jobs contributed by a sequence of building categories.
pub open spec fn sum_jobs(ts: Seq<BuildingType>) -> int
    decreases ts.len(),
{
    if ts.len() == 0 {
        0
    } else {
        sum_jobs(ts.drop_last()) + jobs_of(ts.last())
    }
}

/// Total entertainment contributed by a sequence of building categories.
pub open spec fn sum_entertainment(ts: Seq<BuildingType>) -> int
    decreases ts.len(),
{
    if ts.len() == 0 {
        0
    } else {
        sum_entertainment(ts.drop_last()) + entertainment_of(ts.last())
    }
}

/// How many entries of `ts` are the category `cat`.
pub open spec fn count_cat(ts: Seq<BuildingType>, cat: BuildingType) -> int
    decreases ts.len(),
{
    if ts.len() == 0 {
        0
    } else {
        count_cat(ts.drop_last(), cat) + if ts.last() == cat {
            1int
        } else {
            0int
        }
    }
}

/// The categories of a batch of placement events, in order.
pub open spec fn types_of_placed(events: Seq<BuildingPlaced>) -> Seq<BuildingType> {
    events.map_values(|e: BuildingPlaced| e.building_type)
}

/// The categories of a batch of demolition events, in order.
pub open spec fn types_of_demolished(events: Seq<BuildingDemolished>) -> Seq<BuildingType> {
    events.map_values(|e: BuildingDemolished| e.building_type)
}

/// Each per-category count is between 0 and the batch length, and every
/// capacity sum is the per-category count times the fixed contribution.
pub proof fn lemma_sums_decompose(ts: Seq<BuildingType>)
    ensures
        forall|cat: BuildingType| 0 <= #[trigger] count_cat(ts, cat) <= ts.len(),
        sum_housing(ts) == 10 * count_cat(ts, BuildingType::Residential),
        sum_jobs(ts) == 5 * count_cat(ts, BuildingType::Commercial) + 15 * count_cat(
            ts,
            BuildingType::Industry,
        ),
        sum_entertainment(ts) == 15 * count_cat(ts, BuildingType::Commercial) + 3 * count_cat(
            ts,
            BuildingType::Industry,
        ),
    decreases ts.len(),
{
    if ts.len() > 0 {
        lemma_sums_decompose(ts.drop_last());
        assert forall|cat: BuildingType| 0 <= #[trigger] count_cat(ts, cat) <= ts.len() by {
            assert(0 <= count_cat(ts.drop_last(), cat) <= ts.drop_last().len());
        }
    }
}

/// React to a batch of placement and demolition events by adding and
/// subtracting each building's fixed contribution, then clamping every
/// capacity to be non-negative (this protects against event mis-ordering,
/// e.g. a demolition for a building whose placement was never counted).
pub fn update_capacities_from_building_events(
    services: &mut CityServices,
    placed: &Vec<BuildingPlaced>,
    demolished: &Vec<BuildingDemolished>,
)
    ensures
        final(services).housing_capacity == clamp0_i64(
            old(services).housing_capacity + sum_housing(types_of_placed(placed@)) - sum_housing(
                types_of_demolished(demolished@),
            ),
        ),
        final(services).job_capacity == clamp0_i64(
            old(services).job_capacity + sum_jobs(types_of_placed(placed@)) - sum_jobs(
                types_of_demolished(demolished@),
            ),
        ),
        final(services).entertainment_capacity == clamp0_i64(
            old(services).entertainment_capacity + sum_entertainment(types_of_placed(placed@))
                - sum_entertainment(types_of_demolished(demolished@)),
        ),
        final(services).housing_demand == old(services).housing_demand,
        final(services).job_demand == old(services).job_demand,
        final(services).entertainment_demand == old(services).entertainment_demand,
{
    let ghost pts = types_of_placed(placed@);
    let ghost dts = types_of_demolished(demolished@);
    let mut h: i128 = services.housing_capacity as i128;
    let mut j: i128 = services.job_capacity as i128;
    let mut e: i128 = services.entertainment_capacity as i128;
    let n = placed.len();
    let mut i: usize = 0;
    while i < n
        invariant
            i <= n,
            n == placed@.len(),
            pts == types_of_placed(placed@),
            h as int == old(services).housing_capacity + sum_housing(pts.take(i as int)),
            j as int == old(services).job_capacity + sum_jobs(pts.take(i as int)),
            e as int == old(services).entertainment_capacity + sum_entertainment(
                pts.take(i as int),
            ),
            i64::MIN <= h as int <= i64::MAX as int + 15 * i,
            i64::MIN <= j as int <= i64::MAX as int + 15 * i,
            i64::MIN <= e as int <= i64::MAX as int + 15 * i,
        decreases n - i,
    {
        proof {
            lemma_sums_decompose(pts.take(i as int));
            assert(pts.take(i as int + 1) =~= pts.take(i as int).push(pts[i as int]));
            assert(pts.take(i as int + 1).drop_last() =~= pts.take(i as int));
            assert(pts[i as int] == placed@[i as int].building_type);
        }
        let gain = building_contribution(placed[i].building_type);
        h = h + gain.housing as i128;
        j = j + gain.jobs as i128;
        e = e + gain.entertainment as i128;
        i = i + 1;
    }
    proof {
        assert(pts.take(n as int) =~= pts);
        lemma_sums_decompose(pts);
    }
    let m = demolished.len();
    let mut k: usize = 0;
    while k < m
        invariant
            k <= m,
            m == demolished@.len(),
            dts == types_of_demolished(demolished@),
            h as int == old(services).housing_capacity + sum_housing(pts) - sum_housing(
                dts.take(k as int),
            ),
            j as int == old(services).job_capacity + sum_jobs(pts) - sum_jobs(dts.take(k as int)),
            e as int == old(services).entertainment_capacity + sum_entertainment(pts)
                - sum_entertainment(dts.take(k as int)),
            i64::MIN as int - 15 * k <= h as int <= i64::MAX as int + 15 * pts.len(),
            i64::MIN as int - 15 * k <= j as int <= i64::MAX as int + 15 * pts.len(),
            i64::MIN as int - 15 * k <= e as int <= i64::MAX as int + 15 * pts.len(),
        decreases m - k,
    {
        proof {
            lemma_sums_decompose(dts.take(k as int));
            assert(dts.take(k as int + 1) =~= dts.take(k as int).push(dts[k as int]));
            assert(dts.take(k as int + 1).drop_last() =~= dts.take(k as int));
            assert(dts[k as int] == demolished@[k as int].building_type);
        }
        let gain = building_contribution(demolished[k].building_type);
        h = h - gain.housing as i128;
        j = j - gain.jobs as i128;
        e = e - gain.entertainment as i128;
        k = k + 1;
    }
    proof {
        assert(dts.take(m as int) =~= dts);
    }
    services.housing_capacity = clamp0_from_i128(h);
    services.job_capacity = clamp0_from_i128(j);
    services.entertainment_capacity = clamp0_from_i128(e);
}

/// React to a batch of placement and demolition events by updating the
/// per-category building counts and the per-sector job-capacity subtotals,
/// then clamping every count to be non-negative.
pub fn update_infrastructure_from_building_events(
    infra: &mut CityInfrastructure,
    placed: &Vec<BuildingPlaced>,
    demolished: &Vec<BuildingDemolished>,
)
    ensures
        final(infra).residential_count == clamp0_i64(
            old(infra).residential_count + count_cat(
                types_of_placed(placed@),
                BuildingType::Residential,
            ) - count_cat(types_of_demolished(demolished@), BuildingType::Residential),
        ),
        final(infra).commercial_count == clamp0_i64(
            old(infra).commercial_count + count_cat(
                types_of_placed(placed@),
                BuildingType::Commercial,
            ) - count_cat(types_of_demolished(demolished@), BuildingType::Commercial),
        ),
        final(infra).industry_count == clamp0_i64(
            old(infra).industry_count + count_cat(types_of_placed(placed@), BuildingType::Industry)
                - count_cat(types_of_demolished(demolished@), BuildingType::Industry),
        ),
        final(infra).road_count == clamp0_i64(
            old(infra).road_count + count_cat(types_of_placed(placed@), BuildingType::Road)
                - count_cat(types_of_demolished(demolished@), BuildingType::Road),
        ),
        final(infra).decorative_count == clamp0_i64(
            old(infra).decorative_count + count_cat(
                types_of_placed(placed@),
                BuildingType::Decorative,
            ) - count_cat(types_of_demolished(demolished@), BuildingType::Decorative),
        ),
        final(infra).commercial_job_capacity == clamp0_i64(
            old(infra).commercial_job_capacity + 5 * count_cat(
                types_of_placed(placed@),
                BuildingType::Commercial,
            ) - 5 * count_cat(types_of_demolished(demolished@), BuildingType::Commercial),
        ),
        final(infra).industry_job_capacity == clamp0_i64(
            old(infra).industry_job_capacity + 15 * count_cat(
                types_of_placed(placed@),
                BuildingType::Industry,
            ) - 15 * count_cat(types_of_demolished(demolished@), BuildingType::Industry),
        ),
{
    let ghost pts = types_of_placed(placed@);
    let ghost dts = types_of_demolished(demolished@);
    let mut rc: i128 = infra.residential_count as i128;
    let mut cc: i128 = infra.commercial_count as i128;
    let mut ic: i128 = infra.industry_count as i128;
    let mut oc: i128 = infra.road_count as i128;
    let mut dc: i128 = infra.decorative_count as i128;
    let mut cj: i128 = infra.commercial_job_capacity as i128;
    let mut ij: i128 = infra.industry_job_capacity as i128;
    let n = placed.len();
    let mut i: usize = 0;
    while i < n
        invariant
            i <= n,
            n == placed@.len(),
            pts == types_of_placed(placed@),
            rc as int == old(infra).residential_count + count_cat(
                pts.take(i as int),
                BuildingType::Residential,
            ),
            cc as int == old(infra).commercial_count + count_cat(
                pts.take(i as int),
                BuildingType::Commercial,
            ),
            ic as int == old(infra).industry_count + count_cat(
                pts.take(i as int),
                BuildingType::Industry,
            ),
            oc as int == old(infra).road_count + count_cat(pts.take(i as int), BuildingType::Road),
            dc as int == old(infra).decorative_count + count_cat(
                pts.take(i as int),
                BuildingType::Decorative,
            ),
            cj as int == old(infra).commercial_job_capacity + 5 * count_cat(
                pts.take(i as int),
                BuildingType::Commercial,
            ),
            ij as int == old(infra).industry_job_capacity + 15 * count_cat(
                pts.take(i as int),
                BuildingType::Industry,
            ),
        decreases n - i,
    {
        proof {
            lemma_sums_decompose(pts.take(i as int));
            lemma_sums_decompose(pts.take(i as int + 1));
            assert(pts.take(i as int + 1) =~= pts.take(i as int).push(pts[i as int]));
            assert(pts.take(i as int + 1).drop_last() =~= pts.take(i as int));
            assert(pts[i as int] == placed@[i as int].building_type);
        }
        let gain = building_contribution(placed[i].building_type);
        match placed[i].building_type {
            BuildingType::Residential => {
                rc = rc + 1;
            },
            BuildingType::Commercial => {
                cc = cc + 1;
                cj = cj + gain.jobs as i128;
            },
            BuildingType::Industry => {
                ic = ic + 1;
                ij = ij + gain.jobs as i128;
            },
            BuildingType::Road => {
                oc = oc + 1;
            },
            BuildingType::Decorative => {
                dc = dc + 1;
            },
        }
        i = i + 1;
    }
    proof {
        assert(pts.take(n as int) =~= pts);
        lemma_sums_decompose(pts);
    }
    let m = demolished.len();
    let mut k: usize = 0;
    while k < m
        invariant
            k <= m,
            m == demolished@.len(),
            dts == types_of_demolished(demolished@),
            rc as int == old(infra).residential_count + count_cat(pts, BuildingType::Residential)
                - count_cat(dts.take(k as int), BuildingType::Residential),
            cc as int == old(infra).commercial_count + count_cat(pts, BuildingType::Commercial)
                - count_cat(dts.take(k as int), BuildingType::Commercial),
            ic as int == old(infra).industry_count + count_cat(pts, BuildingType::Industry)
                - count_cat(dts.take(k as int), BuildingType::Industry),
            oc as int == old(infra).road_count + count_cat(pts, BuildingType::Road) - count_cat(
                dts.take(k as int),
                BuildingType::Road,
            ),
            dc as int == old(infra).decorative_count + count_cat(pts, BuildingType::Decorative)
                - count_cat(dts.take(k as int), BuildingType::Decorative),
            cj as int == old(infra).commercial_job_capacity + 5 * count_cat(
                pts,
                BuildingType::Commercial,
            ) - 5 * count_cat(dts.take(k as int), BuildingType::Commercial),
            ij as int == old(infra).industry_job_capacity + 15 * count_cat(
                pts,
                BuildingType::Industry,
            ) - 15 * count_cat(dts.take(k as int), BuildingType::Industry),
            i64::MIN as int - 15 * k <= cj as int,
            i64::MIN as int - 15 * k <= ij as int,
        decreases m - k,
    {
        proof {
            lemma_sums_decompose(dts.take(k as int));
            lemma_sums_decompose(dts.take(k as int + 1));
            lemma_sums_decompose(pts);
            assert(dts.take(k as int + 1) =~= dts.take(k as int).push(dts[k as int]));
            assert(dts.take(k as int + 1).drop_last() =~= dts.take(k as int));
            assert(dts[k as int] == demolished@[k as int].building_type);
        }
        let gain = building_contribution(demolished[k].building_type);
        match demolished[k].building_type {
            BuildingType::Residential => {
                rc = rc - 1;
            },
            BuildingType::Commercial => {
                cc = cc - 1;
                cj = cj - gain.jobs as i128;
            },
            BuildingType::Industry => {
                ic = ic - 1;
                ij = ij - gain.jobs as i128;
            },
            BuildingType::Road => {
                oc = oc - 1;
            },
            BuildingType::Decorative => {
                dc = dc - 1;
            },
        }
        k = k + 1;
    }
    proof {
        assert(dts.take(m as int) =~= dts);
        lemma_sums_decompose(dts);
        lemma_sums_decompose(pts);
    }
    infra.residential_count = clamp0_from_i128(rc);
    infra.commercial_count = clamp0_from_i128(cc);
    infra.industry_count = clamp0_from_i128(ic);
    infra.road_count = clamp0_from_i128(oc);
    infra.decorative_count = clamp0_from_i128(dc);
    infra.commercial_job_capacity = clamp0_from_i128(cj);
    infra.industry_job_capacity = clamp0_from_i128(ij);
}

/// Replaying a balanced batch (no category is demolished more often than it
/// was placed) over a fresh ledger yields exactly the direct replay sums,
/// with every counter non-negative: the clamps never fire.
pub proof fn lemma_balanced_replay(placed: Seq<BuildingPlaced>, demolished: Seq<BuildingDemolished>)
    requires
        forall|cat: BuildingType| #[trigger] count_cat(types_of_demolished(demolished), cat)
            <= count_cat(types_of_placed(placed), cat),
        sum_housing(types_of_placed(placed)) <= i64::MAX as int,
        sum_jobs(types_of_placed(placed)) <= i64::MAX as int,
        sum_entertainment(types_of_placed(placed)) <= i64::MAX as int,
    ensures
        clamp0_i64(
            0 + sum_housing(types_of_placed(placed)) - sum_housing(types_of_demolished(demolished)),
        ) == sum_housing(types_of_placed(placed)) - sum_housing(types_of_demolished(demolished)),
        sum_housing(types_of_placed(placed)) - sum_housing(types_of_demolished(demolished)) >= 0,
        clamp0_i64(
            0 + sum_jobs(types_of_placed(placed)) - sum_jobs(types_of_demolished(demolished)),
        ) == sum_jobs(types_of_placed(placed)) - sum_jobs(types_of_demolished(demolished)),
        sum_jobs(types_of_placed(placed)) - sum_jobs(types_of_demolished(demolished)) >= 0,
        clamp0_i64(
            0 + sum_entertainment(types_of_placed(placed)) - sum_entertainment(
                types_of_demolished(demolished),
            ),
        ) == sum_entertainment(types_of_placed(placed)) - sum_entertainment(
            types_of_demolished(demolished),
        ),
        sum_entertainment(types_of_placed(placed)) - sum_entertainment(
            types_of_demolished(demolished),
        ) >= 0,
{
    let pts = types_of_placed(placed);
    let dts = types_of_demolished(demolished);
    lemma_sums_decompose(pts);
    lemma_sums_decompose(dts);
    assert(count_cat(dts, BuildingType::Residential) <= count_cat(pts, BuildingType::Residential));
    assert(count_cat(dts, BuildingType::Commercial) <= count_cat(pts, BuildingType::Commercial));
    assert(count_cat(dts, BuildingType::Industry) <= count_cat(pts, BuildingType::Industry));
}

/// Negative values count as zero.
pub open spec fn max0(x: int) -> int {
    if x < 0 {
        0
    } else {
        x
    }
}

/// Clamp an unbounded integer into the representable `i64` range.
pub open spec fn clamp_i64_range(x: int) -> int {
    clamp_int(x, i64::MIN as int, i64::MAX as int)
}

/// The demand figures that follow from a population and the current
/// capacities: each is the shortfall relative to the population, never
/// negative.  Very happy cities (happiness at or above 900 thousandths)
/// project extra housing demand for expected growth.
pub open spec fn spec_update_demands(services: CityServices, population: CityPopulation)
    -> CityServices {
    let pop = max0(population.population as int);
    let bonus = if pop > 0 && population.happiness >= 900 {
        let hf = clamp_int((population.happiness - 900) * 10, 0, 1000);
        (pop * 20 * hf + 999999) / 1000000
    } else {
        0
    };
    CityServices {
        housing_capacity: services.housing_capacity,
        job_capacity: services.job_capacity,
        entertainment_capacity: services.entertainment_capacity,
        housing_demand: clamp0_i64(pop + bonus - services.housing_capacity) as i64,
        job_demand: clamp0_i64(pop - services.job_capacity) as i64,
        entertainment_demand: clamp0_i64(pop - services.entertainment_capacity) as i64,
    }
}

/// Recompute the demand figures; capacities are untouched.
pub fn update_demands(services: &mut CityServices, population: &CityPopulation)
    ensures
        *final(services) == spec_update_demands(*old(services), *population),
{
    let pop: i64 = if population.population < 0 {
        0
    } else {
        population.population
    };
    let mut bonus: i128 = 0;
    if pop > 0 && population.happiness >= 900 {
        let hf128: i128 = (population.happiness as i128 - 900) * 10;
        let hf: i128 = if hf128 < 0 {
            0
        } else if hf128 > 1000 {
            1000
        } else {
            hf128
        };
        proof {
            assert(0 <= (pop as i128) * 20 * hf <= 20000i128 * (i64::MAX as i128)) by (nonlinear_arith)
                requires
                    0 <= pop as i128 <= i64::MAX as i128,
                    0 <= hf <= 1000,
            ;
        }
        bonus = (pop as i128 * 20 * hf + 999999) / 1000000;
    }
    services.housing_demand = clamp0_from_i128(
        pop as i128 + bonus - services.housing_capacity as i128,
    );
    services.job_demand = clamp0_from_i128(pop as i128 - services.job_capacity as i128);
    services.entertainment_demand = clamp0_from_i128(
        pop as i128 - services.entertainment_capacity as i128,
    );
}

/// The population the city is drawn toward: the housing capacity, plus an
/// immigration bonus when the city is happy (happiness at or above 700
/// thousandths) and jobs are plentiful (at least one job for every two
/// citizens).  The bonus rate shrinks as the city approaches 1000 citizens.
pub open spec fn spec_population_target(
    housing_capacity: int,
    current_population: int,
    happiness: int,
    job_capacity: int,
) -> int {
    let base_target = max0(housing_capacity);
    if happiness < 700 || current_population == 0 {
        base_target
    } else {
        let ja = if job_capacity >= current_population {
            1000int
        } else if job_capacity <= 0 {
            0int
        } else {
            (job_capacity * 1000) / current_population
        };
        if ja < 500 {
            base_target
        } else {
            let hf = clamp_int(((happiness - 700) * 1000) / 300, 0, 1000);
            let pop_factor = if current_population < 1000 {
                current_population
            } else {
                1000int
            };
            let growth_reduction = (pop_factor * 300) / 1000;
            let rate_num = 5 * hf * (1000 - growth_reduction) * ja;
            let bonus = (current_population * rate_num) / 1000000000000;
            clamp0_i64(base_target + bonus)
        }
    }
}

/// Compute the population target from housing, happiness and jobs.
pub fn calculate_population_target(
    housing_capacity: i64,
    current_population: i64,
    happiness: i64,
    job_capacity: i64,
) -> (r: i64)
    requires
        current_population >= 0,
    ensures
        r as int == spec_population_target(
            housing_capacity as int,
            current_population as int,
            happiness as int,
            job_capacity as int,
        ),
{
    let base_target: i64 = if housing_capacity < 0 {
        0
    } else {
        housing_capacity
    };
    if happiness < 700 || current_population == 0 {
        return base_target;
    }
    let ja: i64 = if job_capacity >= current_population {
        1000
    } else if job_capacity <= 0 {
        0
    } else {
        proof {
            let a = job_capacity as int;
            let p = current_population as int;
            vstd::arithmetic::div_mod::lemma_div_pos_is_pos(a * 1000, p);
            vstd::arithmetic::div_mod::lemma_div_is_ordered(a * 1000, p * 1000, p);
            vstd::arithmetic::div_mod::lemma_div_by_multiple(1000, p);
            assert(p * 1000 == 1000 * p);
            assert(0 <= (a * 1000) / p <= 1000);
        }
        ((job_capacity as i128 * 1000) / current_population as i128) as i64
    };
    if ja < 500 {
        return base_target;
    }
    let hf128: i128 = ((happiness as i128 - 700) * 1000) / 300;
    let hf: i128 = if hf128 < 0 {
        0
    } else if hf128 > 1000 {
        1000
    } else {
        hf128
    };
    let pop_factor: i128 = if current_population < 1000 {
        current_population as i128
    } else {
        1000
    };
    let growth_reduction: i128 = (pop_factor * 300) / 1000;
    proof {
        vstd::arithmetic::div_mod::lemma_div_pos_is_pos(pop_factor as int * 300, 1000);
        vstd::arithmetic::div_mod::lemma_div_is_ordered(
            pop_factor as int * 300,
            1000int * 300,
            1000,
        );
        vstd::arithmetic::div_mod::lemma_div_by_multiple(300, 1000);
        assert(0 <= growth_reduction as int <= 300);
        assert(0 <= ja <= 1000);
        assert(0 <= 5 * (hf as int) * (1000 - growth_reduction as int) <= 5000000) by (nonlinear_arith)
            requires
                0 <= hf as int <= 1000,
                0 <= growth_reduction as int <= 300,
        ;
        assert(0 <= 5 * (hf as int) * (1000 - growth_reduction as int) * (ja as int)
            <= 5000000000i128 as int) by (nonlinear_arith)
            requires
                0 <= 5 * (hf as int) * (1000 - growth_reduction as int) <= 5000000,
                0 <= ja as int <= 1000,
        ;
    }
    let rate_num: i128 = 5 * hf * (1000 - growth_reduction) * ja as i128;
    proof {
        assert(0 <= (current_population as i128 as int) * (rate_num as int) <= (i64::MAX as int)
            * 5000000000) by (nonlinear_arith)
            requires
                0 <= current_population as i128 as int <= i64::MAX as int,
                0 <= rate_num as int <= 5000000000,
        ;
    }
    let bonus: i128 = (current_population as i128 * rate_num) / 1000000000000;
    clamp0_from_i128(base_target as i128 + bonus)
}

/// One day-gated population step: move a bounded distance toward the
/// target, clamping the result to be non-negative.  Happiness and the
/// demand figures are untouched; calling again on the same day is a no-op.
pub open spec fn spec_update_population(
    clock_day: u32,
    services: CityServices,
    population: CityPopulation,
    last_processed_day: u32,
) -> (CityPopulation, u32) {
    if last_processed_day == clock_day {
        (population, last_processed_day)
    } else {
        let housing_cap = max0(services.housing_capacity as int);
        let current_pop = max0(population.population as int);
        let target = spec_population_target(
            housing_cap,
            current_pop,
            population.happiness as int,
            services.job_capacity as int,
        );
        let max_population = if housing_cap == 0 {
            0int
        } else {
            target
        };
        let diff = max_population - current_pop;
        if diff == 0 {
            (population, clock_day)
        } else {
            let raw = if diff >= 0 {
                (diff * 35 + 50) / 100
            } else {
                -((-diff * 35 + 50) / 100)
            };
            let stepped = if raw == 0 {
                if diff > 0 {
                    1int
                } else {
                    -1int
                }
            } else {
                raw
            };
            let max_daily_growth: int = if diff > 0 && population.happiness > 800 {
                8
            } else {
                5
            };
            let step = clamp_int(stepped, -2 * max_daily_growth, max_daily_growth);
            (
                CityPopulation {
                    population: clamp0_i64(current_pop + step) as i64,
                    happiness: population.happiness,
                },
                clock_day,
            )
        }
    }
}

/// Adjust the population once per in-game day based on available housing,
/// happiness and jobs.
pub fn update_population(
    clock: &GameClock,
    services: &CityServices,
    population: &mut CityPopulation,
    last_processed_day: &mut u32,
)
    ensures
        (*final(population), *final(last_processed_day)) == spec_update_population(
            clock.day,
            *services,
            *old(population),
            *old(last_processed_day),
        ),
        final(population).happiness == old(population).happiness,
        old(population).wf() ==> final(population).wf(),
{
    if *last_processed_day == clock.day {
        return ;
    }
    *last_processed_day = clock.day;
    let housing_cap: i64 = if services.housing_capacity < 0 {
        0
    } else {
        services.housing_capacity
    };
    let current_pop: i64 = if population.population < 0 {
        0
    } else {
        population.population
    };
    let target = calculate_population_target(
        housing_cap,
        current_pop,
        population.happiness,
        services.job_capacity,
    );
    let max_population: i64 = if housing_cap == 0 {
        0
    } else {
        target
    };
    let diff: i128 = max_population as i128 - current_pop as i128;
    if diff == 0 {
        return ;
    }
    let raw: i128 = if diff >= 0 {
        (diff * 35 + 50) / 100
    } else {
        -((-diff * 35 + 50) / 100)
    };
    let stepped: i128 = if raw == 0 {
        if diff > 0 {
            1
        } else {
            -1
        }
    } else {
        raw
    };
    let max_daily_growth: i128 = if diff > 0 && population.happiness > 800 {
        8
    } else {
        5
    };
    let step: i128 = if stepped < -2 * max_daily_growth {
        -2 * max_daily_growth
    } else if stepped > max_daily_growth {
        max_daily_growth
    } else {
        stepped
    };
    population.population = clamp0_from_i128(current_pop as i128 + step);
}

/// Calling the population step twice within the same day changes nothing
/// on the second call.
pub proof fn lemma_population_day_gate_idempotent(
    clock_day: u32,
    services: CityServices,
    population: CityPopulation,
    last_processed_day: u32,
)
    ensures
        ({
            let first = spec_update_population(clock_day, services, population, last_processed_day);
            spec_update_population(clock_day, services, first.0, first.1) == first
        }),
{
}

/// One day-gated happiness step: blend the current happiness toward a
/// target derived from the weighted service pressures, then clamp to the
/// happiness scale.  Population and demands are untouched; calling again on
/// the same day is a no-op.
pub open spec fn spec_update_happiness(
    clock_day: u32,
    services: CityServices,
    population: CityPopulation,
    last_processed_day: u32,
) -> (CityPopulation, u32) {
    if last_processed_day == clock_day {
        (population, last_processed_day)
    } else {
        let pop = max0(population.population as int);
        let hp = if pop > 0 {
            (max0(services.housing_demand as int) * 1000) / pop
        } else {
            0int
        };
        let jp = if pop > 0 {
            (max0(services.job_demand as int) * 1000) / pop
        } else {
            0int
        };
        let es = if pop > 0 {
            (max0(services.entertainment_demand as int) * 1000) / pop
        } else {
            0int
        };
        let weighted = (800 * hp + 600 * jp + 250 * es) / 1000;
        let pressure = if weighted > 1500 {
            1500int
        } else {
            weighted
        };
        let target = clamp_int(1000 - pressure, 0, 1000);
        let h = population.happiness as int;
        let step = if target >= h {
            ((target - h) * 375) / 1000
        } else {
            -(((h - target) * 375) / 1000)
        };
        let nh = clamp_int(h + step, 0, 1000);
        (
            CityPopulation { population: population.population, happiness: nh as i64 },
            clock_day,
        )
    }
}

/// Recompute happiness from the current demands once per in-game day.
/// The update nudges happiness toward a target instead of overwriting it,
/// so short-term events (demolition, budget trouble) stay visible and then
/// slowly recover.
pub fn update_happiness_from_demands(
    clock: &GameClock,
    services: &CityServices,
    population: &mut CityPopulation,
    last_processed_day: &mut u32,
)
    ensures
        (*final(population), *final(last_processed_day)) == spec_update_happiness(
            clock.day,
            *services,
            *old(population),
            *old(last_processed_day),
        ),
        final(population).population == old(population).population,
        *old(last_processed_day) != clock.day ==> 0 <= final(population).happiness
            <= HAPPINESS_SCALE,
{
    if *last_processed_day == clock.day {
        return ;
    }
    *last_processed_day = clock.day;
    let pop: i64 = if population.population < 0 {
        0
    } else {
        population.population
    };
    let hd: i64 = if services.housing_demand < 0 {
        0
    } else {
        services.housing_demand
    };
    let jd: i64 = if services.job_demand < 0 {
        0
    } else {
        services.job_demand
    };
    let ed: i64 = if services.entertainment_demand < 0 {
        0
    } else {
        services.entertainment_demand
    };
    let hp: i128 = if pop > 0 {
        (hd as i128 * 1000) / pop as i128
    } else {
        0
    };
    let jp: i128 = if pop > 0 {
        (jd as i128 * 1000) / pop as i128
    } else {
        0
    };
    let es: i128 = if pop > 0 {
        (ed as i128 * 1000) / pop as i128
    } else {
        0
    };
    let weighted: i128 = (800 * hp + 600 * jp + 250 * es) / 1000;
    let pressure: i128 = if weighted > 1500 {
        1500
    } else {
        weighted
    };
    let target: i128 = if 1000 - pressure < 0 {
        0
    } else if 1000 - pressure > 1000 {
        1000
    } else {
        1000 - pressure
    };
    let h: i128 = population.happiness as i128;
    let step: i128 = if target >= h {
        ((target - h) * 375) / 1000
    } else {
        -(((h - target) * 375) / 1000)
    };
    let nh: i128 = if h + step < 0 {
        0
    } else if h + step > 1000 {
        1000
    } else {
        h + step
    };
    population.happiness = nh as i64;
}

/// Radius within which residential neighbors influence local happiness.
pub const RESIDENTIAL_NEIGHBOR_RADIUS: i64 = 3;

/// Radius within which a road makes a tile accessible.
pub const ROAD_NEIGHBOR_RADIUS: i64 = 4;

/// A tile is accessible when some road lies within `ROAD_NEIGHBOR_RADIUS`.
pub open spec fn spec_accessible(roads: Set<TilePos>, center: TilePos) -> bool {
    exists|p: TilePos|
        #[trigger] roads.contains(p) && crate::spatial::within_chebyshev(
            p,
            center,
            ROAD_NEIGHBOR_RADIUS as int,
        )
}

/// Residential buildings near `center`, the center itself excluded,
/// saturated at `u32::MAX`.
pub open spec fn spec_nearby_residential(residential: Set<TilePos>, center: TilePos) -> int {
    crate::spatial::spec_count_excluding(
        residential,
        center,
        RESIDENTIAL_NEIGHBOR_RADIUS as int,
    )
}

/// How many residential buildings stand near `center` (excluding `center`).
pub fn count_nearby_residential(center: &TilePos, spatial_grid: &SpatialGrid) -> (r: u32)
    requires
        spatial_grid.wf(),
    ensures
        r as int == spec_nearby_residential(spatial_grid.residential.pos_set(), *center),
{
    spatial_grid.count_residential_in_radius(center, RESIDENTIAL_NEIGHBOR_RADIUS)
}

/// Is there a road within reach of `center`?
pub fn is_accessible(center: &TilePos, spatial_grid: &SpatialGrid) -> (r: bool)
    requires
        spatial_grid.wf(),
    ensures
        r == spec_accessible(spatial_grid.roads.pos_set(), *center),
{
    spatial_grid.has_road_in_radius(center, ROAD_NEIGHBOR_RADIUS)
}

/// The population used as a divisor in the local-happiness ratios: at
/// least one.
pub open spec fn pop_divisor(population_count: int) -> int {
    if population_count < 1 {
        1
    } else {
        population_count
    }
}

/// Housing need as a thousandths ratio of demand to population, clamped to
/// at most one.
pub open spec fn need_ratio(demand: int, population_count: int) -> int {
    clamp_int((max0(demand) * 1000) / pop_divisor(population_count), 0, 1000)
}

/// Raw local happiness change (in thousandths) for placing one building,
/// before the final clamp to [-50, 50].  Residential and road placements
/// please dense neighborhoods that need housing; commercial pleases dense
/// neighborhoods that need jobs; industry trades job relief against local
/// nuisance, with an extra penalty when it stands isolated.
pub open spec fn spec_placement_delta(
    bt: BuildingType,
    nearby: int,
    services: CityServices,
    population_count: int,
) -> int {
    let housing_need = need_ratio(services.housing_demand as int, population_count);
    let job_need = need_ratio(services.job_demand as int, population_count);
    match bt {
        BuildingType::Residential => (10 * (nearby + 1) * housing_need) / 1000,
        BuildingType::Commercial => (15 * nearby * job_need) / 1000,
        BuildingType::Industry => (15 * job_need) / 1000 - 5 * nearby - if nearby == 0 {
            10int
        } else {
            0int
        },
        BuildingType::Road => (3 * nearby * housing_need) / 1000,
        BuildingType::Decorative => 0,
    }
}

/// Raw local happiness change (in thousandths) for demolishing one
/// building, before the final clamp to [-50, 50]: the mirrored negative
/// forms of the placement deltas.
pub open spec fn spec_demolition_delta(
    bt: BuildingType,
    nearby: int,
    services: CityServices,
    population_count: int,
) -> int {
    let housing_need = need_ratio(services.housing_demand as int, population_count);
    match bt {
        BuildingType::Residential => -((50 * if housing_need < 100 {
            100int
        } else {
            housing_need
        }) / 1000),
        BuildingType::Commercial => -20 * nearby,
        BuildingType::Industry => {
            let job_pressure = (max0(services.job_demand as int) * 1000) / pop_divisor(
                population_count,
            );
            5 * nearby - (45 * job_pressure) / 1000
        },
        BuildingType::Road => 0,
        BuildingType::Decorative => 0,
    }
}

/// Happiness after applying one clamped local delta; a zero delta leaves
/// the value untouched.
pub open spec fn apply_delta(population: CityPopulation, raw_delta: int) -> CityPopulation {
    let delta = clamp_int(raw_delta, -50, 50);
    if delta == 0 {
        population
    } else {
        CityPopulation {
            population: population.population,
            happiness: clamp_int(population.happiness + delta, 0, 1000) as i64,
        }
    }
}

/// Happiness after the local adjustments of a batch of placement events.
/// Only events on accessible tiles (a road within reach) count.
pub open spec fn spec_apply_placement_events(
    roads: Set<TilePos>,
    residential: Set<TilePos>,
    services: CityServices,
    population: CityPopulation,
    events: Seq<BuildingPlaced>,
) -> CityPopulation
    decreases events.len(),
{
    if events.len() == 0 {
        population
    } else {
        let prev = spec_apply_placement_events(
            roads,
            residential,
            services,
            population,
            events.drop_last(),
        );
        let e = events.last();
        if !spec_accessible(roads, e.tile_pos) {
            prev
        } else {
            apply_delta(
                prev,
                spec_placement_delta(
                    e.building_type,
                    spec_nearby_residential(residential, e.tile_pos),
                    services,
                    prev.population as int,
                ),
            )
        }
    }
}

/// Happiness after the local adjustments of a batch of demolition events.
/// Demolitions always count, accessible or not.
pub open spec fn spec_apply_demolition_events(
    residential: Set<TilePos>,
    services: CityServices,
    population: CityPopulation,
    events: Seq<BuildingDemolished>,
) -> CityPopulation
    decreases events.len(),
{
    if events.len() == 0 {
        population
    } else {
        let prev = spec_apply_demolition_events(
            residential,
            services,
            population,
            events.drop_last(),
        );
        let e = events.last();
        apply_delta(
            prev,
            spec_demolition_delta(
                e.building_type,
                spec_nearby_residential(residential, e.tile_pos),
                services,
                prev.population as int,
            ),
        )
    }
}

/// Clamp a raw thousandths delta to [-50, 50] and add it to happiness,
/// leaving a zero delta without effect.
fn apply_delta_exec(population: &mut CityPopulation, raw_delta: i128)
    ensures
        *final(population) == apply_delta(*old(population), raw_delta as int),
{
    let delta: i64 = if raw_delta < -50 {
        -50
    } else if raw_delta > 50 {
        50
    } else {
        raw_delta as i64
    };
    if delta != 0 {
        let nh: i128 = population.happiness as i128 + delta as i128;
        population.happiness = if nh < 0 {
            0
        } else if nh > 1000 {
            1000
        } else {
            nh as i64
        };
    }
}

/// The clamped thousandths ratio of a demand to the population.
fn need_ratio_exec(demand: i64, population_count: i64) -> (r: i64)
    ensures
        r as int == need_ratio(demand as int, population_count as int),
        0 <= r <= 1000,
{
    let d: i128 = if demand < 0 {
        0
    } else {
        demand as i128
    };
    let p: i128 = if population_count < 1 {
        1
    } else {
        population_count as i128
    };
    let ratio: i128 = (d * 1000) / p;
    if ratio < 0 {
        0
    } else if ratio > 1000 {
        1000
    } else {
        ratio as i64
    }
}

/// Apply the local happiness effect of each placement event: accessible
/// placements shift happiness by a category-specific, density-weighted
/// delta, clamped to [-50, 50] thousandths per event.
pub fn apply_placement_happiness(
    population: &mut CityPopulation,
    services: &CityServices,
    spatial_grid: &SpatialGrid,
    events: &Vec<BuildingPlaced>,
)
    requires
        spatial_grid.wf(),
    ensures
        *final(population) == spec_apply_placement_events(
            spatial_grid.roads.pos_set(),
            spatial_grid.residential.pos_set(),
            *services,
            *old(population),
            events@,
        ),
        final(population).population == old(population).population,
        old(population).wf() ==> final(population).wf(),
{
    let n = events.len();
    let mut i: usize = 0;
    while i < n
        invariant
            i <= n,
            n == events@.len(),
            spatial_grid.wf(),
            *population == spec_apply_placement_events(
                spatial_grid.roads.pos_set(),
                spatial_grid.residential.pos_set(),
                *services,
                *old(population),
                events@.take(i as int),
            ),
            population.population == old(population).population,
            old(population).wf() ==> population.wf(),
        decreases n - i,
    {
        let ghost prev = *population;
        let e = events[i];
        if is_accessible(&e.tile_pos, spatial_grid) {
            let nearby = count_nearby_residential(&e.tile_pos, spatial_grid);
            let nearby128: i128 = nearby as i128;
            let housing_need = need_ratio_exec(services.housing_demand, population.population);
            let job_need = need_ratio_exec(services.job_demand, population.population);
            proof {
                assert(0 <= 10 * (nearby128 as int + 1) * (housing_need as int)
                    <= 42949672960000) by (nonlinear_arith)
                    requires
                        0 <= nearby128 as int <= 4294967295,
                        0 <= housing_need as int <= 1000,
                ;
                assert(0 <= 15 * (nearby128 as int) * (job_need as int) <= 64424509425000)
                    by (nonlinear_arith)
                    requires
                        0 <= nearby128 as int <= 4294967295,
                        0 <= job_need as int <= 1000,
                ;
                assert(0 <= 3 * (nearby128 as int) * (housing_need as int) <= 12884901885000)
                    by (nonlinear_arith)
                    requires
                        0 <= nearby128 as int <= 4294967295,
                        0 <= housing_need as int <= 1000,
                ;
            }
            let raw: i128 = match e.building_type {
                BuildingType::Residential => (10 * (nearby128 + 1) * housing_need as i128) / 1000,
                BuildingType::Commercial => (15 * nearby128 * job_need as i128) / 1000,
                BuildingType::Industry => (15 * job_need as i128) / 1000 - 5 * nearby128 - if nearby
                    == 0 {
                    10
                } else {
                    0
                },
                BuildingType::Road => (3 * nearby128 * housing_need as i128) / 1000,
                BuildingType::Decorative => 0,
            };
            proof {
                assert(raw as int == spec_placement_delta(
                    e.building_type,
                    nearby as int,
                    *services,
                    population.population as int,
                ));
            }
            apply_delta_exec(population, raw);
        }
        i = i + 1;
        proof {
            assert(events@.take(i as int).drop_last() =~= events@.take(i as int - 1));
            assert(events@.take(i as int).last() == events@[i as int - 1]);
        }
    }
    proof {
        assert(events@.take(n as int) =~= events@);
    }
}

/// Apply the local happiness effect of each demolition event: losing a
/// building shifts happiness by the mirrored negative delta, clamped to
/// [-50, 50] thousandths per event.
pub fn apply_demolition_happiness(
    population: &mut CityPopulation,
    services: &CityServices,
    spatial_grid: &SpatialGrid,
    events: &Vec<BuildingDemolished>,
)
    requires
        spatial_grid.wf(),
    ensures
        *final(population) == spec_apply_demolition_events(
            spatial_grid.residential.pos_set(),
            *services,
            *old(population),
            events@,
        ),
        final(population).population == old(population).population,
        old(population).wf() ==> final(population).wf(),
{
    let n = events.len();
    let mut i: usize = 0;
    while i < n
        invariant
            i <= n,
            n == events@.len(),
            spatial_grid.wf(),
            *population == spec_apply_demolition_events(
                spatial_grid.residential.pos_set(),
                *services,
                *old(population),
                events@.take(i as int),
            ),
            population.population == old(population).population,
            old(population).wf() ==> population.wf(),
        decreases n - i,
    {
        let e = events[i];
        let nearby = count_nearby_residential(&e.tile_pos, spatial_grid);
        let nearby128: i128 = nearby as i128;
        let housing_need = need_ratio_exec(services.housing_demand, population.population);
        proof {
            assert(-85899345900 <= -20 * (nearby128 as int) <= 0) by (nonlinear_arith)
                requires
                    0 <= nearby128 as int <= 4294967295,
            ;
        }
        let raw: i128 = match e.building_type {
            BuildingType::Residential => -((50 * if housing_need < 100 {
                100i128
            } else {
                housing_need as i128
            }) / 1000),
            BuildingType::Commercial => -20 * nearby128,
            BuildingType::Industry => {
                let d: i128 = if services.job_demand < 0 {
                    0
                } else {
                    services.job_demand as i128
                };
                let p: i128 = if population.population < 1 {
                    1
                } else {
                    population.population as i128
                };
                let job_pressure: i128 = (d * 1000) / p;
                5 * nearby128 - (45 * job_pressure) / 1000
            },
            BuildingType::Road => 0,
            BuildingType::Decorative => 0,
        };
        proof {
            assert(raw as int == spec_demolition_delta(
                e.building_type,
                nearby as int,
                *services,
                population.population as int,
            ));
        }
        apply_delta_exec(population, raw);
        i = i + 1;
        proof {
            assert(events@.take(i as int).drop_last() =~= events@.take(i as int - 1));
            assert(events@.take(i as int).last() == events@[i as int - 1]);
        }
    }
    proof {
        assert(events@.take(n as int) =~= events@);
    }
}

/// Calling the happiness step twice within the same day changes nothing on
/// the second call.
pub proof fn lemma_happiness_day_gate_idempotent(
    clock_day: u32,
    services: CityServices,
    population: CityPopulation,
    last_processed_day: u32,
)
    ensures
        ({
            let first = spec_update_happiness(clock_day, services, population, last_processed_day);
            spec_update_happiness(clock_day, services, first.0, first.1) == first
        }),
{
}

/// Days between abandonment sweeps.
pub const ABANDONMENT_INTERVAL_DAYS: u32 = 3;

/// Happiness (in thousandths) at or above which nothing is abandoned.
pub const MIN_HAPPINESS_FOR_ABANDON: i64 = 700;

/// A building that an abandonment sweep may select.
pub type AbandonmentCandidate = (TilePos, BuildingType);

/// The first `quota` residential candidates, in candidate order, as
/// demolition events.
pub open spec fn spec_select_residential(
    candidates: Seq<AbandonmentCandidate>,
    quota: int,
) -> Seq<BuildingDemolished>
    decreases candidates.len(),
{
    if quota <= 0 || candidates.len() == 0 {
        Seq::empty()
    } else {
        let c = candidates.first();
        if c.1 == BuildingType::Residential {
            seq![BuildingDemolished { building_type: c.1, tile_pos: c.0 }]
                + spec_select_residential(candidates.drop_first(), quota - 1)
        } else {
            spec_select_residential(candidates.drop_first(), quota)
        }
    }
}

/// Commercial and industry candidates, in candidate order, until at least
/// `jobs_needed` job capacity has been selected for removal.
pub open spec fn spec_select_jobs(
    candidates: Seq<AbandonmentCandidate>,
    jobs_needed: int,
) -> Seq<BuildingDemolished>
    decreases candidates.len(),
{
    if jobs_needed <= 0 || candidates.len() == 0 {
        Seq::empty()
    } else {
        let c = candidates.first();
        if (c.1 == BuildingType::Commercial || c.1 == BuildingType::Industry) && jobs_of(c.1)
            > 0 {
            seq![BuildingDemolished { building_type: c.1, tile_pos: c.0 }] + spec_select_jobs(
                candidates.drop_first(),
                jobs_needed - jobs_of(c.1),
            )
        } else {
            spec_select_jobs(candidates.drop_first(), jobs_needed)
        }
    }
}

/// One abandonment sweep: day-gated at a three-day interval; skipped while
/// the city is happy or empty; otherwise one residential building is
/// abandoned to relieve a housing shortage, and commercial/industry
/// buildings are abandoned until enough job capacity is gone to relieve
/// understaffing.  By convention a city with no job capacity is never
/// understaffed.  Selection follows candidate order, so the policy is
/// reproducible.
pub open spec fn spec_apply_abandonment(
    clock_day: u32,
    population: CityPopulation,
    services: CityServices,
    last_abandonment_day: u32,
    candidates: Seq<AbandonmentCandidate>,
) -> (Seq<BuildingDemolished>, u32) {
    if (clock_day as int) < last_abandonment_day as int + ABANDONMENT_INTERVAL_DAYS as int {
        (Seq::empty(), last_abandonment_day)
    } else {
        let pop = max0(population.population as int);
        if pop == 0 || population.happiness >= MIN_HAPPINESS_FOR_ABANDON {
            (Seq::empty(), clock_day)
        } else {
            let housing_shortage = services.housing_demand > 0;
            let job_cap = max0(services.job_capacity as int);
            let employed = if pop < job_cap {
                pop
            } else {
                job_cap
            };
            let hc = clamp_int(population.happiness as int, 0, 1000);
            let effective_workers = (employed * hc) / 1000;
            let staffing_ratio = if job_cap > 0 {
                (effective_workers * 1000) / job_cap
            } else {
                1000int
            };
            let job_understaffed = job_cap > 0 && staffing_ratio < 600;
            if !housing_shortage && !job_understaffed {
                (Seq::empty(), clock_day)
            } else {
                let res_quota: int = if housing_shortage {
                    1
                } else {
                    0
                };
                let jobs_quota: int = if job_understaffed {
                    1
                } else {
                    0
                };
                (
                    spec_select_residential(candidates, res_quota) + spec_select_jobs(
                        candidates,
                        jobs_quota,
                    ),
                    clock_day,
                )
            }
        }
    }
}

/// Periodically abandon buildings when happiness and service pressure
/// warrant it.  The returned demolition events are fed back through the
/// spatial index, ledger and demographics exactly like player-initiated
/// demolitions.
pub fn apply_abandonment(
    clock: &GameClock,
    population: &CityPopulation,
    services: &CityServices,
    last_abandonment_day: &mut u32,
    candidates: &Vec<AbandonmentCandidate>,
) -> (events: Vec<BuildingDemolished>)
    ensures
        (events@, *final(last_abandonment_day)) == spec_apply_abandonment(
            clock.day,
            *population,
            *services,
            *old(last_abandonment_day),
            candidates@,
        ),
{
    let mut events: Vec<BuildingDemolished> = Vec::new();
    if (clock.day as u64) < *last_abandonment_day as u64 + ABANDONMENT_INTERVAL_DAYS as u64 {
        proof {
            assert(events@ =~= spec_apply_abandonment(
                clock.day,
                *population,
                *services,
                *old(last_abandonment_day),
                candidates@,
            ).0);
        }
        return events;
    }
    *last_abandonment_day = clock.day;
    let pop: i64 = if population.population < 0 {
        0
    } else {
        population.population
    };
    if pop == 0 || population.happiness >= MIN_HAPPINESS_FOR_ABANDON {
        proof {
            assert(events@ =~= spec_apply_abandonment(
                clock.day,
                *population,
                *services,
                *old(last_abandonment_day),
                candidates@,
            ).0);
        }
        return events;
    }
    let housing_shortage = services.housing_demand > 0;
    let job_cap: i64 = if services.job_capacity < 0 {
        0
    } else {
        services.job_capacity
    };
    let employed: i64 = if pop < job_cap {
        pop
    } else {
        job_cap
    };
    let hc: i64 = if population.happiness < 0 {
        0
    } else if population.happiness > 1000 {
        1000
    } else {
        population.happiness
    };
    proof {
        assert(0 <= (employed as int) * (hc as int) <= (i64::MAX as int) * 1000)
            by (nonlinear_arith)
            requires
                0 <= employed as int <= i64::MAX as int,
                0 <= hc as int <= 1000,
        ;
    }
    let effective_workers: i128 = (employed as i128 * hc as i128) / 1000;
    proof {
        vstd::arithmetic::div_mod::lemma_div_pos_is_pos((employed as int) * (hc as int), 1000);
        vstd::arithmetic::div_mod::lemma_div_is_ordered(
            (employed as int) * (hc as int),
            (i64::MAX as int) * 1000,
            1000,
        );
        vstd::arithmetic::div_mod::lemma_div_by_multiple(i64::MAX as int, 1000);
    }
    let staffing_ratio: i128 = if job_cap > 0 {
        (effective_workers * 1000) / job_cap as i128
    } else {
        1000
    };
    let job_understaffed = job_cap > 0 && staffing_ratio < 600;
    if !housing_shortage && !job_understaffed {
        proof {
            assert(events@ =~= spec_apply_abandonment(
                clock.day,
                *population,
                *services,
                *old(last_abandonment_day),
                candidates@,
            ).0);
        }
        return events;
    }
    let mut res_quota: i64 = if housing_shortage {
        1
    } else {
        0
    };
    let ghost res_quota0 = res_quota as int;
    let n = candidates.len();
    let mut i: usize = 0;
    proof {
        assert(candidates@.skip(0) =~= candidates@);
        assert(events@ + spec_select_residential(candidates@, res_quota0) =~=
            spec_select_residential(candidates@, res_quota0));
    }
    while i < n && res_quota > 0
        invariant
            i <= n,
            n == candidates@.len(),
            0 <= res_quota <= res_quota0,
            events@ + spec_select_residential(candidates@.skip(i as int), res_quota as int)
                == spec_select_residential(candidates@, res_quota0),
        decreases n - i,
    {
        proof {
            assert(candidates@.skip(i as int).first() == candidates@[i as int]);
            assert(candidates@.skip(i as int).drop_first() =~= candidates@.skip(i as int + 1));
        }
        let c = candidates[i];
        if matches!(c.1, BuildingType::Residential) {
            let ghost before = events@;
            events.push(BuildingDemolished { building_type: c.1, tile_pos: c.0 });
            res_quota = res_quota - 1;
            proof {
                assert(events@ =~= before + seq![
                    BuildingDemolished { building_type: c.1, tile_pos: c.0 },
                ]);
                assert(events@ + spec_select_residential(
                    candidates@.skip(i as int + 1),
                    res_quota as int,
                ) =~= before + spec_select_residential(
                    candidates@.skip(i as int),
                    res_quota as int + 1,
                ));
            }
        }
        i = i + 1;
    }
    proof {
        if i == n {
            assert(candidates@.skip(n as int) =~= Seq::<AbandonmentCandidate>::empty());
            assert(spec_select_residential(candidates@.skip(n as int), res_quota as int) =~= Seq::<
                BuildingDemolished,
            >::empty());
        } else {
            assert(res_quota <= 0);
            assert(spec_select_residential(candidates@.skip(i as int), res_quota as int) =~= Seq::<
                BuildingDemolished,
            >::empty());
        }
        assert(events@ + Seq::<BuildingDemolished>::empty() =~= events@);
        assert(events@ =~= spec_select_residential(candidates@, res_quota0));
    }
    let mut jobs_quota: i64 = if job_understaffed {
        1
    } else {
        0
    };
    let ghost jobs_quota0 = jobs_quota as int;
    let ghost res_events = events@;
    let mut k: usize = 0;
    proof {
        assert(candidates@.skip(0) =~= candidates@);
        assert(events@ + spec_select_jobs(candidates@, jobs_quota0) =~= res_events
            + spec_select_jobs(candidates@, jobs_quota0));
    }
    while k < n && jobs_quota > 0
        invariant
            k <= n,
            n == candidates@.len(),
            jobs_quota as int <= jobs_quota0,
            events@ + spec_select_jobs(candidates@.skip(k as int), jobs_quota as int)
                == res_events + spec_select_jobs(candidates@, jobs_quota0),
        decreases n - k,
    {
        proof {
            assert(candidates@.skip(k as int).first() == candidates@[k as int]);
            assert(candidates@.skip(k as int).drop_first() =~= candidates@.skip(k as int + 1));
        }
        let c = candidates[k];
        let job_loss = building_contribution(c.1).jobs;
        if matches!(c.1, BuildingType::Commercial | BuildingType::Industry) && job_loss > 0 {
            let ghost before = events@;
            events.push(BuildingDemolished { building_type: c.1, tile_pos: c.0 });
            jobs_quota = jobs_quota - job_loss;
            proof {
                assert(events@ =~= before + seq![
                    BuildingDemolished { building_type: c.1, tile_pos: c.0 },
                ]);
                assert(events@ + spec_select_jobs(
                    candidates@.skip(k as int + 1),
                    jobs_quota as int,
                ) =~= before + spec_select_jobs(
                    candidates@.skip(k as int),
                    jobs_quota as int + job_loss as int,
                ));
            }
        }
        k = k + 1;
    }
    proof {
        if k == n {
            assert(candidates@.skip(n as int) =~= Seq::<AbandonmentCandidate>::empty());
            assert(spec_select_jobs(candidates@.skip(n as int), jobs_quota as int) =~= Seq::<
                BuildingDemolished,
            >::empty());
        } else {
            assert(jobs_quota <= 0);
            assert(spec_select_jobs(candidates@.skip(k as int), jobs_quota as int) =~= Seq::<
                BuildingDemolished,
            >::empty());
        }
        assert(events@ + Seq::<BuildingDemolished>::empty() =~= events@);
        assert(events@ =~= res_events + spec_select_jobs(candidates@, jobs_quota0));
        assert(events@ =~= spec_apply_abandonment(
            clock.day,
            *population,
            *services,
            *old(last_abandonment_day),
            candidates@,
        ).0);
    }
    events
}

/// Running an abandonment sweep twice within the same day selects nothing
/// and changes nothing on the second call.
pub proof fn lemma_abandonment_day_gate_idempotent(
    clock_day: u32,
    population: CityPopulation,
    services: CityServices,
    last_abandonment_day: u32,
    candidates: Seq<AbandonmentCandidate>,
)
    ensures
        ({
            let first = spec_apply_abandonment(
                clock_day,
                population,
                services,
                last_abandonment_day,
                candidates,
            );
            spec_apply_abandonment(clock_day, population, services, first.1, candidates) == (
                Seq::<BuildingDemolished>::empty(),
                first.1,
            )
        }),
{
}

} // verus!
