//! The treasury: once per in-game day, collect worker taxes and corporate
//! income, pay upkeep, and feed the balance back into happiness.
//!
//! Sustained deficits depress happiness; a healthy reserve with no unmet
//! demand lifts it slightly.

use vstd::prelude::*;
use crate::budget::Budget;
use crate::city::{
    clamp_i64_range, clamp_int, max0, CityInfrastructure, CityPopulation, CityServices,
};
use crate::clock::GameClock;

verus! {

/// Income per productive worker per day.
pub const WORKER_TAX_PER_DAY: i64 = 8;

/// Corporate income per productive industry worker per day.
pub const INDUSTRY_PROFIT_PER_WORKER: i64 = 3;

/// Corporate income per productive commercial worker per day.
pub const COMMERCIAL_PROFIT_PER_WORKER: i64 = 2;

/// Daily upkeep per commercial building.
pub const COM_UPKEEP_PER_BUILDING: i64 = 2;

/// Daily upkeep per industry building.
pub const IND_UPKEEP_PER_BUILDING: i64 = 10;

/// Daily upkeep per decorative building.
pub const DECORATIVE_UPKEEP_PER_BUILDING: i64 = 15;

/// Roads and residential buildings cost nothing to keep.
pub const ROAD_UPKEEP_PER_TILE: i64 = 0;

/// Consecutive days in deficit before happiness suffers.
pub const NEGATIVE_BALANCE_PENALTY_DAYS: u32 = 3;

/// Happiness penalty (thousandths) for a sustained deficit.
pub const NEGATIVE_BALANCE_HAPPINESS_PENALTY: i64 = 10;

/// Reserve above which a fully supplied city gains happiness.
pub const HEALTHY_RESERVE_THRESHOLD: i64 = 100000;

/// Happiness bonus (thousandths) for healthy reserves.
pub const HEALTHY_RESERVE_HAPPINESS_BONUS: i64 = 5;

/// A sector's share of the employed workers: proportional to its share of
/// the total job capacity.  The sector capacity is first clamped into
/// `[0, total]`.
pub open spec fn sector_workers(employed: int, sector_cap: int, total: int) -> int {
    (employed * clamp_int(sector_cap, 0, total)) / total
}

/// A sector's income: its workers, discounted by happiness and by an
/// efficiency factor that penalises understaffing, times its per-worker
/// profit.
pub open spec fn sector_income(
    employed: int,
    sector_cap: int,
    total: int,
    happiness_clamped: int,
    profit_per_worker: int,
) -> int {
    let cap = clamp_int(sector_cap, 0, total);
    let workers = sector_workers(employed, sector_cap, total);
    let staffing_ratio = if cap > 0 {
        (workers * 1000) / cap
    } else {
        1000int
    };
    let efficiency = clamp_int((staffing_ratio * 12) / 10, 0, 1000);
    let productive = (workers * happiness_clamped * efficiency) / 1000000;
    productive * profit_per_worker
}

/// One day-gated treasury step: worker taxes plus corporate income minus
/// upkeep move the balance; a deficit streak of three or more days costs a
/// fixed happiness penalty, and a large reserve with no unmet demand earns
/// a small bonus.  Calling again on the same day is a no-op.
pub open spec fn spec_update_income(
    clock_day: u32,
    population: CityPopulation,
    services: CityServices,
    infra: CityInfrastructure,
    budget: Budget,
    last_income_day: u32,
    negative_streak: u32,
) -> (CityPopulation, Budget, u32, u32) {
    if last_income_day == clock_day {
        (population, budget, last_income_day, negative_streak)
    } else {
        let pop = max0(population.population as int);
        let jobs = max0(services.job_capacity as int);
        let employed = if pop < jobs {
            pop
        } else {
            jobs
        };
        let hc = clamp_int(population.happiness as int, 0, 1000);
        let productive_workers = (employed * hc + 500) / 1000;
        let income_from_workers = productive_workers * WORKER_TAX_PER_DAY;
        let corp = if services.job_capacity > 0 {
            let total = services.job_capacity as int;
            sector_income(
                employed,
                infra.industry_job_capacity as int,
                total,
                hc,
                INDUSTRY_PROFIT_PER_WORKER as int,
            ) + sector_income(
                employed,
                infra.commercial_job_capacity as int,
                total,
                hc,
                COMMERCIAL_PROFIT_PER_WORKER as int,
            )
        } else {
            0int
        };
        let upkeep = infra.road_count * ROAD_UPKEEP_PER_TILE + infra.commercial_count
            * COM_UPKEEP_PER_BUILDING + infra.industry_count * IND_UPKEEP_PER_BUILDING
            + infra.decorative_count * DECORATIVE_UPKEEP_PER_BUILDING;
        let net = income_from_workers + corp - upkeep;
        let money2 = clamp_i64_range(budget.money + net);
        let streak2 = if money2 < 0 {
            if negative_streak == u32::MAX {
                u32::MAX as int
            } else {
                negative_streak + 1
            }
        } else {
            0int
        };
        let h1 = if streak2 >= NEGATIVE_BALANCE_PENALTY_DAYS {
            clamp_int(population.happiness - NEGATIVE_BALANCE_HAPPINESS_PENALTY, 0, 1000)
        } else {
            population.happiness as int
        };
        let h2 = if money2 > HEALTHY_RESERVE_THRESHOLD && services.housing_demand == 0
            && services.job_demand == 0 && services.entertainment_demand == 0 {
            clamp_int(h1 + HEALTHY_RESERVE_HAPPINESS_BONUS, 0, 1000)
        } else {
            h1
        };
        (
            CityPopulation { population: population.population, happiness: h2 as i64 },
            Budget { money: money2 as i64 },
            clock_day,
            streak2 as u32,
        )
    }
}

/// One sector's daily income, computed exactly as `sector_income` states.
fn sector_income_exec(
    employed: i64,
    sector_cap: i64,
    total: i64,
    happiness_clamped: i64,
    profit_per_worker: i64,
) -> (r: i128)
    requires
        0 <= employed,
        0 < total,
        0 <= happiness_clamped <= 1000,
        0 <= profit_per_worker <= 3,
    ensures
        r as int == sector_income(
            employed as int,
            sector_cap as int,
            total as int,
            happiness_clamped as int,
            profit_per_worker as int,
        ),
        0 <= r as int <= 3 * (i64::MAX as int),
{
    let cap: i64 = if sector_cap < 0 {
        0
    } else if sector_cap > total {
        total
    } else {
        sector_cap
    };
    proof {
        assert(0 <= (employed as int) * (cap as int) <= (i64::MAX as int) * (i64::MAX as int))
            by (nonlinear_arith)
            requires
                0 <= employed as int <= i64::MAX as int,
                0 <= cap as int <= i64::MAX as int,
        ;
        assert((employed as int) * (cap as int) <= (employed as int) * (total as int))
            by (nonlinear_arith)
            requires
                0 <= employed as int,
                0 <= cap as int <= total as int,
        ;
        vstd::arithmetic::div_mod::lemma_div_pos_is_pos(
            (employed as int) * (cap as int),
            total as int,
        );
        vstd::arithmetic::div_mod::lemma_div_is_ordered(
            (employed as int) * (cap as int),
            (employed as int) * (total as int),
            total as int,
        );
        vstd::arithmetic::div_mod::lemma_div_by_multiple(employed as int, total as int);
        assert((employed as int) * (total as int) == (total as int) * (employed as int))
            by (nonlinear_arith);
        assert(0 <= ((employed as int) * (cap as int)) / (total as int) <= employed as int);
    }
    let workers: i128 = (employed as i128 * cap as i128) / total as i128;
    let staffing_ratio: i128 = if cap > 0 {
        (workers * 1000) / cap as i128
    } else {
        1000
    };
    let efficiency128: i128 = (staffing_ratio * 12) / 10;
    let efficiency: i128 = if efficiency128 < 0 {
        0
    } else if efficiency128 > 1000 {
        1000
    } else {
        efficiency128
    };
    proof {
        assert(0 <= (workers as int) * (happiness_clamped as int) <= (i64::MAX as int) * 1000)
            by (nonlinear_arith)
            requires
                0 <= workers as int <= i64::MAX as int,
                0 <= happiness_clamped as int <= 1000,
        ;
        assert(0 <= (workers as int) * (happiness_clamped as int) * (efficiency as int) <= (
        i64::MAX as int) * 1000 * 1000) by (nonlinear_arith)
            requires
                0 <= (workers as int) * (happiness_clamped as int) <= (i64::MAX as int) * 1000,
                0 <= efficiency as int <= 1000,
        ;
        vstd::arithmetic::div_mod::lemma_div_pos_is_pos(
            (workers as int) * (happiness_clamped as int) * (efficiency as int),
            1000000,
        );
        vstd::arithmetic::div_mod::lemma_div_is_ordered(
            (workers as int) * (happiness_clamped as int) * (efficiency as int),
            (i64::MAX as int) * 1000 * 1000,
            1000000,
        );
        vstd::arithmetic::div_mod::lemma_div_by_multiple(i64::MAX as int, 1000000);
    }
    let productive: i128 = (workers * happiness_clamped as i128 * efficiency) / 1000000;
    proof {
        assert(0 <= productive as int <= i64::MAX as int);
        assert(0 <= (productive as int) * (profit_per_worker as int) <= 3 * (i64::MAX as int))
            by (nonlinear_arith)
            requires
                0 <= productive as int <= i64::MAX as int,
                0 <= profit_per_worker as int <= 3,
        ;
    }
    productive * profit_per_worker as i128
}

/// Derive the day's income and upkeep and update the balance, the deficit
/// streak and (through the deficit penalty or reserve bonus) happiness,
/// once per in-game day.
pub fn update_income_on_day_tick(
    clock: &GameClock,
    population: &mut CityPopulation,
    services: &CityServices,
    infra: &CityInfrastructure,
    budget: &mut Budget,
    last_income_day: &mut u32,
    negative_streak: &mut u32,
)
    ensures
        (*final(population), *final(budget), *final(last_income_day), *final(negative_streak))
            == spec_update_income(
            clock.day,
            *old(population),
            *services,
            *infra,
            *old(budget),
            *old(last_income_day),
            *old(negative_streak),
        ),
        final(population).population == old(population).population,
        old(population).wf() ==> final(population).wf(),
{
    if *last_income_day == clock.day {
        return ;
    }
    *last_income_day = clock.day;
    let pop: i64 = if population.population < 0 {
        0
    } else {
        population.population
    };
    let jobs: i64 = if services.job_capacity < 0 {
        0
    } else {
        services.job_capacity
    };
    let employed: i64 = if pop < jobs {
        pop
    } else {
        jobs
    };
    let hc: i64 = if population.happiness < 0 {
        0
    } else if population.happiness > 1000 {
        1000
    } else {
        population.happiness
    };
    proof {
        assert(0 <= (employed as int) * (hc as int) <= (i64::MAX as int) * 1000)
            by (nonlinear_arith)
            requires
                0 <= employed as int <= i64::MAX as int,
                0 <= hc as int <= 1000,
        ;
    }
    let productive_workers: i128 = (employed as i128 * hc as i128 + 500) / 1000;
    proof {
        vstd::arithmetic::div_mod::lemma_div_pos_is_pos(
            (employed as int) * (hc as int) + 500,
            1000,
        );
        vstd::arithmetic::div_mod::lemma_div_is_ordered(
            (employed as int) * (hc as int) + 500,
            (i64::MAX as int) * 1000 + 500,
            1000,
        );
    }
    let income_from_workers: i128 = productive_workers * WORKER_TAX_PER_DAY as i128;
    let corp: i128 = if services.job_capacity > 0 {
        let ind = sector_income_exec(
            employed,
            infra.industry_job_capacity,
            services.job_capacity,
            hc,
            INDUSTRY_PROFIT_PER_WORKER,
        );
        let com = sector_income_exec(
            employed,
            infra.commercial_job_capacity,
            services.job_capacity,
            hc,
            COMMERCIAL_PROFIT_PER_WORKER,
        );
        ind + com
    } else {
        0
    };
    let upkeep: i128 = infra.road_count as i128 * 0 + infra.commercial_count as i128 * 2
        + infra.industry_count as i128 * 10 + infra.decorative_count as i128 * 15;
    let net: i128 = income_from_workers + corp - upkeep;
    budget.money = clamp_range_from_i128_pub(budget.money as i128 + net);
    if budget.money < 0 {
        if *negative_streak < u32::MAX {
            *negative_streak = *negative_streak + 1;
        }
    } else {
        *negative_streak = 0;
    }
    if *negative_streak >= NEGATIVE_BALANCE_PENALTY_DAYS {
        let nh: i128 = population.happiness as i128 - NEGATIVE_BALANCE_HAPPINESS_PENALTY as i128;
        population.happiness = if nh < 0 {
            0
        } else if nh > 1000 {
            1000
        } else {
            nh as i64
        };
    }
    if budget.money > HEALTHY_RESERVE_THRESHOLD && services.housing_demand == 0
        && services.job_demand == 0 && services.entertainment_demand == 0 {
        let nh: i128 = population.happiness as i128 + HEALTHY_RESERVE_HAPPINESS_BONUS as i128;
        population.happiness = if nh < 0 {
            0
        } else if nh > 1000 {
            1000
        } else {
            nh as i64
        };
    }
}

/// Clamp a 128-bit value into the representable `i64` range.
fn clamp_range_from_i128_pub(v: i128) -> (r: i64)
    ensures
        r as int == clamp_i64_range(v as int),
{
    if v < i64::MIN as i128 {
        i64::MIN
    } else if v > i64::MAX as i128 {
        i64::MAX
    } else {
        v as i64
    }
}

/// Calling the treasury step twice within the same day changes nothing on
/// the second call.
pub proof fn lemma_income_day_gate_idempotent(
    clock_day: u32,
    population: CityPopulation,
    services: CityServices,
    infra: CityInfrastructure,
    budget: Budget,
    last_income_day: u32,
    negative_streak: u32,
)
    ensures
        ({
            let first = spec_update_income(
                clock_day,
                population,
                services,
                infra,
                budget,
                last_income_day,
                negative_streak,
            );
            spec_update_income(
                clock_day,
                first.0,
                services,
                infra,
                first.1,
                first.2,
                first.3,
            ) == first
        }),
{
}

} // verus!
