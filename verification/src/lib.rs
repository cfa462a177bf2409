//! Economic and spatial simulation core of a tile-based city builder.
//!
//! The library turns discrete placement/demolition events and the passage of
//! in-game time into an evolving city state: population, service capacities,
//! citizen happiness and the municipal budget.  It also answers proximity
//! questions ("is this tile near a road?") through a cell-bucketed spatial
//! index.  All quantities are plain integers; ratios such as happiness are
//! kept in thousandths so that every update is exact integer arithmetic.

pub mod budget;
pub mod city;
pub mod clock;
pub mod ecs;
pub mod game_time;
pub mod map;
pub mod spending;
pub mod sim;
pub mod sim_city;
pub mod spatial;
