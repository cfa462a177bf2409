//! Building categories, the municipal budget, and the building events that
//! drive every other component.

use vstd::prelude::*;
use crate::spatial::TilePos;

verus! {

/// The closed set of building categories a tile can hold.
#[derive(Clone, Copy, PartialEq, Eq, Debug, Structural)]
pub enum BuildingType {
    Residential,
    Commercial,
    Industry,
    Road,
    Decorative,
}

impl BuildingType {
    /// Construction cost charged when a building of this category is placed.
    pub open spec fn spec_cost(self) -> int {
        match self {
            BuildingType::Residential => 1000,
            BuildingType::Commercial => 1300,
            BuildingType::Industry => 2000,
            BuildingType::Road => 50,
            BuildingType::Decorative => 300,
        }
    }

    /// Construction costs.
    pub fn cost(&self) -> (c: i64)
        ensures
            c == self.spec_cost(),
    {
        match self {
            BuildingType::Residential => 1000,
            BuildingType::Commercial => 1300,
            BuildingType::Industry => 2000,
            BuildingType::Road => 50,
            BuildingType::Decorative => 300,
        }
    }

    /// Category encoded by a tile texture index, if any.
    pub fn from_texture_index(index: u32) -> (r: Option<BuildingType>)
        ensures
            r == spec_from_texture_index(index as int),
    {
        match index {
            2 => Some(BuildingType::Residential),
            3 => Some(BuildingType::Commercial),
            4 => Some(BuildingType::Industry),
            5 => Some(BuildingType::Road),
            _ => None,
        }
    }

    /// Category selected by a toolbar selection index, if any.
    pub fn from_selection_index(index: u32) -> (r: Option<BuildingType>)
        ensures
            r == match index {
                2u32 => Some(BuildingType::Residential),
                3u32 => Some(BuildingType::Commercial),
                4u32 => Some(BuildingType::Industry),
                5u32 => Some(BuildingType::Road),
                6u32 => Some(BuildingType::Decorative),
                _ => None::<BuildingType>,
            },
    {
        match index {
            2 => Some(BuildingType::Residential),
            3 => Some(BuildingType::Commercial),
            4 => Some(BuildingType::Industry),
            5 => Some(BuildingType::Road),
            6 => Some(BuildingType::Decorative),
            _ => None,
        }
    }
}

/// The building category a tile texture index encodes, if any.
pub open spec fn spec_from_texture_index(index: int) -> Option<BuildingType> {
    if index == 2 {
        Some(BuildingType::Residential)
    } else if index == 3 {
        Some(BuildingType::Commercial)
    } else if index == 4 {
        Some(BuildingType::Industry)
    } else if index == 5 {
        Some(BuildingType::Road)
    } else {
        None
    }
}

/// The city's money balance.  Deficits are allowed: there is no lower bound.
#[derive(Clone, Copy, PartialEq, Eq, Debug, Structural)]
pub struct Budget {
    pub money: i64,
}

impl Default for Budget {
    /// A fresh city starts with a fixed grant.
    fn default() -> (r: Self)
        ensures
            r.money == 50000,
    {
        Budget { money: 50000 }
    }
}

impl Budget {
    /// True when the balance covers `cost`.
    pub fn can_afford(&self, cost: i64) -> (r: bool)
        ensures
            r == (self.money >= cost),
    {
        self.money >= cost
    }

    /// Deduct `amount` when affordable; report whether the deduction happened.
    pub fn spend(&mut self, amount: i64) -> (r: bool)
        requires
            amount >= 0,
        ensures
            r == (old(self).money >= amount),
            r ==> final(self).money == old(self).money - amount,
            !r ==> *final(self) == *old(self),
    {
        if self.can_afford(amount) {
            self.money = self.money - amount;
            true
        } else {
            false
        }
    }
}

/// A building was placed on `tile_pos`.
#[derive(Clone, Copy, PartialEq, Eq, Debug, Structural)]
pub struct BuildingPlaced {
    pub building_type: BuildingType,
    pub tile_pos: TilePos,
}

/// A building was demolished on `tile_pos`.
#[derive(Clone, Copy, PartialEq, Eq, Debug, Structural)]
pub struct BuildingDemolished {
    pub building_type: BuildingType,
    pub tile_pos: TilePos,
}

/// A placement attempt was rejected (unaffordable, occupied, or off limits).
#[derive(Clone, Copy, PartialEq, Eq, Debug, Structural)]
pub struct TransactionFailed;

} // verus!
