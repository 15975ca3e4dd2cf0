//! The tunable constants of the simulation.

use crate::fixed::{SCALE, TRAIT_LIMIT};
use vstd::prelude::*;

verus! {

/// Which branches a depth-dependent collection favours.
#[derive(Clone, Copy, Debug, PartialEq, Eq, Structural)]
pub enum DepthScaling {
    /// Collection grows with depth: it is multiplied by `1 + depth / divisor`.
    FavorDeep,
    /// Collection shrinks with depth: it is divided by `1 + depth / divisor`.
    FavorShallow,
}

/// Every constant that shapes a plant's metabolism and growth. Quantities are in
/// thousandths, except the counts `max_branch_count`, `stride` and
/// `depth_divisor`.
#[derive(Clone, Copy, Debug)]
pub struct SimConfig {
    /// Number of live branches at which a plant stops growing.
    pub max_branch_count: usize,
    /// Number of world ticks over which the population is spread.
    pub stride: u64,
    /// Cost of a branch of length zero.
    pub cost_base: i64,
    /// Weight of `length * (trait sum)^2` in the cost.
    pub cost_factor: i64,
    /// Upkeep of a branch of length zero.
    pub upkeep_base: i64,
    /// Weight of `length * (trait sum)^2` in the upkeep.
    pub upkeep_factor: i64,
    /// Upkeep that a plant pays each tick whatever its branches.
    pub tick_upkeep: i64,
    /// Weight of `length * photoreceptiveness` in the sunlight collected.
    pub sunlight_factor: i64,
    /// Weight of `length * water_intake` in the water collected.
    pub water_factor: i64,
    /// Number of levels of depth that change a collection by its depth-zero value.
    pub depth_divisor: i64,
    /// Direction in which depth scales the sunlight collected.
    pub sunlight_scaling: DepthScaling,
    /// Direction in which depth scales the water collected.
    pub water_scaling: DepthScaling,
    /// Half-width of the random jitter added to a proposal's priority.
    pub priority_jitter: i64,
    /// Half-width of the random variation added to each trait of a new branch.
    pub trait_variance: i64,
    /// Half-width of the random variation of a new branch's length, as a fraction
    /// of that length.
    pub length_variance: i64,
}

impl SimConfig {
    /// The configuration is usable: weights are non-negative and bounded, and
    /// every random range is non-empty.
    pub open spec fn wf(&self) -> bool {
        &&& self.stride >= 1
        &&& 0 <= self.cost_base <= TRAIT_LIMIT
        &&& 0 <= self.cost_factor <= TRAIT_LIMIT
        &&& 0 <= self.upkeep_base <= TRAIT_LIMIT
        &&& 0 <= self.upkeep_factor <= TRAIT_LIMIT
        &&& 0 <= self.tick_upkeep <= TRAIT_LIMIT
        &&& 0 <= self.sunlight_factor <= TRAIT_LIMIT
        &&& 0 <= self.water_factor <= TRAIT_LIMIT
        &&& 1 <= self.depth_divisor <= TRAIT_LIMIT
        &&& 1 <= self.priority_jitter <= TRAIT_LIMIT
        &&& 1 <= self.trait_variance <= TRAIT_LIMIT
        &&& 1 <= self.length_variance <= SCALE
    }

    /// The tuning under which a hand-made tree genome grows a tree.
    pub open spec fn standard_spec() -> SimConfig {
        SimConfig {
            max_branch_count: 100,
            stride: 30,
            cost_base: 5_000,
            cost_factor: 4_000,
            upkeep_base: 20,
            upkeep_factor: 50,
            tick_upkeep: 2_000,
            sunlight_factor: 1_000,
            water_factor: 2_500,
            depth_divisor: 5,
            sunlight_scaling: DepthScaling::FavorDeep,
            water_scaling: DepthScaling::FavorShallow,
            priority_jitter: 1_000,
            trait_variance: 30,
            length_variance: 100,
        }
    }

    /// Returns the standard tuning.
    pub fn standard() -> (cfg: SimConfig)
        ensures
            cfg == Self::standard_spec(),
            cfg.wf(),
    {
        SimConfig {
            max_branch_count: 100,
            stride: 30,
            cost_base: 5_000,
            cost_factor: 4_000,
            upkeep_base: 20,
            upkeep_factor: 50,
            tick_upkeep: 2_000,
            sunlight_factor: 1_000,
            water_factor: 2_500,
            depth_divisor: 5,
            sunlight_scaling: DepthScaling::FavorDeep,
            water_scaling: DepthScaling::FavorShallow,
            priority_jitter: 1_000,
            trait_variance: 30,
            length_variance: 100,
        }
    }

    /// Tests whether the configuration is usable.
    pub fn is_valid(&self) -> (ok: bool)
        ensures
            ok == self.wf(),
    {
        self.stride >= 1 && 0 <= self.cost_base && self.cost_base <= TRAIT_LIMIT && 0
            <= self.cost_factor && self.cost_factor <= TRAIT_LIMIT && 0 <= self.upkeep_base
            && self.upkeep_base <= TRAIT_LIMIT && 0 <= self.upkeep_factor && self.upkeep_factor
            <= TRAIT_LIMIT && 0 <= self.tick_upkeep && self.tick_upkeep <= TRAIT_LIMIT && 0
            <= self.sunlight_factor && self.sunlight_factor <= TRAIT_LIMIT && 0
            <= self.water_factor && self.water_factor <= TRAIT_LIMIT && 1 <= self.depth_divisor
            && self.depth_divisor <= TRAIT_LIMIT && 1 <= self.priority_jitter
            && self.priority_jitter <= TRAIT_LIMIT && 1 <= self.trait_variance
            && self.trait_variance <= TRAIT_LIMIT && 1 <= self.length_variance
            && self.length_variance <= SCALE
    }
}

} // verus!
