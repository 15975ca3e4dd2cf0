//! Branches, their connections, and the four formulas of plant biology.

use crate::config::{DepthScaling, SimConfig};
use crate::fixed::{
    clamp, clamp_spec, div_toward_zero, lemma_trunc_div_bounds, trunc_div, within_trait_limit,
    POOL_LIMIT, SCALE, TRAIT_LIMIT,
};
use crate::growth_priority_item::NewOffshootPriorityItem;
use crate::random::draw_in_range;
use rand::rngs::StdRng;
use vstd::prelude::*;

verus! {

/// A quarter turn, in thousandths of a radian.
pub const QUARTER_TURN: i64 = 1_571;

/// A full turn, in thousandths of a radian.
pub const FULL_TURN: i64 = 6_283;

/// Divisor that brings a product of a weight, a length and a squared trait sum,
/// each in thousandths, back to thousandths.
pub const GROWTH_DIVISOR: i128 = 1_000_000_000;

/// A directed link from a branch to one of its offshoots.
#[derive(Clone, Copy, Debug, PartialEq, Eq, Structural)]
pub struct BranchConnection {
    /// Arena index of the offshoot.
    pub branch_index: usize,
    /// Rotation about the parent's axis.
    pub yaw: i64,
    /// Tilt away from the parent's axis.
    pub pitch: i64,
    /// Fraction of the parent's length at which the offshoot is attached.
    pub along_length: i64,
}

/// Attachment point of an offshoot placed with the given straightness, where
/// `spread` is a fraction drawn from zero up to one unit.
pub open spec fn along_length_spec(placement_straightness: int, spread: int) -> int {
    SCALE - trunc_div((SCALE - placement_straightness) * spread, SCALE as int)
}

/// Tilt of an offshoot attached at `along_length`: none at the tip, a quarter
/// turn at the base.
pub open spec fn pitch_spec(along_length: int) -> int {
    trunc_div((SCALE - along_length) * QUARTER_TURN, SCALE as int)
}

impl BranchConnection {
    /// The connection that `placed` builds.
    pub open spec fn placed_spec(
        placement_straightness: int,
        new_index: usize,
        spread: int,
        yaw: i64,
    ) -> BranchConnection {
        let along = along_length_spec(placement_straightness, spread);
        BranchConnection {
            branch_index: new_index,
            yaw,
            pitch: pitch_spec(along) as i64,
            along_length: along as i64,
        }
    }

    /// Builds the connection to the offshoot at `new_index` from the two random
    /// draws that place it.
    pub fn placed(placement_straightness: i64, new_index: usize, spread: i64, yaw: i64) -> (c:
        BranchConnection)
        requires
            within_trait_limit(placement_straightness as int),
            0 <= spread < SCALE,
        ensures
            c == Self::placed_spec(placement_straightness as int, new_index, spread as int, yaw),
            c.along_length == along_length_spec(placement_straightness as int, spread as int),
            c.pitch == pitch_spec(c.along_length as int),
    {
        let gap: i128 = SCALE as i128 - placement_straightness as i128;
        assert(-1_001_000_000 <= gap * spread <= 1_001_000_000) by (nonlinear_arith)
            requires
                -1_001_000 <= gap <= 1_001_000,
                0 <= spread < 1000,
        ;
        let shift: i128 = div_toward_zero(gap * (spread as i128), SCALE as i128);
        let along: i128 = SCALE as i128 - shift;
        let slack: i128 = SCALE as i128 - along;
        assert(-2_000_000_000_000_000 <= slack * QUARTER_TURN <= 2_000_000_000_000_000)
            by (nonlinear_arith)
            requires
                -1_001_000_000 <= slack <= 1_001_000_000,
                QUARTER_TURN == 1_571,
        ;
        let pitch: i128 = div_toward_zero(slack * (QUARTER_TURN as i128), SCALE as i128);
        BranchConnection {
            branch_index: new_index,
            yaw,
            pitch: pitch as i64,
            along_length: along as i64,
        }
    }

    /// Builds the connection for a new offshoot, drawing its attachment point and
    /// its yaw from `source`.
    pub fn new(
        new_offshoot_priority_item: &NewOffshootPriorityItem,
        new_index: usize,
        source: &mut StdRng,
    ) -> (c: BranchConnection)
        requires
            new_offshoot_priority_item.wf(),
        ensures
            exists|spread: int, yaw: i64|
                0 <= spread < SCALE && 0 <= yaw < FULL_TURN && c == #[trigger] Self::placed_spec(
                    new_offshoot_priority_item.placement_straightness as int,
                    new_index,
                    spread,
                    yaw,
                ),
    {
        let spread: i64 = draw_in_range(source, 0, SCALE);
        let yaw: i64 = draw_in_range(source, 0, FULL_TURN);
        Self::placed(new_offshoot_priority_item.placement_straightness, new_index, spread, yaw)
    }
}

/// A node of a plant's tree.
#[derive(Clone, Copy, Debug, PartialEq, Eq, Structural)]
pub struct Branch {
    /// Structural strength.
    pub strength: i64,
    /// Ability to turn light into sunlight reserve.
    pub photoreceptiveness: i64,
    /// Ability to draw water.
    pub water_intake: i64,
    /// Length of the branch.
    pub length: i64,
    /// First offshoot slot.
    pub offshoot_1: Option<BranchConnection>,
    /// Second offshoot slot.
    pub offshoot_2: Option<BranchConnection>,
    /// Arena index of the branch that this one grows from; the root names itself.
    pub parent: usize,
    /// False once the branch has been pruned: its arena slot is a tombstone.
    pub alive: bool,
}

/// `length * (s + p + w)^2`, weighted: the part of cost and upkeep that grows
/// with the branch.
pub open spec fn growth_term(weight: int, s: int, p: int, w: int, l: int) -> int {
    trunc_div(weight * (l * ((s + p + w) * (s + p + w))), GROWTH_DIVISOR as int)
}

/// One-time energy debit for a branch with the given traits and length.
pub open spec fn cost_spec(cfg: SimConfig, s: int, p: int, w: int, l: int) -> int {
    cfg.cost_base + growth_term(cfg.cost_factor as int, s, p, w, l)
}

/// Energy that a branch with the given traits and length uses up each tick.
pub open spec fn homeostasis_spec(cfg: SimConfig, s: int, p: int, w: int, l: int) -> int {
    cfg.upkeep_base + growth_term(cfg.upkeep_factor as int, s, p, w, l)
}

/// A collection `raw`, a product of three quantities in thousandths, scaled by
/// depth in the given direction and brought back to thousandths.
pub open spec fn depth_scaled(raw: int, depth: nat, divisor: int, scaling: DepthScaling) -> int {
    match scaling {
        DepthScaling::FavorDeep => trunc_div(raw * (divisor + depth), SCALE * SCALE * divisor),
        DepthScaling::FavorShallow => trunc_div(
            raw * divisor,
            SCALE * SCALE * (divisor + depth),
        ),
    }
}

/// Sunlight that a branch collects in one tick at the given depth.
pub open spec fn collect_sunlight_spec(cfg: SimConfig, l: int, p: int, depth: nat) -> int {
    clamp_spec(
        depth_scaled(
            cfg.sunlight_factor * (l * p),
            depth,
            cfg.depth_divisor as int,
            cfg.sunlight_scaling,
        ),
        POOL_LIMIT as int,
    )
}

/// Water that a branch collects in one tick at the given depth.
pub open spec fn collect_water_spec(cfg: SimConfig, l: int, w: int, depth: nat) -> int {
    clamp_spec(
        depth_scaled(
            cfg.water_factor * (l * w),
            depth,
            cfg.depth_divisor as int,
            cfg.water_scaling,
        ),
        POOL_LIMIT as int,
    )
}

/// Largest magnitude of a cost or an upkeep.
pub const COST_LIMIT: i64 = 9_000_000_001_000_000;

/// The weighted growth term of a branch.
fn weighted_growth(weight: i64, s: i64, p: i64, w: i64, l: i64) -> (r: i64)
    requires
        0 <= weight <= TRAIT_LIMIT,
        within_trait_limit(s as int),
        within_trait_limit(p as int),
        within_trait_limit(w as int),
        within_trait_limit(l as int),
    ensures
        r == growth_term(weight as int, s as int, p as int, w as int, l as int),
        -9_000_000_000_000_000 <= r <= 9_000_000_000_000_000,
{
    let sum: i128 = s as i128 + p as i128 + w as i128;
    assert(0 <= sum * sum <= 9_000_000_000_000) by (nonlinear_arith)
        requires
            -3_000_000 <= sum <= 3_000_000,
    ;
    let square: i128 = sum * sum;
    assert(-9_000_000_000_000_000_000 <= l * square <= 9_000_000_000_000_000_000)
        by (nonlinear_arith)
        requires
            -1_000_000 <= l <= 1_000_000,
            0 <= square <= 9_000_000_000_000,
    ;
    let volume: i128 = (l as i128) * square;
    assert(-9_000_000_000_000_000_000_000_000 <= weight * volume
        <= 9_000_000_000_000_000_000_000_000) by (nonlinear_arith)
        requires
            0 <= weight <= 1_000_000,
            -9_000_000_000_000_000_000 <= volume <= 9_000_000_000_000_000_000,
    ;
    let weighted: i128 = (weight as i128) * volume;
    let q: i128 = div_toward_zero(weighted, GROWTH_DIVISOR);
    proof {
        lemma_trunc_div_bounds(weighted as int, 9_000_000_000_000_000, GROWTH_DIVISOR as int);
    }
    q as i64
}

/// A collection scaled by depth and limited to what a pool can hold.
fn scaled_collection(weight: i64, l: i64, t: i64, depth: usize, divisor: i64, scaling:
    DepthScaling) -> (r: i64)
    requires
        0 <= weight <= TRAIT_LIMIT,
        within_trait_limit(l as int),
        within_trait_limit(t as int),
        1 <= divisor <= TRAIT_LIMIT,
    ensures
        r == clamp_spec(
            depth_scaled(weight * (l * t), depth as nat, divisor as int, scaling),
            POOL_LIMIT as int,
        ),
        -POOL_LIMIT <= r <= POOL_LIMIT,
{
    assert(-1_000_000_000_000 <= l * t <= 1_000_000_000_000) by (nonlinear_arith)
        requires
            -1_000_000 <= l <= 1_000_000,
            -1_000_000 <= t <= 1_000_000,
    ;
    let area: i128 = (l as i128) * (t as i128);
    assert(-1_000_000_000_000_000_000 <= weight * area <= 1_000_000_000_000_000_000)
        by (nonlinear_arith)
        requires
            0 <= weight <= 1_000_000,
            -1_000_000_000_000 <= area <= 1_000_000_000_000,
    ;
    let raw: i128 = (weight as i128) * area;
    let reach: i128 = divisor as i128 + depth as i128;
    let unit: i128 = (SCALE as i128) * (SCALE as i128);
    match scaling {
        DepthScaling::FavorDeep => {
            assert(-18_446_745_000_000_000_000_000_000_000_000_000_000 <= raw * reach
                <= 18_446_745_000_000_000_000_000_000_000_000_000_000) by (nonlinear_arith)
                requires
                    -1_000_000_000_000_000_000 <= raw <= 1_000_000_000_000_000_000,
                    1 <= reach <= 18_446_745_000_000_000_000,
            ;
            assert(unit * divisor == SCALE * SCALE * divisor) by (nonlinear_arith)
                requires
                    unit == SCALE * SCALE,
            ;
            assert(1 <= unit * divisor <= 1_000_000_000_000) by (nonlinear_arith)
                requires
                    unit == 1_000_000,
                    1 <= divisor <= 1_000_000,
            ;
            let q: i128 = div_toward_zero(raw * reach, unit * (divisor as i128));
            clamp(q, POOL_LIMIT)
        },
        DepthScaling::FavorShallow => {
            assert(-1_000_000_000_000_000_000_000_000 <= raw * divisor
                <= 1_000_000_000_000_000_000_000_000) by (nonlinear_arith)
                requires
                    -1_000_000_000_000_000_000 <= raw <= 1_000_000_000_000_000_000,
                    1 <= divisor <= 1_000_000,
            ;
            assert(unit * reach == SCALE * SCALE * (divisor + depth)) by (nonlinear_arith)
                requires
                    unit == SCALE * SCALE,
                    reach == divisor + depth,
            ;
            assert(1 <= unit * reach <= 18_446_745_000_000_000_000_000_000) by (nonlinear_arith)
                requires
                    unit == 1_000_000,
                    1 <= reach <= 18_446_745_000_000_000_000,
            ;
            let q: i128 = div_toward_zero(raw * (divisor as i128), unit * reach);
            clamp(q, POOL_LIMIT)
        },
    }
}

impl Branch {
    /// Traits and length are within the limits that keep every formula exact.
    pub open spec fn wf(&self) -> bool {
        &&& within_trait_limit(self.strength as int)
        &&& within_trait_limit(self.photoreceptiveness as int)
        &&& within_trait_limit(self.water_intake as int)
        &&& within_trait_limit(self.length as int)
    }

    /// Tests whether traits and length are within the trait limit.
    pub fn is_valid(&self) -> (ok: bool)
        ensures
            ok == self.wf(),
    {
        -TRAIT_LIMIT <= self.strength && self.strength <= TRAIT_LIMIT && -TRAIT_LIMIT
            <= self.photoreceptiveness && self.photoreceptiveness <= TRAIT_LIMIT && -TRAIT_LIMIT
            <= self.water_intake && self.water_intake <= TRAIT_LIMIT && -TRAIT_LIMIT
            <= self.length && self.length <= TRAIT_LIMIT
    }

    /// The branch has no free offshoot slot.
    pub open spec fn is_full(&self) -> bool {
        self.offshoot_1.is_some() && self.offshoot_2.is_some()
    }

    /// One of the branch's connections leads to arena index `j`.
    pub open spec fn links_to(&self, j: int) -> bool {
        ||| (self.offshoot_1.is_some() && self.offshoot_1.unwrap().branch_index == j)
        ||| (self.offshoot_2.is_some() && self.offshoot_2.unwrap().branch_index == j)
    }

    /// The branch that `with_variance` builds.
    pub open spec fn with_variance_spec(
        strength: int,
        photoreceptiveness: int,
        water_intake: int,
        length: int,
        ds: int,
        dp: int,
        dw: int,
        stretch: int,
    ) -> Branch {
        Branch {
            strength: clamp_spec(strength + ds, TRAIT_LIMIT as int) as i64,
            photoreceptiveness: clamp_spec(photoreceptiveness + dp, TRAIT_LIMIT as int) as i64,
            water_intake: clamp_spec(water_intake + dw, TRAIT_LIMIT as int) as i64,
            length: clamp_spec(
                trunc_div(length * stretch, SCALE as int),
                TRAIT_LIMIT as int,
            ) as i64,
            offshoot_1: None,
            offshoot_2: None,
            parent: 0,
            alive: true,
        }
    }

    /// The branch is a fresh one near the given traits and length: each trait is
    /// shifted, and the length stretched, by some amount within the configured
    /// variance.
    pub open spec fn varied_from(
        &self,
        cfg: SimConfig,
        strength: int,
        photoreceptiveness: int,
        water_intake: int,
        length: int,
    ) -> bool {
        exists|ds: int, dp: int, dw: int, stretch: int|
            {
                &&& -cfg.trait_variance <= ds < cfg.trait_variance
                &&& -cfg.trait_variance <= dp < cfg.trait_variance
                &&& -cfg.trait_variance <= dw < cfg.trait_variance
                &&& SCALE - cfg.length_variance <= stretch < SCALE + cfg.length_variance
                &&& *self == #[trigger] Self::with_variance_spec(
                    strength,
                    photoreceptiveness,
                    water_intake,
                    length,
                    ds,
                    dp,
                    dw,
                    stretch,
                )
            }
    }

    /// Builds a live branch without offshoots whose traits are the given ones
    /// shifted by `ds`, `dp` and `dw`, and whose length is the given one times
    /// `stretch`; each is limited to the trait limit.
    pub fn with_variance(
        strength: i64,
        photoreceptiveness: i64,
        water_intake: i64,
        length: i64,
        ds: i64,
        dp: i64,
        dw: i64,
        stretch: i64,
    ) -> (b: Branch)
        requires
            within_trait_limit(length as int),
            0 <= stretch <= 2 * SCALE,
        ensures
            b == Self::with_variance_spec(
                strength as int,
                photoreceptiveness as int,
                water_intake as int,
                length as int,
                ds as int,
                dp as int,
                dw as int,
                stretch as int,
            ),
            b.wf(),
    {
        assert(-2_000_000_000 <= length * stretch <= 2_000_000_000) by (nonlinear_arith)
            requires
                -1_000_000 <= length <= 1_000_000,
                0 <= stretch <= 2000,
        ;
        let stretched: i128 = div_toward_zero((length as i128) * (stretch as i128), SCALE as i128);
        Branch {
            strength: clamp(strength as i128 + ds as i128, TRAIT_LIMIT),
            photoreceptiveness: clamp(photoreceptiveness as i128 + dp as i128, TRAIT_LIMIT),
            water_intake: clamp(water_intake as i128 + dw as i128, TRAIT_LIMIT),
            length: clamp(stretched, TRAIT_LIMIT),
            offshoot_1: None,
            offshoot_2: None,
            parent: 0,
            alive: true,
        }
    }

    /// Builds a branch near the given traits and length: each trait is shifted,
    /// and the length stretched, by a draw from `source` within the configured
    /// variance.
    pub fn new(
        cfg: &SimConfig,
        strength: i64,
        photoreceptiveness: i64,
        water_intake: i64,
        length: i64,
        source: &mut StdRng,
    ) -> (b: Branch)
        requires
            cfg.wf(),
            within_trait_limit(length as int),
        ensures
            b.wf(),
            b.varied_from(
                *cfg,
                strength as int,
                photoreceptiveness as int,
                water_intake as int,
                length as int,
            ),
    {
        let ds: i64 = draw_in_range(source, -cfg.trait_variance, cfg.trait_variance);
        let dp: i64 = draw_in_range(source, -cfg.trait_variance, cfg.trait_variance);
        let dw: i64 = draw_in_range(source, -cfg.trait_variance, cfg.trait_variance);
        let stretch: i64 = draw_in_range(
            source,
            SCALE - cfg.length_variance,
            SCALE + cfg.length_variance,
        );
        Self::with_variance(
            strength,
            photoreceptiveness,
            water_intake,
            length,
            ds,
            dp,
            dw,
            stretch,
        )
    }

    /// Cost of a branch with the given traits and length.
    pub fn calculate_cost_from_individual_parts(
        cfg: &SimConfig,
        strength: i64,
        photoreceptiveness: i64,
        water_intake: i64,
        length: i64,
    ) -> (cost: i64)
        requires
            cfg.wf(),
            within_trait_limit(strength as int),
            within_trait_limit(photoreceptiveness as int),
            within_trait_limit(water_intake as int),
            within_trait_limit(length as int),
        ensures
            cost == cost_spec(
                *cfg,
                strength as int,
                photoreceptiveness as int,
                water_intake as int,
                length as int,
            ),
            -COST_LIMIT <= cost <= COST_LIMIT,
    {
        cfg.cost_base + weighted_growth(
            cfg.cost_factor,
            strength,
            photoreceptiveness,
            water_intake,
            length,
        )
    }

    /// Cost of this branch.
    pub fn calculate_cost(&self, cfg: &SimConfig) -> (cost: i64)
        requires
            cfg.wf(),
            self.wf(),
        ensures
            cost == cost_spec(
                *cfg,
                self.strength as int,
                self.photoreceptiveness as int,
                self.water_intake as int,
                self.length as int,
            ),
            -COST_LIMIT <= cost <= COST_LIMIT,
    {
        Self::calculate_cost_from_individual_parts(
            cfg,
            self.strength,
            self.photoreceptiveness,
            self.water_intake,
            self.length,
        )
    }

    /// Energy that this branch uses up each tick.
    pub fn calculate_homeostasis(&self, cfg: &SimConfig) -> (upkeep: i64)
        requires
            cfg.wf(),
            self.wf(),
        ensures
            upkeep == homeostasis_spec(
                *cfg,
                self.strength as int,
                self.photoreceptiveness as int,
                self.water_intake as int,
                self.length as int,
            ),
            -COST_LIMIT <= upkeep <= COST_LIMIT,
    {
        cfg.upkeep_base + weighted_growth(
            cfg.upkeep_factor,
            self.strength,
            self.photoreceptiveness,
            self.water_intake,
            self.length,
        )
    }

    /// Sunlight that this branch collects in one tick at the given depth.
    pub fn calculate_collect_sunlight(&self, cfg: &SimConfig, depth: usize) -> (gain: i64)
        requires
            cfg.wf(),
            self.wf(),
        ensures
            gain == collect_sunlight_spec(
                *cfg,
                self.length as int,
                self.photoreceptiveness as int,
                depth as nat,
            ),
            -POOL_LIMIT <= gain <= POOL_LIMIT,
    {
        scaled_collection(
            cfg.sunlight_factor,
            self.length,
            self.photoreceptiveness,
            depth,
            cfg.depth_divisor,
            cfg.sunlight_scaling,
        )
    }

    /// Water that this branch collects in one tick at the given depth.
    pub fn calculate_collect_water(&self, cfg: &SimConfig, depth: usize) -> (gain: i64)
        requires
            cfg.wf(),
            self.wf(),
        ensures
            gain == collect_water_spec(
                *cfg,
                self.length as int,
                self.water_intake as int,
                depth as nat,
            ),
            -POOL_LIMIT <= gain <= POOL_LIMIT,
    {
        scaled_collection(
            cfg.water_factor,
            self.length,
            self.water_intake,
            depth,
            cfg.depth_divisor,
            cfg.water_scaling,
        )
    }

    /// Puts a connection into the first free offshoot slot.
    pub fn add_offshoot(&mut self, branch_connection: BranchConnection)
        requires
            !old(self).is_full(),
        ensures
            old(self).offshoot_1.is_none() ==> *final(self) == (Branch {
                offshoot_1: Some(branch_connection),
                ..*old(self)
            }),
            old(self).offshoot_1.is_some() ==> *final(self) == (Branch {
                offshoot_2: Some(branch_connection),
                ..*old(self)
            }),
    {
        if self.offshoot_1.is_none() {
            self.offshoot_1 = Some(branch_connection);
        } else {
            self.offshoot_2 = Some(branch_connection);
        }
    }
}

/// Cost and upkeep never fall when the length or any trait grows, as long as the
/// length and the traits are not negative.
pub proof fn lemma_cost_and_homeostasis_monotone(
    cfg: SimConfig,
    s_low: int,
    p_low: int,
    w_low: int,
    l_low: int,
    s_high: int,
    p_high: int,
    w_high: int,
    l_high: int,
)
    requires
        cfg.wf(),
        0 <= s_low <= s_high,
        0 <= p_low <= p_high,
        0 <= w_low <= w_high,
        0 <= l_low <= l_high,
    ensures
        cost_spec(cfg, s_low, p_low, w_low, l_low) <= cost_spec(
            cfg,
            s_high,
            p_high,
            w_high,
            l_high,
        ),
        homeostasis_spec(cfg, s_low, p_low, w_low, l_low) <= homeostasis_spec(
            cfg,
            s_high,
            p_high,
            w_high,
            l_high,
        ),
{
    lemma_growth_term_monotone(
        cfg.cost_factor as int,
        s_low,
        p_low,
        w_low,
        l_low,
        s_high,
        p_high,
        w_high,
        l_high,
    );
    lemma_growth_term_monotone(
        cfg.upkeep_factor as int,
        s_low,
        p_low,
        w_low,
        l_low,
        s_high,
        p_high,
        w_high,
        l_high,
    );
}

/// The weighted growth term never falls when the length or any trait grows, as
/// long as none of them, nor the weight, is negative.
pub proof fn lemma_growth_term_monotone(
    weight: int,
    s_low: int,
    p_low: int,
    w_low: int,
    l_low: int,
    s_high: int,
    p_high: int,
    w_high: int,
    l_high: int,
)
    requires
        0 <= weight,
        0 <= s_low <= s_high,
        0 <= p_low <= p_high,
        0 <= w_low <= w_high,
        0 <= l_low <= l_high,
    ensures
        0 <= growth_term(weight, s_low, p_low, w_low, l_low) <= growth_term(
            weight,
            s_high,
            p_high,
            w_high,
            l_high,
        ),
{
    let sum1 = s_low + p_low + w_low;
    let sum2 = s_high + p_high + w_high;
    assert(0 <= sum1 * sum1 <= sum2 * sum2) by (nonlinear_arith)
        requires
            0 <= sum1 <= sum2,
    ;
    let q1 = sum1 * sum1;
    let q2 = sum2 * sum2;
    assert(0 <= l_low * q1 <= l_high * q2) by (nonlinear_arith)
        requires
            0 <= l_low <= l_high,
            0 <= q1 <= q2,
    ;
    let v1 = l_low * q1;
    let v2 = l_high * q2;
    assert(0 <= weight * v1 <= weight * v2) by (nonlinear_arith)
        requires
            0 <= weight,
            0 <= v1 <= v2,
    ;
    vstd::arithmetic::div_mod::lemma_div_is_ordered(
        weight * v1,
        weight * v2,
        GROWTH_DIVISOR as int,
    );
    vstd::arithmetic::div_mod::lemma_div_pos_is_pos(weight * v1, GROWTH_DIVISOR as int);
}

} // verus!
