//! The genome: an ordered rule program and the defaults of a sapling.

use crate::branch::Branch;
use crate::fixed::{within_pool_limit, within_trait_limit, POOL_LIMIT, SCALE, TRAIT_LIMIT};
use crate::plant::Plant;
use crate::random::draw_in_range;
use rand::rngs::StdRng;
use vstd::prelude::*;

verus! {

/// Which of a branch's two offshoot slots a rule speaks of.
#[derive(Clone, Copy, Debug, PartialEq, Eq, Structural)]
pub enum OffshootSelection {
    One,
    Two,
}

/// The quantity that a rule compares with its range.
#[derive(Clone, Copy, Debug, PartialEq, Eq, Structural)]
pub enum RuleReq {
    BranchDepthReq,
    BranchStrengthReq,
    BranchPhotoreceptivenessReq,
    BranchWaterIntakeReq,
    BranchLengthReq,
    PlantEnergyReq,
    PlantWaterReq,
    PlantSunlightReq,
    TerrainHeightReq,
    TerrainDrynessReq,
    TerrainRockinessReq,
    TerrainWaterlog,
}

/// What a rule asks for when it fires.
#[derive(Clone, Copy, Debug, PartialEq, Eq, Structural)]
pub enum RuleOutcome {
    /// Stop scanning the rules for this branch.
    Exit,
    /// Prune the subtree under one offshoot slot.
    KillOffshoot(OffshootSelection),
    /// Propose a change of the branch's own traits and length.
    RequestModifyBranch {
        strength_factor: i64,
        photoreceptiveness_factor: i64,
        water_intake_factor: i64,
        length_factor: i64,
        priority: i64,
    },
    /// Propose a new offshoot with the given traits and length.
    RequestNewOffshoot {
        priority: i64,
        placement_straightness: i64,
        strength: i64,
        photoreceptiveness: i64,
        water_intake: i64,
        length: i64,
    },
}

/// Tests whether a quantity is within the trait limit.
pub fn is_within_trait_limit(x: i64) -> (ok: bool)
    ensures
        ok == within_trait_limit(x as int),
{
    -TRAIT_LIMIT <= x && x <= TRAIT_LIMIT
}

impl RuleOutcome {
    /// Every quantity that the outcome carries is within the trait limit.
    pub open spec fn wf(&self) -> bool {
        match *self {
            RuleOutcome::Exit => true,
            RuleOutcome::KillOffshoot(_) => true,
            RuleOutcome::RequestModifyBranch { priority, .. } => within_trait_limit(
                priority as int,
            ),
            RuleOutcome::RequestNewOffshoot {
                priority,
                placement_straightness,
                strength,
                photoreceptiveness,
                water_intake,
                length,
            } => {
                &&& within_trait_limit(priority as int)
                &&& within_trait_limit(placement_straightness as int)
                &&& within_trait_limit(strength as int)
                &&& within_trait_limit(photoreceptiveness as int)
                &&& within_trait_limit(water_intake as int)
                &&& within_trait_limit(length as int)
            },
        }
    }
}

impl RuleOutcome {
    /// Tests whether every quantity that the outcome carries is within the trait
    /// limit.
    pub fn is_valid(&self) -> (ok: bool)
        ensures
            ok == self.wf(),
    {
        match *self {
            RuleOutcome::Exit => true,
            RuleOutcome::KillOffshoot(_) => true,
            RuleOutcome::RequestModifyBranch { priority, .. } => is_within_trait_limit(priority),
            RuleOutcome::RequestNewOffshoot {
                priority,
                placement_straightness,
                strength,
                photoreceptiveness,
                water_intake,
                length,
            } => is_within_trait_limit(priority) && is_within_trait_limit(placement_straightness)
                && is_within_trait_limit(strength) && is_within_trait_limit(photoreceptiveness)
                && is_within_trait_limit(water_intake) && is_within_trait_limit(length),
        }
    }
}

/// One rule: it fires when the selected quantity lies between `min` and `max`,
/// both included.
#[derive(Clone, Copy, Debug, PartialEq, Eq, Structural)]
pub struct GenomeRule {
    pub req: RuleReq,
    pub min: i64,
    pub max: i64,
    pub outcome: RuleOutcome,
}

impl GenomeRule {
    /// The quantity that the rule selects from a branch at a depth and its plant.
    /// A terrain height is the height of the plant's root, fixed when the plant
    /// was made; the other terrain properties are zero.
    pub open spec fn selected_value(&self, depth: usize, branch: Branch, plant: Plant) -> int {
        match self.req {
            RuleReq::BranchDepthReq => depth * SCALE,
            RuleReq::BranchStrengthReq => branch.strength as int,
            RuleReq::BranchPhotoreceptivenessReq => branch.photoreceptiveness as int,
            RuleReq::BranchWaterIntakeReq => branch.water_intake as int,
            RuleReq::BranchLengthReq => branch.length as int,
            RuleReq::PlantEnergyReq => plant.current_energy as int,
            RuleReq::PlantWaterReq => plant.current_water as int,
            RuleReq::PlantSunlightReq => plant.current_sunlight as int,
            RuleReq::TerrainHeightReq => plant.root_position.1 as int,
            RuleReq::TerrainDrynessReq => 0,
            RuleReq::TerrainRockinessReq => 0,
            RuleReq::TerrainWaterlog => 0,
        }
    }

    /// The rule fires.
    pub open spec fn fires(&self, depth: usize, branch: Branch, plant: Plant) -> bool {
        self.min <= self.selected_value(depth, branch, plant) <= self.max
    }

    /// The rule's outcome if it fires, else nothing.
    pub open spec fn evaluate_spec(&self, depth: usize, branch: Branch, plant: Plant) -> Option<
        RuleOutcome,
    > {
        if self.fires(depth, branch, plant) {
            Some(self.outcome)
        } else {
            None
        }
    }

    /// Evaluates the rule on a branch at a depth and its plant, changing nothing.
    pub fn evaluate(&self, depth: usize, branch: &Branch, plant: &Plant) -> (outcome: Option<
        &RuleOutcome,
    >)
        ensures
            outcome.is_some() == self.fires(depth, *branch, *plant),
            outcome.is_some() ==> *outcome.unwrap() == self.outcome,
    {
        let comp_val: i128 = match self.req {
            RuleReq::BranchDepthReq => {
                assert(0 <= depth * SCALE <= 18_446_744_073_709_551_615_000) by (nonlinear_arith)
                    requires
                        0 <= depth <= 18_446_744_073_709_551_615,
                        SCALE == 1000,
                ;
                (depth as i128) * (SCALE as i128)
            },
            RuleReq::BranchStrengthReq => branch.strength as i128,
            RuleReq::BranchPhotoreceptivenessReq => branch.photoreceptiveness as i128,
            RuleReq::BranchWaterIntakeReq => branch.water_intake as i128,
            RuleReq::BranchLengthReq => branch.length as i128,
            RuleReq::PlantEnergyReq => plant.current_energy as i128,
            RuleReq::PlantWaterReq => plant.current_water as i128,
            RuleReq::PlantSunlightReq => plant.current_sunlight as i128,
            RuleReq::TerrainHeightReq => plant.root_position.1 as i128,
            RuleReq::TerrainDrynessReq => 0,
            RuleReq::TerrainRockinessReq => 0,
            RuleReq::TerrainWaterlog => 0,
        };
        if self.min as i128 <= comp_val && comp_val <= self.max as i128 {
            Some(&self.outcome)
        } else {
            None
        }
    }

    /// Builds a rule that exits on a random range of depths: both ends are drawn
    /// from zero up to twenty levels.
    pub fn random(source: &mut StdRng) -> (rule: GenomeRule)
        ensures
            rule.req == RuleReq::BranchDepthReq,
            rule.outcome == RuleOutcome::Exit,
            0 <= rule.min < 20 * SCALE,
            0 <= rule.max < 20 * SCALE,
            rule.outcome.wf(),
    {
        let min: i64 = draw_in_range(source, 0, 20 * SCALE);
        let max: i64 = draw_in_range(source, 0, 20 * SCALE);
        Self::exit_between(min, max)
    }

    /// Builds the rule that stops the scan of every branch whose depth lies
    /// between `min` and `max`, both included and both in thousandths of a level.
    pub fn exit_between(min: i64, max: i64) -> (rule: GenomeRule)
        ensures
            rule == (GenomeRule {
                req: RuleReq::BranchDepthReq,
                min,
                max,
                outcome: RuleOutcome::Exit,
            }),
    {
        GenomeRule { req: RuleReq::BranchDepthReq, min, max, outcome: RuleOutcome::Exit }
    }
}

/// Two snapshots on which a rule selects the same quantity give the same result:
/// a rule reads nothing but its selection, so evaluating it again on an unchanged
/// branch and plant returns the same outcome.
pub proof fn lemma_evaluate_depends_on_selection(
    rule: GenomeRule,
    depth_a: usize,
    branch_a: Branch,
    plant_a: Plant,
    depth_b: usize,
    branch_b: Branch,
    plant_b: Plant,
)
    requires
        rule.selected_value(depth_a, branch_a, plant_a) == rule.selected_value(
            depth_b,
            branch_b,
            plant_b,
        ),
    ensures
        rule.evaluate_spec(depth_a, branch_a, plant_a) == rule.evaluate_spec(
            depth_b,
            branch_b,
            plant_b,
        ),
{
}

/// The rule program of one plant and the defaults of its sapling.
#[derive(Clone, Debug)]
pub struct PlantGenome {
    /// Energy that admission never spends below.
    pub min_energy_for_growth: i64,
    /// Energy asked of a plant before it reproduces.
    pub make_baby_req_energy: i64,
    pub sapling_strength: i64,
    pub sapling_photoreceptiveness: i64,
    pub sapling_water_intake: i64,
    pub sapling_length: i64,
    /// The rules, scanned in this order.
    pub rules: Vec<GenomeRule>,
}

/// The six rules of the hand-made tree genome.
pub open spec fn human_made_tree_rules() -> Seq<GenomeRule> {
    seq![
        GenomeRule {
            req: RuleReq::BranchDepthReq,
            min: 6_500,
            max: 10_000,
            outcome: RuleOutcome::Exit,
        },
        GenomeRule {
            req: RuleReq::PlantEnergyReq,
            min: -1_000i64,
            max: 5_000,
            outcome: RuleOutcome::Exit,
        },
        GenomeRule {
            req: RuleReq::BranchDepthReq,
            min: -1_000i64,
            max: 4_500,
            outcome: RuleOutcome::RequestNewOffshoot {
                priority: 10_000,
                placement_straightness: 500,
                strength: 300,
                photoreceptiveness: 900,
                water_intake: 500,
                length: 300,
            },
        },
        GenomeRule {
            req: RuleReq::BranchDepthReq,
            min: 4_500,
            max: 10_000,
            outcome: RuleOutcome::RequestNewOffshoot {
                priority: 5_000,
                placement_straightness: 0,
                strength: 100,
                photoreceptiveness: 1_000,
                water_intake: 100,
                length: 100,
            },
        },
        GenomeRule {
            req: RuleReq::PlantEnergyReq,
            min: -1_000i64,
            max: 10_000,
            outcome: RuleOutcome::Exit,
        },
        GenomeRule {
            req: RuleReq::BranchDepthReq,
            min: -1_000i64,
            max: 3_000,
            outcome: RuleOutcome::RequestModifyBranch {
                strength_factor: 1_000,
                photoreceptiveness_factor: -1_000i64,
                water_intake_factor: -1_000i64,
                length_factor: 1_000,
                priority: 0,
            },
        },
    ]
}

impl PlantGenome {
    /// Every rule outcome and every sapling default is within the trait limit, and
    /// the energy floor is a valid pool level.
    pub open spec fn wf(&self) -> bool {
        &&& within_pool_limit(self.min_energy_for_growth as int)
        &&& within_trait_limit(self.sapling_strength as int)
        &&& within_trait_limit(self.sapling_photoreceptiveness as int)
        &&& within_trait_limit(self.sapling_water_intake as int)
        &&& within_trait_limit(self.sapling_length as int)
        &&& forall|i: int| 0 <= i < self.rules@.len() ==> (#[trigger] self.rules@[i]).outcome.wf()
    }

    /// Tests whether the genome is valid.
    pub fn is_valid(&self) -> (ok: bool)
        ensures
            ok == self.wf(),
    {
        if self.min_energy_for_growth < -POOL_LIMIT || self.min_energy_for_growth > POOL_LIMIT {
            return false;
        }
        if !(is_within_trait_limit(self.sapling_strength) && is_within_trait_limit(
            self.sapling_photoreceptiveness,
        ) && is_within_trait_limit(self.sapling_water_intake) && is_within_trait_limit(
            self.sapling_length,
        )) {
            return false;
        }
        let mut i: usize = 0;
        while i < self.rules.len()
            invariant
                i <= self.rules@.len(),
                forall|k: int| 0 <= k < i ==> (#[trigger] self.rules@[k]).outcome.wf(),
            decreases self.rules@.len() - i,
        {
            if !self.rules[i].outcome.is_valid() {
                return false;
            }
            i += 1;
        }
        true
    }

    /// Builds a genome of four random exit rules around a long, inert sapling.
    pub fn random(source: &mut StdRng) -> (genome: PlantGenome)
        ensures
            genome.wf(),
            genome.min_energy_for_growth == 10 * SCALE,
            genome.make_baby_req_energy == 100 * SCALE,
            genome.sapling_strength == 0,
            genome.sapling_photoreceptiveness == 0,
            genome.sapling_water_intake == 0,
            genome.sapling_length == 10 * SCALE,
            genome.rules@.len() == 4,
            forall|i: int|
                0 <= i < 4 ==> {
                    let rule = #[trigger] genome.rules@[i];
                    &&& rule.req == RuleReq::BranchDepthReq
                    &&& rule.outcome == RuleOutcome::Exit
                    &&& 0 <= rule.min < 20 * SCALE
                    &&& 0 <= rule.max < 20 * SCALE
                },
    {
        let first = GenomeRule::random(source);
        let second = GenomeRule::random(source);
        let third = GenomeRule::random(source);
        let fourth = GenomeRule::random(source);
        PlantGenome {
            min_energy_for_growth: 10 * SCALE,
            make_baby_req_energy: 100 * SCALE,
            sapling_strength: 0,
            sapling_photoreceptiveness: 0,
            sapling_water_intake: 0,
            sapling_length: 10 * SCALE,
            rules: vec![first, second, third, fourth],
        }
    }

    /// Builds the hand-made genome that grows a tree: a trunk that branches down
    /// to depth four, leaves below, and pauses whenever energy runs low.
    pub fn human_made_tree_genome() -> (genome: PlantGenome)
        ensures
            genome.wf(),
            genome.min_energy_for_growth == 10 * SCALE,
            genome.make_baby_req_energy == 100 * SCALE,
            genome.sapling_strength == 300,
            genome.sapling_photoreceptiveness == 900,
            genome.sapling_water_intake == 500,
            genome.sapling_length == 500,
            genome.rules@ == human_made_tree_rules(),
    {
        let rules: Vec<GenomeRule> = vec![
            GenomeRule {
                req: RuleReq::BranchDepthReq,
                min: 6_500,
                max: 10_000,
                outcome: RuleOutcome::Exit,
            },
            GenomeRule {
                req: RuleReq::PlantEnergyReq,
                min: -1_000,
                max: 5_000,
                outcome: RuleOutcome::Exit,
            },
            GenomeRule {
                req: RuleReq::BranchDepthReq,
                min: -1_000,
                max: 4_500,
                outcome: RuleOutcome::RequestNewOffshoot {
                    priority: 10_000,
                    placement_straightness: 500,
                    strength: 300,
                    photoreceptiveness: 900,
                    water_intake: 500,
                    length: 300,
                },
            },
            GenomeRule {
                req: RuleReq::BranchDepthReq,
                min: 4_500,
                max: 10_000,
                outcome: RuleOutcome::RequestNewOffshoot {
                    priority: 5_000,
                    placement_straightness: 0,
                    strength: 100,
                    photoreceptiveness: 1_000,
                    water_intake: 100,
                    length: 100,
                },
            },
            GenomeRule {
                req: RuleReq::PlantEnergyReq,
                min: -1_000,
                max: 10_000,
                outcome: RuleOutcome::Exit,
            },
            GenomeRule {
                req: RuleReq::BranchDepthReq,
                min: -1_000,
                max: 3_000,
                outcome: RuleOutcome::RequestModifyBranch {
                    strength_factor: 1_000,
                    photoreceptiveness_factor: -1_000,
                    water_intake_factor: -1_000,
                    length_factor: 1_000,
                    priority: 0,
                },
            },
        ];
        assert(rules@ =~= human_made_tree_rules());
        PlantGenome {
            min_energy_for_growth: 10 * SCALE,
            make_baby_req_energy: 100 * SCALE,
            sapling_strength: 300,
            sapling_photoreceptiveness: 900,
            sapling_water_intake: 500,
            sapling_length: 500,
            rules,
        }
    }
}

} // verus!
