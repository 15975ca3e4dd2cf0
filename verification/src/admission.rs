//! Committing growth proposals: the cost of a proposal, the change it makes to
//! the plant, and the greedy drain of the queue against the plant's energy.

use crate::branch::{cost_spec, Branch, BranchConnection, COST_LIMIT, FULL_TURN};
use crate::config::SimConfig;
use crate::fixed::{pool_add, pool_add_spec, within_pool_limit, SCALE};
use crate::growth_priority_item::{
    highest_index, is_highest, modified_length_spec, modified_trait_spec,
    modify_self_length_property_helper,
    modify_self_property_helper, GrowthPriorityItem, GrowthPriorityQueue,
    ModifyBranchPriorityItem, NewOffshootPriorityItem, PriorityItemType,
};
use crate::plant::{
    arena_wf, count_alive, lemma_count_alive_bounded, lemma_count_alive_push,
    lemma_count_alive_update, link_ok, links_distinct, Plant,
};
use crate::random::draw_in_range;
use rand::rngs::StdRng;
use vstd::prelude::*;

verus! {

/// What the drain did with the proposal at the head of the queue.
#[derive(Clone, Copy, Debug, PartialEq, Eq, Structural)]
pub enum AdmissionStep {
    /// The proposal was removed from the queue and carried out.
    Committed,
    /// The proposal was removed from the queue and dropped: its branch is gone
    /// or has no free slot left, or its quantities are out of range.
    Discarded,
    /// Nothing was done, and the drain is over.
    Stopped,
}

/// The six random quantities that shape one new offshoot.
#[derive(Clone, Copy, Debug, PartialEq, Eq, Structural)]
pub struct OffshootVariation {
    /// Fraction of the placement's freedom that is used, from zero up to one unit.
    pub spread: i64,
    /// Rotation about the parent's axis, within a full turn.
    pub yaw: i64,
    /// Shift of the strength.
    pub ds: i64,
    /// Shift of the photoreceptiveness.
    pub dp: i64,
    /// Shift of the water intake.
    pub dw: i64,
    /// Factor by which the length is stretched.
    pub stretch: i64,
}

impl OffshootVariation {
    /// Every quantity lies within the range that the configuration gives it.
    pub open spec fn wf(&self, cfg: SimConfig) -> bool {
        &&& 0 <= self.spread < SCALE
        &&& 0 <= self.yaw < FULL_TURN
        &&& -cfg.trait_variance <= self.ds < cfg.trait_variance
        &&& -cfg.trait_variance <= self.dp < cfg.trait_variance
        &&& -cfg.trait_variance <= self.dw < cfg.trait_variance
        &&& SCALE - cfg.length_variance <= self.stretch < SCALE + cfg.length_variance
    }

    /// The new branch that a request gets under this variation.
    pub open spec fn child_spec(&self, request: NewOffshootPriorityItem) -> Branch {
        Branch::with_variance_spec(
            request.strength as int,
            request.photoreceptiveness as int,
            request.water_intake as int,
            request.length as int,
            self.ds as int,
            self.dp as int,
            self.dw as int,
            self.stretch as int,
        )
    }

    /// The connection to the new branch at `new_index` that a request gets under
    /// this variation.
    pub open spec fn connection_spec(
        &self,
        request: NewOffshootPriorityItem,
        new_index: usize,
    ) -> BranchConnection {
        BranchConnection::placed_spec(
            request.placement_straightness as int,
            new_index,
            self.spread as int,
            self.yaw,
        )
    }

    /// Draws a variation from `source`: the placement first, then the traits and
    /// the length.
    pub fn draw(cfg: &SimConfig, source: &mut StdRng) -> (variation: OffshootVariation)
        requires
            cfg.wf(),
        ensures
            variation.wf(*cfg),
    {
        let spread: i64 = draw_in_range(source, 0, SCALE);
        let yaw: i64 = draw_in_range(source, 0, FULL_TURN);
        let ds: i64 = draw_in_range(source, -cfg.trait_variance, cfg.trait_variance);
        let dp: i64 = draw_in_range(source, -cfg.trait_variance, cfg.trait_variance);
        let dw: i64 = draw_in_range(source, -cfg.trait_variance, cfg.trait_variance);
        let stretch: i64 = draw_in_range(
            source,
            SCALE - cfg.length_variance,
            SCALE + cfg.length_variance,
        );
        OffshootVariation { spread, yaw, ds, dp, dw, stretch }
    }

    /// Draws `count` variations from `source`.
    pub fn draw_many(cfg: &SimConfig, count: usize, source: &mut StdRng) -> (variations: Vec<
        OffshootVariation,
    >)
        requires
            cfg.wf(),
        ensures
            variations@.len() == count,
            Plant::variations_in_range(*cfg, variations@),
    {
        let mut variations: Vec<OffshootVariation> = Vec::new();
        let mut i: usize = 0;
        while i < count
            invariant
                cfg.wf(),
                i <= count,
                variations@.len() == i,
                Plant::variations_in_range(*cfg, variations@),
            decreases count - i,
        {
            let variation: OffshootVariation = OffshootVariation::draw(cfg, source);
            variations.push(variation);
            i += 1;
        }
        variations
    }
}

/// A branch with the traits and length that a modification gives it.
pub open spec fn modified_branch(b: Branch, change: ModifyBranchPriorityItem) -> Branch {
    Branch {
        strength: modified_trait_spec(b.strength as int, change.strength_factor as int) as i64,
        photoreceptiveness: modified_trait_spec(
            b.photoreceptiveness as int,
            change.photoreceptiveness_factor as int,
        ) as i64,
        water_intake: modified_trait_spec(
            b.water_intake as int,
            change.water_intake_factor as int,
        ) as i64,
        length: modified_length_spec(b.length as int, change.length_factor as int) as i64,
        ..b
    }
}

/// A branch with a connection put into its first free slot.
pub open spec fn with_offshoot(b: Branch, connection: BranchConnection) -> Branch {
    if b.offshoot_1.is_none() {
        Branch { offshoot_1: Some(connection), ..b }
    } else {
        Branch { offshoot_2: Some(connection), ..b }
    }
}

/// The arena after `child` has been appended as a new offshoot of the branch at
/// `parent` and linked to it by `connection`.
pub open spec fn grafted(
    arena: Seq<Branch>,
    parent: int,
    child: Branch,
    connection: BranchConnection,
) -> Seq<Branch> {
    arena.push(Branch { parent: parent as usize, ..child }).update(
        parent,
        with_offshoot(arena[parent], connection),
    )
}

/// Grafting a new offshoot onto a live branch with a free slot leaves a tree.
pub proof fn lemma_graft_preserves_wf(
    arena: Seq<Branch>,
    parent: int,
    child: Branch,
    connection: BranchConnection,
)
    requires
        arena_wf(arena),
        0 <= parent < arena.len(),
        arena[parent].alive,
        !arena[parent].is_full(),
        child.wf(),
        child.alive,
        child.offshoot_1.is_none(),
        child.offshoot_2.is_none(),
        connection.branch_index == arena.len(),
    ensures
        arena_wf(grafted(arena, parent, child, connection)),
        count_alive(grafted(arena, parent, child, connection)) == count_alive(arena) + 1,
{
    reveal(arena_wf);
    let after = grafted(arena, parent, child, connection);
    let grown = arena.push(Branch { parent: parent as usize, ..child });
    lemma_count_alive_push(arena, Branch { parent: parent as usize, ..child });
    lemma_count_alive_update(grown, parent, with_offshoot(arena[parent], connection));
    assert forall|i: int| 0 <= i < after.len() && (#[trigger] after[i]).alive implies {
        &&& after[i].wf()
        &&& link_ok(after, i, after[i].offshoot_1)
        &&& link_ok(after, i, after[i].offshoot_2)
        &&& links_distinct(after[i])
    } by {
        if i < arena.len() {
            assert(arena[i].alive);
            if arena[i].offshoot_1.is_some() {
                let c = arena[i].offshoot_1.unwrap().branch_index as int;
                assert(after[c].parent == arena[c].parent);
            }
            if arena[i].offshoot_2.is_some() {
                let c = arena[i].offshoot_2.unwrap().branch_index as int;
                assert(after[c].parent == arena[c].parent);
            }
        }
    }
    assert forall|j: int| 0 < j < after.len() && (#[trigger] after[j]).alive implies {
        &&& after[j].parent < j
        &&& after[after[j].parent as int].alive
        &&& after[after[j].parent as int].links_to(j)
    } by {
        if j < arena.len() {
            assert(arena[j].alive);
            let p = arena[j].parent as int;
            assert(arena[p].links_to(j));
        }
    }
}

/// Replacing a live branch by one that differs only in traits and length, both
/// within the trait limit, leaves a tree.
pub proof fn lemma_retrait_preserves_wf(arena: Seq<Branch>, i: int, b: Branch)
    requires
        arena_wf(arena),
        0 <= i < arena.len(),
        arena[i].alive,
        b.wf(),
        b.alive,
        b.parent == arena[i].parent,
        b.offshoot_1 == arena[i].offshoot_1,
        b.offshoot_2 == arena[i].offshoot_2,
    ensures
        arena_wf(arena.update(i, b)),
{
    reveal(arena_wf);
    let after = arena.update(i, b);
    assert forall|k: int| 0 <= k < after.len() && (#[trigger] after[k]).alive implies {
        &&& after[k].wf()
        &&& link_ok(after, k, after[k].offshoot_1)
        &&& link_ok(after, k, after[k].offshoot_2)
        &&& links_distinct(after[k])
    } by {
        assert(arena[k].alive);
    }
    assert forall|j: int| 0 < j < after.len() && (#[trigger] after[j]).alive implies {
        &&& after[j].parent < j
        &&& after[after[j].parent as int].alive
        &&& after[after[j].parent as int].links_to(j)
    } by {
        assert(arena[j].alive);
    }
}

impl Plant {
    /// The proposal can be carried out on this plant: its branch is alive, a new
    /// offshoot finds a free slot, and its quantities are within the trait limit.
    pub open spec fn proposal_is_valid(&self, proposal: GrowthPriorityItem) -> bool {
        &&& proposal.branch_index < self.branches@.len()
        &&& self.branches@[proposal.branch_index as int].alive
        &&& match proposal.item {
            PriorityItemType::NewOffshoot(request) => request.wf()
                && !self.branches@[proposal.branch_index as int].is_full(),
            PriorityItemType::ModifyBranch(_) => true,
        }
    }

    /// Energy that carrying out the proposal takes: for a new offshoot, the cost
    /// of a branch with the proposed traits and length; for a modification, the
    /// cost of the branch as it would become less its cost as it is.
    pub open spec fn proposal_cost_spec(
        &self,
        cfg: SimConfig,
        proposal: GrowthPriorityItem,
    ) -> int {
        match proposal.item {
            PriorityItemType::NewOffshoot(request) => cost_spec(
                cfg,
                request.strength as int,
                request.photoreceptiveness as int,
                request.water_intake as int,
                request.length as int,
            ),
            PriorityItemType::ModifyBranch(change) => {
                let now = self.branches@[proposal.branch_index as int];
                let then = modified_branch(now, change);
                cost_spec(
                    cfg,
                    then.strength as int,
                    then.photoreceptiveness as int,
                    then.water_intake as int,
                    then.length as int,
                ) - cost_spec(
                    cfg,
                    now.strength as int,
                    now.photoreceptiveness as int,
                    now.water_intake as int,
                    now.length as int,
                )
            },
        }
    }

    /// Paying for the proposal leaves the plant at least its energy floor.
    pub open spec fn can_afford(&self, cfg: SimConfig, proposal: GrowthPriorityItem) -> bool {
        self.current_energy - self.proposal_cost_spec(cfg, proposal)
            >= self.genome.min_energy_for_growth
    }

    /// Tests whether the proposal can be carried out on this plant.
    pub fn check_proposal(&self, proposal: &GrowthPriorityItem) -> (ok: bool)
        ensures
            ok == self.proposal_is_valid(*proposal),
    {
        if proposal.branch_index >= self.branches.len() {
            return false;
        }
        let branch: Branch = self.branches[proposal.branch_index];
        if !branch.alive {
            return false;
        }
        match proposal.item {
            PriorityItemType::NewOffshoot(request) => request.is_valid() && !(
            branch.offshoot_1.is_some() && branch.offshoot_2.is_some()),
            PriorityItemType::ModifyBranch(_) => true,
        }
    }

    /// Computes the energy that carrying out the proposal takes.
    pub fn proposal_cost(&self, cfg: &SimConfig, proposal: &GrowthPriorityItem) -> (cost: i64)
        requires
            self.wf(),
            cfg.wf(),
            self.proposal_is_valid(*proposal),
        ensures
            cost == self.proposal_cost_spec(*cfg, *proposal),
            -2 * COST_LIMIT <= cost <= 2 * COST_LIMIT,
    {
        proof {
            reveal(arena_wf);
        }
        match proposal.item {
            PriorityItemType::NewOffshoot(request) => Branch::calculate_cost_from_individual_parts(
                cfg,
                request.strength,
                request.photoreceptiveness,
                request.water_intake,
                request.length,
            ),
            PriorityItemType::ModifyBranch(change) => {
                let now: Branch = self.branches[proposal.branch_index];
                let new_strength: i64 = modify_self_property_helper(
                    now.strength,
                    change.strength_factor,
                );
                let new_photoreceptiveness: i64 = modify_self_property_helper(
                    now.photoreceptiveness,
                    change.photoreceptiveness_factor,
                );
                let new_water_intake: i64 = modify_self_property_helper(
                    now.water_intake,
                    change.water_intake_factor,
                );
                let new_length: i64 = modify_self_length_property_helper(
                    now.length,
                    change.length_factor,
                );
                let prev_branch_cost: i64 = now.calculate_cost(cfg);
                let new_branch_cost: i64 = Branch::calculate_cost_from_individual_parts(
                    cfg,
                    new_strength,
                    new_photoreceptiveness,
                    new_water_intake,
                    new_length,
                );
                new_branch_cost - prev_branch_cost
            },
        }
    }

    /// Appends `child` to the arena as a new offshoot of the branch at
    /// `branch_index`, linked by `connection`.
    pub fn attach_offshoot(
        &mut self,
        branch_index: usize,
        child: Branch,
        connection: BranchConnection,
    )
        requires
            old(self).wf(),
            branch_index < old(self).branches@.len(),
            old(self).branches@[branch_index as int].alive,
            !old(self).branches@[branch_index as int].is_full(),
            child.wf(),
            child.alive,
            child.offshoot_1.is_none(),
            child.offshoot_2.is_none(),
            connection.branch_index == old(self).branches@.len(),
        ensures
            final(self).wf(),
            final(self).branches@ == grafted(
                old(self).branches@,
                branch_index as int,
                child,
                connection,
            ),
            final(self).live_branches == old(self).live_branches + 1,
            final(self).same_but_arena(*old(self)),
    {
        proof {
            lemma_graft_preserves_wf(self.branches@, branch_index as int, child, connection);
        }
        let mut grown: Branch = child;
        grown.parent = branch_index;
        self.branches.push(grown);
        let mut parent: Branch = self.branches[branch_index];
        parent.add_offshoot(connection);
        self.branches[branch_index] = parent;
        let count: usize = self.branches.len();
        proof {
            lemma_count_alive_bounded(self.branches@);
        }
        assert(self.live_branches < count);
        self.live_branches = self.live_branches + 1;
    }

    /// What carrying out a proposal did, given the variation of a new offshoot:
    /// `self` is the plant after, `before` the plant as it was. The energy falls by
    /// the proposal's cost. A modification gives the branch its modified traits and
    /// length. A new offshoot is appended to the arena and linked to the branch by
    /// the first free slot: its traits and length are the proposed ones, varied,
    /// and its placement follows the proposed straightness.
    pub open spec fn committed_with(
        &self,
        before: Plant,
        cfg: SimConfig,
        proposal: GrowthPriorityItem,
        variation: OffshootVariation,
    ) -> bool {
        let idx = proposal.branch_index as int;
        &&& self.current_energy == pool_add_spec(
            before.current_energy as int,
            -before.proposal_cost_spec(cfg, proposal),
        )
        &&& self.genome == before.genome
        &&& self.age_ticks == before.age_ticks
        &&& self.root_position == before.root_position
        &&& self.current_water == before.current_water
        &&& self.current_sunlight == before.current_sunlight
        &&& match proposal.item {
            PriorityItemType::ModifyBranch(change) => {
                &&& self.branches@ == before.branches@.update(
                    idx,
                    modified_branch(before.branches@[idx], change),
                )
                &&& self.live_branches == before.live_branches
            },
            PriorityItemType::NewOffshoot(request) => {
                &&& self.live_branches == before.live_branches + 1
                &&& self.branches@ == grafted(
                    before.branches@,
                    idx,
                    variation.child_spec(request),
                    variation.connection_spec(request, before.branches@.len() as usize),
                )
            },
        }
    }

    /// What carrying out a proposal did, for some variation within the configured
    /// ranges.
    pub open spec fn committed_from(
        &self,
        before: Plant,
        cfg: SimConfig,
        proposal: GrowthPriorityItem,
    ) -> bool {
        exists|variation: OffshootVariation|
            variation.wf(cfg) && #[trigger] self.committed_with(before, cfg, proposal, variation)
    }

    /// Carries out a proposal if the plant can afford it, and says whether it
    /// did. A new offshoot gets the given variation.
    pub fn execute_growth_priority_item_with(
        &mut self,
        cfg: &SimConfig,
        growth_priority_item: &GrowthPriorityItem,
        variation: &OffshootVariation,
    ) -> (committed: bool)
        requires
            old(self).wf(),
            cfg.wf(),
            variation.wf(*cfg),
            old(self).proposal_is_valid(*growth_priority_item),
        ensures
            final(self).wf(),
            committed == old(self).can_afford(*cfg, *growth_priority_item),
            !committed ==> *final(self) == *old(self),
            committed ==> final(self).committed_with(
                *old(self),
                *cfg,
                *growth_priority_item,
                *variation,
            ),
    {
        let cost: i64 = self.proposal_cost(cfg, growth_priority_item);
        if (self.current_energy as i128) - (cost as i128) < (
        self.genome.min_energy_for_growth as i128) {
            return false;
        }
        match growth_priority_item.item {
            PriorityItemType::NewOffshoot(item) => {
                let new_index: usize = self.branches.len();
                let new_offshoot: BranchConnection = BranchConnection::placed(
                    item.placement_straightness,
                    new_index,
                    variation.spread,
                    variation.yaw,
                );
                let child: Branch = Branch::with_variance(
                    item.strength,
                    item.photoreceptiveness,
                    item.water_intake,
                    item.length,
                    variation.ds,
                    variation.dp,
                    variation.dw,
                    variation.stretch,
                );
                self.attach_offshoot(growth_priority_item.branch_index, child, new_offshoot);
                self.current_energy = pool_add(self.current_energy, -cost);
            },
            PriorityItemType::ModifyBranch(item) => {
                self.commit_modification(growth_priority_item.branch_index, &item, cost);
            },
        }
        true
    }

    /// Carries out a proposal if the plant can afford it, and says whether it
    /// did. The variation of a new offshoot is drawn from `source`.
    pub fn execute_growth_priority_item(
        &mut self,
        cfg: &SimConfig,
        growth_priority_item: &GrowthPriorityItem,
        source: &mut StdRng,
    ) -> (committed: bool)
        requires
            old(self).wf(),
            cfg.wf(),
            old(self).proposal_is_valid(*growth_priority_item),
        ensures
            final(self).wf(),
            committed == old(self).can_afford(*cfg, *growth_priority_item),
            !committed ==> *final(self) == *old(self),
            committed ==> final(self).committed_from(*old(self), *cfg, *growth_priority_item),
    {
        let variation: OffshootVariation = OffshootVariation::draw(cfg, source);
        self.execute_growth_priority_item_with(cfg, growth_priority_item, &variation)
    }

    /// Gives the branch at `branch_index` its modified traits and length and pays
    /// `cost`.
    fn commit_modification(
        &mut self,
        branch_index: usize,
        item: &ModifyBranchPriorityItem,
        cost: i64,
    )
        requires
            old(self).wf(),
            branch_index < old(self).branches@.len(),
            old(self).branches@[branch_index as int].alive,
            -2 * COST_LIMIT <= cost <= 2 * COST_LIMIT,
        ensures
            final(self).wf(),
            final(self).current_energy == pool_add_spec(
                old(self).current_energy as int,
                -(cost as int),
            ),
            final(self).genome == old(self).genome,
            final(self).age_ticks == old(self).age_ticks,
            final(self).root_position == old(self).root_position,
            final(self).current_water == old(self).current_water,
            final(self).current_sunlight == old(self).current_sunlight,
            final(self).live_branches == old(self).live_branches,
            final(self).branches@ == old(self).branches@.update(
                branch_index as int,
                modified_branch(old(self).branches@[branch_index as int], *item),
            ),
    {
        let mut branch: Branch = self.branches[branch_index];
        branch.strength = modify_self_property_helper(branch.strength, item.strength_factor);
        branch.photoreceptiveness = modify_self_property_helper(
            branch.photoreceptiveness,
            item.photoreceptiveness_factor,
        );
        branch.water_intake = modify_self_property_helper(
            branch.water_intake,
            item.water_intake_factor,
        );
        branch.length = modify_self_length_property_helper(branch.length, item.length_factor);
        proof {
            lemma_count_alive_update(self.branches@, branch_index as int, branch);
            lemma_retrait_preserves_wf(self.branches@, branch_index as int, branch);
        }
        self.branches[branch_index] = branch;
        self.current_energy = pool_add(self.current_energy, -cost);
    }

    /// The drain is over: the queue is empty, the plant has reached its maximum
    /// branch count, the energy is not above the floor, or the proposal at the
    /// head of the queue can be carried out but not afforded.
    pub open spec fn admission_stops(
        &self,
        cfg: SimConfig,
        queue: Seq<GrowthPriorityItem>,
    ) -> bool {
        ||| queue.len() == 0
        ||| self.live_branches >= cfg.max_branch_count
        ||| self.current_energy <= self.genome.min_energy_for_growth
        ||| (self.proposal_is_valid(queue[highest_index(queue)]) && !self.can_afford(
            cfg,
            queue[highest_index(queue)],
        ))
    }

    /// What one step of the drain did, given the variation of a new offshoot. If
    /// the drain is over, nothing. Else the proposal of highest priority left the
    /// queue, and it was committed if it could be carried out.
    pub open spec fn stepped_with(
        &self,
        queue: Seq<GrowthPriorityItem>,
        step: AdmissionStep,
        before: Plant,
        queue_before: Seq<GrowthPriorityItem>,
        cfg: SimConfig,
        variation: OffshootVariation,
    ) -> bool {
        let head = queue_before[highest_index(queue_before)];
        if before.admission_stops(cfg, queue_before) {
            step == AdmissionStep::Stopped && *self == before && queue == queue_before
        } else {
            &&& is_highest(queue_before, highest_index(queue_before))
            &&& queue == queue_before.remove(highest_index(queue_before))
            &&& if before.proposal_is_valid(head) {
                step == AdmissionStep::Committed && self.committed_with(
                    before,
                    cfg,
                    head,
                    variation,
                )
            } else {
                step == AdmissionStep::Discarded && *self == before
            }
        }
    }

    /// Takes one step of the drain: looks at the proposal of highest priority
    /// and commits it, drops it because it can no longer be carried out, or
    /// stops. A proposal that cannot be afforded stays in the queue and ends the
    /// drain: no cheaper proposal of lower priority is tried in its place. A new
    /// offshoot gets the given variation.
    pub fn admit_next_with(
        &mut self,
        cfg: &SimConfig,
        growth_priority_heap: &mut GrowthPriorityQueue,
        variation: &OffshootVariation,
    ) -> (step: AdmissionStep)
        requires
            old(self).wf(),
            cfg.wf(),
            variation.wf(*cfg),
        ensures
            final(self).wf(),
            final(self).stepped_with(
                final(growth_priority_heap)@,
                step,
                *old(self),
                old(growth_priority_heap)@,
                *cfg,
                *variation,
            ),
            final(self).drained_from(*old(self), *cfg),
    {
        if growth_priority_heap.is_empty() || self.live_branches >= cfg.max_branch_count
            || self.current_energy <= self.genome.min_energy_for_growth {
            return AdmissionStep::Stopped;
        }
        let head: Option<GrowthPriorityItem> = growth_priority_heap.peek();
        match head {
            None => AdmissionStep::Stopped,
            Some(proposal) => {
                if !self.check_proposal(&proposal) {
                    let _ = growth_priority_heap.pop();
                    AdmissionStep::Discarded
                } else if self.execute_growth_priority_item_with(cfg, &proposal, variation) {
                    let _ = growth_priority_heap.pop();
                    proof {
                        Self::lemma_commit_is_a_drain(
                            *self,
                            *old(self),
                            *cfg,
                            proposal,
                            *variation,
                        );
                    }
                    AdmissionStep::Committed
                } else {
                    AdmissionStep::Stopped
                }
            },
        }
    }

    /// Takes one step of the drain as `admit_next_with` does, with a variation
    /// drawn from `source`.
    pub fn admit_next(
        &mut self,
        cfg: &SimConfig,
        growth_priority_heap: &mut GrowthPriorityQueue,
        source: &mut StdRng,
    ) -> (step: AdmissionStep)
        requires
            old(self).wf(),
            cfg.wf(),
        ensures
            final(self).wf(),
            exists|variation: OffshootVariation|
                variation.wf(*cfg) && #[trigger] final(self).stepped_with(
                    final(growth_priority_heap)@,
                    step,
                    *old(self),
                    old(growth_priority_heap)@,
                    *cfg,
                    variation,
                ),
            final(self).drained_from(*old(self), *cfg),
    {
        let variation: OffshootVariation = OffshootVariation::draw(cfg, source);
        self.admit_next_with(cfg, growth_priority_heap, &variation)
    }

    /// What a drain did, given one variation for each step from step `step` on:
    /// steps were taken, each with its variation, until one stopped.
    pub open spec fn admitted(
        after: Plant,
        queue_after: Seq<GrowthPriorityItem>,
        before: Plant,
        queue_before: Seq<GrowthPriorityItem>,
        cfg: SimConfig,
        variations: Seq<OffshootVariation>,
        step: int,
    ) -> bool
        decreases queue_before.len(),
    {
        let position = highest_index(queue_before);
        if before.admission_stops(cfg, queue_before) || !(0 <= position < queue_before.len()) {
            after == before && queue_after == queue_before
        } else {
            exists|middle: Plant, kind: AdmissionStep| #[trigger]
                middle.stepped_with(
                    queue_before.remove(position),
                    kind,
                    before,
                    queue_before,
                    cfg,
                    variations[step],
                ) && Self::admitted(
                    after,
                    queue_after,
                    middle,
                    queue_before.remove(position),
                    cfg,
                    variations,
                    step + 1,
                )
        }
    }

    /// Admission never skips: while the proposal of highest priority can be
    /// carried out but not afforded, a drain commits nothing, however cheap the
    /// proposals behind it are.
    pub proof fn lemma_unaffordable_head_ends_the_drain(
        after: Plant,
        queue_after: Seq<GrowthPriorityItem>,
        before: Plant,
        queue_before: Seq<GrowthPriorityItem>,
        cfg: SimConfig,
        variations: Seq<OffshootVariation>,
        step: int,
    )
        requires
            queue_before.len() > 0,
            before.proposal_is_valid(queue_before[highest_index(queue_before)]),
            !before.can_afford(cfg, queue_before[highest_index(queue_before)]),
            Self::admitted(after, queue_after, before, queue_before, cfg, variations, step),
        ensures
            after == before,
            queue_after == queue_before,
    {
        assert(before.admission_stops(cfg, queue_before));
    }

    /// Every variation lies within the configured ranges.
    pub open spec fn variations_in_range(
        cfg: SimConfig,
        variations: Seq<OffshootVariation>,
    ) -> bool {
        forall|i: int| 0 <= i < variations.len() ==> (#[trigger] variations[i]).wf(cfg)
    }

    /// Drains the queue greedily against the plant's energy: proposals are taken
    /// in order of priority until a step stops. The new offshoot of the step
    /// numbered `i`, counting from zero, gets the variation at position `i`.
    pub fn admit_proposals_with(
        &mut self,
        cfg: &SimConfig,
        growth_priority_heap: &mut GrowthPriorityQueue,
        variations: &Vec<OffshootVariation>,
    )
        requires
            old(self).wf(),
            cfg.wf(),
            variations@.len() >= old(growth_priority_heap)@.len(),
            Self::variations_in_range(*cfg, variations@),
        ensures
            final(self).wf(),
            Self::admitted(
                *final(self),
                final(growth_priority_heap)@,
                *old(self),
                old(growth_priority_heap)@,
                *cfg,
                variations@,
                0,
            ),
            final(self).admission_stops(*cfg, final(growth_priority_heap)@),
            final(self).drained_from(*old(self), *cfg),
            final(growth_priority_heap)@.len() <= old(growth_priority_heap)@.len(),
    {
        let limit: usize = variations.len();
        let mut taken: usize = 0;
        loop
            invariant
                limit == variations@.len(),
                self.wf(),
                cfg.wf(),
                Self::variations_in_range(*cfg, variations@),
                taken + growth_priority_heap@.len() <= variations@.len(),
                self.drained_from(*old(self), *cfg),
                growth_priority_heap@.len() <= old(growth_priority_heap)@.len(),
                forall|last: Plant, queue_last: Seq<GrowthPriorityItem>| #[trigger]
                    Self::admitted(
                        last,
                        queue_last,
                        *self,
                        growth_priority_heap@,
                        *cfg,
                        variations@,
                        taken as int,
                    ) ==> Self::admitted(
                        last,
                        queue_last,
                        *old(self),
                        old(growth_priority_heap)@,
                        *cfg,
                        variations@,
                        0,
                    ),
            ensures
                self.wf(),
                self.admission_stops(*cfg, growth_priority_heap@),
                self.drained_from(*old(self), *cfg),
                growth_priority_heap@.len() <= old(growth_priority_heap)@.len(),
                Self::admitted(
                    *self,
                    growth_priority_heap@,
                    *old(self),
                    old(growth_priority_heap)@,
                    *cfg,
                    variations@,
                    0,
                ),
            decreases growth_priority_heap@.len(),
        {
            let ghost previous = *self;
            let ghost pending = growth_priority_heap@;
            if growth_priority_heap.is_empty() {
                assert(Self::admitted(
                    previous,
                    pending,
                    previous,
                    pending,
                    *cfg,
                    variations@,
                    taken as int,
                ));
                break ;
            }
            let step: AdmissionStep = self.admit_next_with(
                cfg,
                growth_priority_heap,
                &variations[taken],
            );
            proof {
                Self::lemma_drain_transitive(*self, previous, *old(self), *cfg);
            }
            match step {
                AdmissionStep::Stopped => {
                    assert(Self::admitted(
                        previous,
                        pending,
                        previous,
                        pending,
                        *cfg,
                        variations@,
                        taken as int,
                    ));
                    break ;
                },
                _ => {},
            }
            proof {
                let current = *self;
                let rest = growth_priority_heap@;
                assert forall|last: Plant, queue_last: Seq<GrowthPriorityItem>| #[trigger]
                    Self::admitted(
                        last,
                        queue_last,
                        current,
                        rest,
                        *cfg,
                        variations@,
                        taken + 1,
                    ) implies Self::admitted(
                    last,
                    queue_last,
                    *old(self),
                    old(growth_priority_heap)@,
                    *cfg,
                    variations@,
                    0,
                ) by {
                    assert(current.stepped_with(
                        pending.remove(highest_index(pending)),
                        step,
                        previous,
                        pending,
                        *cfg,
                        variations@[taken as int],
                    ));
                    assert(Self::admitted(
                        last,
                        queue_last,
                        previous,
                        pending,
                        *cfg,
                        variations@,
                        taken as int,
                    ));
                }
            }
            taken = taken + 1;
        }
    }

    /// Drains the queue as `admit_proposals_with` does, with one variation for
    /// each pending proposal drawn from `source`.
    pub fn admit_proposals(
        &mut self,
        cfg: &SimConfig,
        growth_priority_heap: &mut GrowthPriorityQueue,
        source: &mut StdRng,
    )
        requires
            old(self).wf(),
            cfg.wf(),
        ensures
            final(self).wf(),
            exists|variations: Seq<OffshootVariation>|
                Self::variations_in_range(*cfg, variations) && #[trigger] Self::admitted(
                    *final(self),
                    final(growth_priority_heap)@,
                    *old(self),
                    old(growth_priority_heap)@,
                    *cfg,
                    variations,
                    0,
                ),
            final(self).admission_stops(*cfg, final(growth_priority_heap)@),
            final(self).drained_from(*old(self), *cfg),
            final(growth_priority_heap)@.len() <= old(growth_priority_heap)@.len(),
    {
        let variations: Vec<OffshootVariation> = OffshootVariation::draw_many(
            cfg,
            growth_priority_heap.len(),
            source,
        );
        self.admit_proposals_with(cfg, growth_priority_heap, &variations);
    }

    /// A commit made while the drain goes on is itself a drain.
    pub proof fn lemma_commit_is_a_drain(
        after: Plant,
        previous: Plant,
        cfg: SimConfig,
        proposal: GrowthPriorityItem,
        variation: OffshootVariation,
    )
        requires
            within_pool_limit(previous.genome.min_energy_for_growth as int),
            previous.proposal_is_valid(proposal),
            previous.live_branches < cfg.max_branch_count,
            previous.can_afford(cfg, proposal),
            after.committed_with(previous, cfg, proposal, variation),
        ensures
            after.drained_from(previous, cfg),
    {
        match proposal.item {
            PriorityItemType::ModifyBranch(change) => {},
            PriorityItemType::NewOffshoot(request) => {
                assert(after.branches@.len() == previous.branches@.len() + 1);
            },
        }
    }

    /// Two drains, one after the other, are a drain.
    pub proof fn lemma_drain_transitive(last: Plant, middle: Plant, first: Plant, cfg: SimConfig)
        requires
            last.drained_from(middle, cfg),
            middle.drained_from(first, cfg),
        ensures
            last.drained_from(first, cfg),
    {
    }

    /// What a drain may do to a plant, whatever is drawn: the branch count grows
    /// but never beyond the configured maximum, unless it was beyond it already;
    /// the arena only grows; the energy stays at or above the lower of its old
    /// level and the energy floor; nothing else changes.
    pub open spec fn drained_from(&self, before: Plant, cfg: SimConfig) -> bool {
        &&& before.live_branches <= self.live_branches
        &&& before.live_branches <= cfg.max_branch_count ==> self.live_branches
            <= cfg.max_branch_count
        &&& self.live_branches <= cfg.max_branch_count || self.live_branches
            == before.live_branches
        &&& before.branches@.len() <= self.branches@.len()
        &&& self.current_energy >= before.current_energy || self.current_energy
            >= self.genome.min_energy_for_growth
        &&& self.genome == before.genome
        &&& self.age_ticks == before.age_ticks
        &&& self.root_position == before.root_position
        &&& self.current_water == before.current_water
        &&& self.current_sunlight == before.current_sunlight
    }
}

} // verus!
