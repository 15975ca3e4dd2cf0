//! The per-tick walk of a plant's tree and the rule scan made at each branch.

use crate::branch::{
    collect_sunlight_spec, collect_water_spec, cost_spec, homeostasis_spec, Branch,
    BranchConnection,
};
use crate::config::SimConfig;
use crate::fixed::{pool_add, pool_add_spec, within_pool_limit, TRAIT_LIMIT};
use crate::genome::{GenomeRule, OffshootSelection, RuleOutcome, RuleReq};
use crate::growth_priority_item::{
    GrowthPriorityItem, GrowthPriorityQueue, ModifyBranchPriorityItem, NewOffshootPriorityItem,
    PriorityItemType,
};
use crate::plant::{
    arena_wf, in_subtree, lemma_offshoots_are_live, lemma_prune_keeps_the_rest,
    lemma_pruned_subtree_unreachable, lemma_subtree_member, pruned, Plant,
};
use crate::random::draw_in_range;
use rand::rngs::StdRng;
use vstd::prelude::*;

verus! {

/// The proposal that a rule outcome asks for on behalf of the branch at
/// `branch_index`, with `jitter` added to its priority; nothing for an outcome
/// that proposes no growth.
pub open spec fn proposal_spec(branch_index: usize, outcome: RuleOutcome, jitter: int) -> Option<
    GrowthPriorityItem,
> {
    match outcome {
        RuleOutcome::Exit => None,
        RuleOutcome::KillOffshoot(_) => None,
        RuleOutcome::RequestModifyBranch {
            strength_factor,
            photoreceptiveness_factor,
            water_intake_factor,
            length_factor,
            priority,
        } => Some(
            GrowthPriorityItem {
                priority: (priority + jitter) as i64,
                branch_index,
                item: PriorityItemType::ModifyBranch(
                    ModifyBranchPriorityItem {
                        strength_factor,
                        photoreceptiveness_factor,
                        water_intake_factor,
                        length_factor,
                    },
                ),
            },
        ),
        RuleOutcome::RequestNewOffshoot {
            priority,
            placement_straightness,
            strength,
            photoreceptiveness,
            water_intake,
            length,
        } => Some(
            GrowthPriorityItem {
                priority: (priority + jitter) as i64,
                branch_index,
                item: PriorityItemType::NewOffshoot(
                    NewOffshootPriorityItem {
                        placement_straightness,
                        strength,
                        photoreceptiveness,
                        water_intake,
                        length,
                    },
                ),
            },
        ),
    }
}

/// Builds the proposal that a rule outcome asks for, with `jitter` added to its
/// priority.
pub fn proposal_from_outcome(branch_index: usize, outcome: &RuleOutcome, jitter: i64) -> (proposal:
    Option<GrowthPriorityItem>)
    requires
        outcome.wf(),
        -TRAIT_LIMIT <= jitter <= TRAIT_LIMIT,
    ensures
        proposal == proposal_spec(branch_index, *outcome, jitter as int),
{
    match *outcome {
        RuleOutcome::Exit => None,
        RuleOutcome::KillOffshoot(_) => None,
        RuleOutcome::RequestModifyBranch {
            strength_factor,
            photoreceptiveness_factor,
            water_intake_factor,
            length_factor,
            priority,
        } => Some(
            GrowthPriorityItem::new_modify_branch_request(
                branch_index,
                strength_factor,
                photoreceptiveness_factor,
                water_intake_factor,
                length_factor,
                priority + jitter,
            ),
        ),
        RuleOutcome::RequestNewOffshoot {
            priority,
            placement_straightness,
            strength,
            photoreceptiveness,
            water_intake,
            length,
        } => Some(
            GrowthPriorityItem::new_offshoot_request(
                branch_index,
                placement_straightness,
                strength,
                photoreceptiveness,
                water_intake,
                length,
                priority + jitter,
            ),
        ),
    }
}

/// The state that a walk threads through the tree: the plant, the upkeep
/// accumulated so far, and the proposals queued so far.
pub struct WalkState {
    pub plant: Plant,
    pub upkeep: i64,
    pub queue: Seq<GrowthPriorityItem>,
}

impl Plant {
    /// The connection in the selected offshoot slot of a branch.
    pub open spec fn selected_offshoot(
        branch: Branch,
        selection: OffshootSelection,
    ) -> Option<BranchConnection> {
        match selection {
            OffshootSelection::One => branch.offshoot_1,
            OffshootSelection::Two => branch.offshoot_2,
        }
    }

    /// The rule fires on the branch at `branch_index` and can be carried out: a
    /// kill finds its offshoot, and a request for an offshoot finds a free slot
    /// on a plant whose branch count does not exceed the maximum.
    pub open spec fn rule_takes_effect(
        &self,
        cfg: SimConfig,
        rule: GenomeRule,
        branch_index: int,
        depth: usize,
    ) -> bool {
        let branch = self.branches@[branch_index];
        rule.fires(depth, branch, *self) && match rule.outcome {
            RuleOutcome::Exit => true,
            RuleOutcome::KillOffshoot(selection) => Self::selected_offshoot(
                branch,
                selection,
            ).is_some(),
            RuleOutcome::RequestModifyBranch { .. } => true,
            RuleOutcome::RequestNewOffshoot { .. } => !(self.live_branches > cfg.max_branch_count
                || branch.is_full()),
        }
    }

    /// Rule `k` is the first rule of the genome that takes effect on the branch.
    pub open spec fn is_deciding_rule(
        &self,
        cfg: SimConfig,
        branch_index: int,
        depth: usize,
        k: int,
    ) -> bool {
        &&& 0 <= k < self.genome.rules@.len()
        &&& self.rule_takes_effect(cfg, self.genome.rules@[k], branch_index, depth)
        &&& forall|j: int|
            0 <= j < k ==> !self.rule_takes_effect(
                cfg,
                #[trigger] self.genome.rules@[j],
                branch_index,
                depth,
            )
    }

    /// No rule of the genome takes effect on the branch.
    pub open spec fn no_rule_decides(
        &self,
        cfg: SimConfig,
        branch_index: int,
        depth: usize,
    ) -> bool {
        forall|j: int|
            0 <= j < self.genome.rules@.len() ==> !self.rule_takes_effect(
                cfg,
                #[trigger] self.genome.rules@[j],
                branch_index,
                depth,
            )
    }

    /// Scans the genome in order and returns the position of the first rule that
    /// takes effect on the branch at `branch_index`, if there is one.
    pub fn deciding_rule(&self, cfg: &SimConfig, branch_index: usize, depth: usize) -> (found:
        Option<usize>)
        requires
            branch_index < self.branches@.len(),
        ensures
            match found {
                Some(k) => self.is_deciding_rule(*cfg, branch_index as int, depth, k as int),
                None => self.no_rule_decides(*cfg, branch_index as int, depth),
            },
    {
        let branch: Branch = self.branches[branch_index];
        let mut k: usize = 0;
        while k < self.genome.rules.len()
            invariant
                k <= self.genome.rules@.len(),
                branch_index < self.branches@.len(),
                branch == self.branches@[branch_index as int],
                forall|j: int|
                    0 <= j < k ==> !self.rule_takes_effect(
                        *cfg,
                        #[trigger] self.genome.rules@[j],
                        branch_index as int,
                        depth,
                    ),
            decreases self.genome.rules@.len() - k,
        {
            let rule: &GenomeRule = &self.genome.rules[k];
            match rule.evaluate(depth, &branch, self) {
                Some(outcome) => {
                    let effective: bool = match *outcome {
                        RuleOutcome::Exit => true,
                        RuleOutcome::KillOffshoot(selection) => match selection {
                            OffshootSelection::One => branch.offshoot_1.is_some(),
                            OffshootSelection::Two => branch.offshoot_2.is_some(),
                        },
                        RuleOutcome::RequestModifyBranch { .. } => true,
                        RuleOutcome::RequestNewOffshoot { .. } => !(self.live_branches
                            > cfg.max_branch_count || (branch.offshoot_1.is_some()
                            && branch.offshoot_2.is_some())),
                    };
                    if effective {
                        return Some(k);
                    }
                },
                None => {},
            }
            k += 1;
        }
        None
    }

    /// The plant after the subtree under an offshoot of the branch at
    /// `branch_index` has been pruned: the subtree is gone, and the energy has
    /// grown by the cost of the offshoot itself, not of the branches beyond it.
    pub open spec fn offshoot_pruned(
        &self,
        before: Plant,
        cfg: SimConfig,
        branch_index: int,
        selection: OffshootSelection,
    ) -> bool {
        let link = Self::selected_offshoot(before.branches@[branch_index], selection);
        let child = before.branches@[link.unwrap().branch_index as int];
        &&& self.branches@ == pruned(before.branches@, link.unwrap().branch_index as int)
        &&& self.current_energy == pool_add_spec(
            before.current_energy as int,
            cost_spec(
                cfg,
                child.strength as int,
                child.photoreceptiveness as int,
                child.water_intake as int,
                child.length as int,
            ),
        )
        &&& self.genome == before.genome
        &&& self.age_ticks == before.age_ticks
        &&& self.root_position == before.root_position
        &&& self.current_water == before.current_water
        &&& self.current_sunlight == before.current_sunlight
        &&& self.live_branches < before.live_branches
    }

    /// Prunes the subtree under the selected offshoot of the branch at
    /// `branch_index` and refunds the cost of that offshoot.
    pub fn prune_offshoot(
        &mut self,
        cfg: &SimConfig,
        branch_index: usize,
        selection: OffshootSelection,
    )
        requires
            old(self).wf(),
            cfg.wf(),
            branch_index < old(self).branches@.len(),
            old(self).branches@[branch_index as int].alive,
            Self::selected_offshoot(old(self).branches@[branch_index as int], selection).is_some(),
        ensures
            final(self).wf(),
            final(self).offshoot_pruned(*old(self), *cfg, branch_index as int, selection),
    {
        proof {
            reveal(arena_wf);
        }
        let branch: Branch = self.branches[branch_index];
        let link: Option<BranchConnection> = match selection {
            OffshootSelection::One => branch.offshoot_1,
            OffshootSelection::Two => branch.offshoot_2,
        };
        match link {
            Some(connection) => {
                let returned_energy: i64 = self.branches[connection.branch_index].calculate_cost(
                    cfg,
                );
                self.delete_branch_recursive(connection.branch_index);
                self.current_energy = pool_add(self.current_energy, returned_energy);
            },
            None => {},
        }
    }

    /// Killing an offshoot removes its whole subtree and refunds the offshoot
    /// alone: once the subtree under the selected offshoot has been pruned, no
    /// branch of that subtree is alive or can be reached from the root, and the
    /// energy has grown by the cost of the offshoot itself, whatever hung on it.
    pub proof fn lemma_kill_removes_subtree(
        after: Plant,
        before: Plant,
        cfg: SimConfig,
        branch_index: int,
        selection: OffshootSelection,
        j: int,
    )
        requires
            before.wf(),
            0 <= branch_index < before.branches@.len(),
            before.branches@[branch_index].alive,
            Self::selected_offshoot(before.branches@[branch_index], selection).is_some(),
            after.offshoot_pruned(before, cfg, branch_index, selection),
            in_subtree(
                before.branches@,
                Self::selected_offshoot(
                    before.branches@[branch_index],
                    selection,
                ).unwrap().branch_index as int,
                j,
            ),
        ensures
            !in_subtree(after.branches@, 0, j),
            0 <= j < after.branches@.len(),
            !after.branches@[j].alive,
            Self::selected_offshoot(after.branches@[branch_index], selection).is_none(),
            after.current_energy == pool_add_spec(
                before.current_energy as int,
                cost_spec(
                    cfg,
                    before.branches@[Self::selected_offshoot(
                        before.branches@[branch_index],
                        selection,
                    ).unwrap().branch_index as int].strength as int,
                    before.branches@[Self::selected_offshoot(
                        before.branches@[branch_index],
                        selection,
                    ).unwrap().branch_index as int].photoreceptiveness as int,
                    before.branches@[Self::selected_offshoot(
                        before.branches@[branch_index],
                        selection,
                    ).unwrap().branch_index as int].water_intake as int,
                    before.branches@[Self::selected_offshoot(
                        before.branches@[branch_index],
                        selection,
                    ).unwrap().branch_index as int].length as int,
                ),
            ),
    {
        lemma_offshoots_are_live(before.branches@, branch_index);
        let top = Self::selected_offshoot(
            before.branches@[branch_index],
            selection,
        ).unwrap().branch_index as int;
        lemma_subtree_member(before.branches@, top, j);
        lemma_pruned_subtree_unreachable(before.branches@, top, j);
        assert(!in_subtree(before.branches@, top, branch_index));
    }

    /// What one rule scan did to a plant and its queue, given the jitter that a
    /// proposal's priority gets: `self` and `queue` are the state after the scan
    /// of the branch at `branch_index`, `before` and `queue_before` the state it
    /// started from. The first rule that takes effect decides. An exit, or no such
    /// rule, changes nothing; a kill prunes the selected offshoot; a request
    /// appends one proposal whose priority is the rule's priority plus the jitter.
    pub open spec fn scanned_with(
        &self,
        queue: Seq<GrowthPriorityItem>,
        before: Plant,
        queue_before: Seq<GrowthPriorityItem>,
        cfg: SimConfig,
        branch_index: usize,
        depth: usize,
        jitter: int,
    ) -> bool {
        &&& before.no_rule_decides(cfg, branch_index as int, depth) ==> *self == before && queue
            == queue_before
        &&& forall|k: int| #[trigger]
            before.is_deciding_rule(
                cfg,
                branch_index as int,
                depth,
                k,
            ) ==> match before.genome.rules@[k].outcome {
                RuleOutcome::Exit => *self == before && queue == queue_before,
                RuleOutcome::KillOffshoot(selection) => queue == queue_before
                    && self.offshoot_pruned(before, cfg, branch_index as int, selection),
                outcome => *self == before && queue == queue_before.push(
                    proposal_spec(branch_index, outcome, jitter).unwrap(),
                ),
            }
    }

    /// What one rule scan did to a plant and its queue, for some jitter within
    /// the configured width.
    pub open spec fn scanned_from(
        &self,
        queue: Seq<GrowthPriorityItem>,
        before: Plant,
        queue_before: Seq<GrowthPriorityItem>,
        cfg: SimConfig,
        branch_index: usize,
        depth: usize,
    ) -> bool {
        exists|jitter: int|
            -cfg.priority_jitter <= jitter < cfg.priority_jitter && #[trigger] self.scanned_with(
                queue,
                before,
                queue_before,
                cfg,
                branch_index,
                depth,
                jitter,
            )
    }

    /// A genome of two rules on depth, an exit for deep branches before a request
    /// for an offshoot on shallow ones, lets no deep branch propose anything and
    /// lets a shallow branch with a free slot, on a plant within its maximum,
    /// propose exactly one new offshoot.
    pub proof fn lemma_exit_shields_deep_branches(
        after: Plant,
        queue: Seq<GrowthPriorityItem>,
        before: Plant,
        queue_before: Seq<GrowthPriorityItem>,
        cfg: SimConfig,
        branch_index: usize,
        depth: usize,
        jitter: int,
    )
        requires
            before.genome.rules@.len() == 2,
            before.genome.rules@[0].req == RuleReq::BranchDepthReq,
            before.genome.rules@[0].outcome == RuleOutcome::Exit,
            before.genome.rules@[1].req == RuleReq::BranchDepthReq,
            before.genome.rules@[1].outcome is RequestNewOffshoot,
            before.genome.rules@[1].max < before.genome.rules@[0].min,
            branch_index < before.branches@.len(),
            after.scanned_with(queue, before, queue_before, cfg, branch_index, depth, jitter),
        ensures
            before.genome.rules@[0].fires(depth, before.branches@[branch_index as int], before)
                ==> after == before && queue == queue_before,
            before.genome.rules@[1].fires(depth, before.branches@[branch_index as int], before)
                && !before.branches@[branch_index as int].is_full() && before.live_branches
                <= cfg.max_branch_count ==> {
                &&& after == before
                &&& queue.len() == queue_before.len() + 1
                &&& queue.take(queue_before.len() as int) == queue_before
                &&& queue.last().branch_index == branch_index
                &&& queue.last().item is NewOffshoot
                &&& queue.last() == proposal_spec(
                    branch_index,
                    before.genome.rules@[1].outcome,
                    jitter,
                ).unwrap()
            },
    {
        let exit = before.genome.rules@[0];
        let grow = before.genome.rules@[1];
        let branch = before.branches@[branch_index as int];
        if exit.fires(depth, branch, before) {
            assert(before.rule_takes_effect(cfg, exit, branch_index as int, depth));
            assert(before.is_deciding_rule(cfg, branch_index as int, depth, 0));
        }
        if grow.fires(depth, branch, before) && !branch.is_full() && before.live_branches
            <= cfg.max_branch_count {
            assert(!exit.fires(depth, branch, before));
            assert(!before.rule_takes_effect(cfg, exit, branch_index as int, depth));
            assert(before.rule_takes_effect(cfg, grow, branch_index as int, depth));
            assert(before.is_deciding_rule(cfg, branch_index as int, depth, 1));
            assert(queue.take(queue_before.len() as int) =~= queue_before);
        }
    }

    /// Carries out the rule that a scan found.
    fn carry_out_rule(
        &mut self,
        cfg: &SimConfig,
        branch_index: usize,
        growth_priority_heap: &mut GrowthPriorityQueue,
        depth: usize,
        found: Option<usize>,
        jitter: i64,
    )
        requires
            old(self).wf(),
            cfg.wf(),
            branch_index < old(self).branches@.len(),
            old(self).branches@[branch_index as int].alive,
            -TRAIT_LIMIT <= jitter <= TRAIT_LIMIT,
            match found {
                Some(k) => old(self).is_deciding_rule(*cfg, branch_index as int, depth, k as int),
                None => old(self).no_rule_decides(*cfg, branch_index as int, depth),
            },
        ensures
            final(self).wf(),
            final(self).scanned_with(
                final(growth_priority_heap)@,
                *old(self),
                old(growth_priority_heap)@,
                *cfg,
                branch_index,
                depth,
                jitter as int,
            ),
    {
        match found {
            None => {
                assert forall|k: int| #[trigger]
                    self.is_deciding_rule(*cfg, branch_index as int, depth, k) implies false by {
                    assert(self.rule_takes_effect(
                        *cfg,
                        self.genome.rules@[k],
                        branch_index as int,
                        depth,
                    ));
                }
            },
            Some(position) => {
                assert forall|k: int| #[trigger]
                    self.is_deciding_rule(*cfg, branch_index as int, depth, k) implies k
                    == position by {
                    if k < position {
                        assert(!self.rule_takes_effect(
                            *cfg,
                            self.genome.rules@[k],
                            branch_index as int,
                            depth,
                        ));
                    }
                    if position < k {
                        assert(!self.rule_takes_effect(
                            *cfg,
                            self.genome.rules@[position as int],
                            branch_index as int,
                            depth,
                        ));
                    }
                }
                assert(!self.no_rule_decides(*cfg, branch_index as int, depth));
                let outcome: RuleOutcome = self.genome.rules[position].outcome;
                match outcome {
                    RuleOutcome::Exit => {},
                    RuleOutcome::KillOffshoot(selection) => {
                        self.prune_offshoot(cfg, branch_index, selection);
                    },
                    _ => {
                        let proposal: Option<GrowthPriorityItem> = proposal_from_outcome(
                            branch_index,
                            &outcome,
                            jitter,
                        );
                        match proposal {
                            Some(item) => {
                                growth_priority_heap.push(item);
                            },
                            None => {},
                        }
                    },
                }
            },
        }
    }

    /// Scans the genome for the branch at `branch_index` and carries out the first
    /// rule that takes effect, with the given jitter for a proposal's priority.
    pub fn scan_branch_with(
        &mut self,
        cfg: &SimConfig,
        branch_index: usize,
        growth_priority_heap: &mut GrowthPriorityQueue,
        depth: usize,
        jitter: i64,
    )
        requires
            old(self).wf(),
            cfg.wf(),
            branch_index < old(self).branches@.len(),
            old(self).branches@[branch_index as int].alive,
            -TRAIT_LIMIT <= jitter <= TRAIT_LIMIT,
        ensures
            final(self).wf(),
            final(self).scanned_with(
                final(growth_priority_heap)@,
                *old(self),
                old(growth_priority_heap)@,
                *cfg,
                branch_index,
                depth,
                jitter as int,
            ),
    {
        let found: Option<usize> = self.deciding_rule(cfg, branch_index, depth);
        self.carry_out_rule(cfg, branch_index, growth_priority_heap, depth, found, jitter);
    }

    /// Scans the genome for the branch at `branch_index` and carries out the first
    /// rule that takes effect. The jitter of a proposal's priority is drawn from
    /// `source`.
    pub fn execute_branch_genome(
        &mut self,
        cfg: &SimConfig,
        branch_index: usize,
        growth_priority_heap: &mut GrowthPriorityQueue,
        depth: usize,
        source: &mut StdRng,
    )
        requires
            old(self).wf(),
            cfg.wf(),
            branch_index < old(self).branches@.len(),
            old(self).branches@[branch_index as int].alive,
        ensures
            final(self).wf(),
            final(self).scanned_from(
                final(growth_priority_heap)@,
                *old(self),
                old(growth_priority_heap)@,
                *cfg,
                branch_index,
                depth,
            ),
    {
        let found: Option<usize> = self.deciding_rule(cfg, branch_index, depth);
        let asks: bool = match found {
            Some(position) => match self.genome.rules[position].outcome {
                RuleOutcome::Exit => false,
                RuleOutcome::KillOffshoot(_) => false,
                _ => true,
            },
            None => false,
        };
        let jitter: i64 = if asks {
            draw_in_range(source, -cfg.priority_jitter, cfg.priority_jitter)
        } else {
            -cfg.priority_jitter
        };
        self.carry_out_rule(cfg, branch_index, growth_priority_heap, depth, found, jitter);
    }

    /// What a walk may do to a plant, whatever the rules decide: the arena keeps
    /// its length, no branch below `first` changes, no tombstone comes back to
    /// life, live branches keep their traits and length, and nothing but the
    /// arena, its live count and the three pools changes.
    pub open spec fn walked_from(&self, before: Plant, first: usize) -> bool {
        &&& self.branches@.len() == before.branches@.len()
        &&& self.genome == before.genome
        &&& self.age_ticks == before.age_ticks
        &&& self.root_position == before.root_position
        &&& self.live_branches <= before.live_branches
        &&& forall|j: int| 0 <= j < first ==> #[trigger] self.branches@[j] == before.branches@[j]
        &&& forall|j: int|
            0 <= j < self.branches@.len() && (#[trigger] self.branches@[j]).alive ==> {
                &&& before.branches@[j].alive
                &&& self.branches@[j].strength == before.branches@[j].strength
                &&& self.branches@[j].photoreceptiveness == before.branches@[j].photoreceptiveness
                &&& self.branches@[j].water_intake == before.branches@[j].water_intake
                &&& self.branches@[j].length == before.branches@[j].length
            }
    }

    /// The pools and the upkeep total after the branch at `branch_index` has
    /// been accounted for at the given depth.
    pub open spec fn metabolized_from(
        &self,
        upkeep: i64,
        before: Plant,
        upkeep_before: i64,
        cfg: SimConfig,
        branch_index: int,
        depth: usize,
    ) -> bool {
        let branch = before.branches@[branch_index];
        &&& upkeep == pool_add_spec(
            upkeep_before as int,
            homeostasis_spec(
                cfg,
                branch.strength as int,
                branch.photoreceptiveness as int,
                branch.water_intake as int,
                branch.length as int,
            ),
        )
        &&& self.current_sunlight == pool_add_spec(
            before.current_sunlight as int,
            collect_sunlight_spec(
                cfg,
                branch.length as int,
                branch.photoreceptiveness as int,
                depth as nat,
            ),
        )
        &&& self.current_water == pool_add_spec(
            before.current_water as int,
            collect_water_spec(cfg, branch.length as int, branch.water_intake as int, depth as nat),
        )
        &&& self.current_energy == before.current_energy
        &&& self.branches == before.branches
        &&& self.live_branches == before.live_branches
        &&& self.genome == before.genome
        &&& self.age_ticks == before.age_ticks
        &&& self.root_position == before.root_position
    }

    /// Accounts for one branch: adds its upkeep to `homeostasis` and what it
    /// collects at the given depth to the sunlight and water pools.
    pub fn metabolize_branch(
        &mut self,
        cfg: &SimConfig,
        homeostasis: &mut i64,
        branch_index: usize,
        depth: usize,
    )
        requires
            old(self).wf(),
            cfg.wf(),
            branch_index < old(self).branches@.len(),
            old(self).branches@[branch_index as int].alive,
        ensures
            final(self).wf(),
            final(self).metabolized_from(
                *final(homeostasis),
                *old(self),
                *old(homeostasis),
                *cfg,
                branch_index as int,
                depth,
            ),
            within_pool_limit(*final(homeostasis) as int),
    {
        proof {
            reveal(arena_wf);
        }
        let branch: Branch = self.branches[branch_index];
        *homeostasis = pool_add(*homeostasis, branch.calculate_homeostasis(cfg));
        self.current_sunlight = pool_add(
            self.current_sunlight,
            branch.calculate_collect_sunlight(cfg, depth),
        );
        self.current_water = pool_add(
            self.current_water,
            branch.calculate_collect_water(cfg, depth),
        );
    }

    /// What the visit of one branch did: the branch was accounted for, then its
    /// rules were scanned with the given jitter.
    pub open spec fn visited(
        after: WalkState,
        before: WalkState,
        cfg: SimConfig,
        branch_index: usize,
        depth: usize,
        jitter: int,
    ) -> bool {
        exists|accounted: Plant| #[trigger]
            accounted.metabolized_from(
                after.upkeep,
                before.plant,
                before.upkeep,
                cfg,
                branch_index as int,
                depth,
            ) && after.plant.scanned_with(
                after.queue,
                accounted,
                before.queue,
                cfg,
                branch_index,
                depth,
                jitter,
            )
    }

    /// What the walk of the subtree of the branch at `branch_index` did, given
    /// one jitter for each arena index: the branch was visited, then the subtree
    /// under its first offshoot was walked one level deeper, then the subtree
    /// under its second offshoot, each as far as the visit left it in place.
    /// The state between the two descents is one that a descent can leave.
    pub open spec fn walked(
        after: WalkState,
        before: WalkState,
        cfg: SimConfig,
        branch_index: usize,
        depth: usize,
        jitters: Seq<i64>,
    ) -> bool
        decreases jitters.len() - branch_index, 1int,
    {
        exists|scanned: WalkState| #[trigger]
            Self::visited(
                scanned,
                before,
                cfg,
                branch_index,
                depth,
                jitters[branch_index as int] as int,
            ) && exists|first: WalkState| #[trigger]
                Self::stepped_down(
                    first,
                    scanned,
                    branch_index,
                    scanned.plant.branches@[branch_index as int].offshoot_1,
                ) && Self::descended(
                    first,
                    scanned,
                    cfg,
                    branch_index,
                    scanned.plant.branches@[branch_index as int].offshoot_1,
                    depth,
                    jitters,
                ) && Self::descended(
                    after,
                    first,
                    cfg,
                    branch_index,
                    first.plant.branches@[branch_index as int].offshoot_2,
                    depth,
                    jitters,
                )
    }

    /// What a walk did below one offshoot slot of the branch at `parent`, which
    /// lies at `depth`: nothing if the slot is empty, else the walk of the
    /// offshoot's subtree, one level deeper.
    pub open spec fn descended(
        after: WalkState,
        before: WalkState,
        cfg: SimConfig,
        parent: usize,
        link: Option<BranchConnection>,
        depth: usize,
        jitters: Seq<i64>,
    ) -> bool
        decreases jitters.len() - parent, 0int,
    {
        match link {
            Some(c) => parent < c.branch_index < jitters.len() && Self::walked(
                after,
                before,
                cfg,
                c.branch_index,
                (depth + 1) as usize,
                jitters,
            ),
            None => after == before,
        }
    }

    /// Walks the subtree of the branch at `branch_index`, parents before
    /// offshoots, with one jitter given for each arena index: each branch is
    /// accounted for, then its rules are scanned, then the walk goes on into the
    /// offshoots that the scan left in place, one level deeper. Proposals are
    /// appended to the queue in the order of the walk.
    pub fn walk_with(
        &mut self,
        cfg: &SimConfig,
        homeostasis: &mut i64,
        branch_index: usize,
        growth_priority_heap: &mut GrowthPriorityQueue,
        depth: usize,
        jitters: &Vec<i64>,
    )
        requires
            old(self).wf(),
            cfg.wf(),
            branch_index < old(self).branches@.len(),
            old(self).branches@[branch_index as int].alive,
            depth <= branch_index,
            jitters@.len() == old(self).branches@.len(),
            forall|i: int|
                0 <= i < jitters@.len() ==> -TRAIT_LIMIT <= #[trigger] jitters@[i]
                    <= TRAIT_LIMIT,
        ensures
            final(self).wf(),
            Self::walked(
                (WalkState {
                    plant: *final(self),
                    upkeep: *final(homeostasis),
                    queue: final(growth_priority_heap)@,
                }),
                (WalkState {
                    plant: *old(self),
                    upkeep: *old(homeostasis),
                    queue: old(growth_priority_heap)@,
                }),
                *cfg,
                branch_index,
                depth,
                jitters@,
            ),
            final(self).walked_from(*old(self), branch_index),
            final(self).branches@[branch_index as int].alive,
            within_pool_limit(*final(homeostasis) as int),
            old(growth_priority_heap)@.len() <= final(growth_priority_heap)@.len(),
            final(growth_priority_heap)@.take(old(growth_priority_heap)@.len() as int)
                == old(growth_priority_heap)@,
        decreases old(self).branches@.len() - branch_index,
    {
        let ghost start = WalkState {
            plant: *self,
            upkeep: *homeostasis,
            queue: growth_priority_heap@,
        };
        self.metabolize_branch(cfg, homeostasis, branch_index, depth);
        let ghost accounted = *self;
        let jitter: i64 = jitters[branch_index];
        self.scan_branch_with(cfg, branch_index, growth_priority_heap, depth, jitter);
        let ghost scanned = WalkState {
            plant: *self,
            upkeep: *homeostasis,
            queue: growth_priority_heap@,
        };
        proof {
            Self::lemma_scan_is_a_walk(
                scanned.plant,
                scanned.queue,
                accounted,
                start.queue,
                *cfg,
                branch_index,
                depth,
                jitters@[branch_index as int] as int,
            );
            assert(accounted.metabolized_from(
                scanned.upkeep,
                start.plant,
                start.upkeep,
                *cfg,
                branch_index as int,
                depth,
            ));
            lemma_offshoots_are_live(self.branches@, branch_index as int);
        }
        match self.branches[branch_index].offshoot_1 {
            Some(branch_connection) => {
                self.walk_with(
                    cfg,
                    homeostasis,
                    branch_connection.branch_index,
                    growth_priority_heap,
                    depth + 1,
                    jitters,
                );
            },
            None => {},
        }
        let ghost first = WalkState {
            plant: *self,
            upkeep: *homeostasis,
            queue: growth_priority_heap@,
        };
        proof {
            assert(scanned.queue.len() <= first.queue.len());
            assert(first.queue.take(scanned.queue.len() as int) == scanned.queue);
            match scanned.plant.branches@[branch_index as int].offshoot_1 {
                Some(c) => {
                    assert(branch_index < c.branch_index);
                    assert(first.plant.walked_from(scanned.plant, c.branch_index));
                },
                None => {
                    assert(first == scanned);
                },
            }
            assert(Self::stepped_down(
                first,
                scanned,
                branch_index,
                scanned.plant.branches@[branch_index as int].offshoot_1,
            ));
            lemma_offshoots_are_live(self.branches@, branch_index as int);
        }
        match self.branches[branch_index].offshoot_2 {
            Some(branch_connection) => {
                self.walk_with(
                    cfg,
                    homeostasis,
                    branch_connection.branch_index,
                    growth_priority_heap,
                    depth + 1,
                    jitters,
                );
            },
            None => {},
        }
        proof {
            let last = WalkState {
                plant: *self,
                upkeep: *homeostasis,
                queue: growth_priority_heap@,
            };
            assert(first.queue.len() <= last.queue.len());
            assert(last.queue.take(first.queue.len() as int) == first.queue);
            match first.plant.branches@[branch_index as int].offshoot_2 {
                Some(c) => {
                    assert(branch_index < c.branch_index);
                    assert(last.plant.walked_from(first.plant, c.branch_index));
                },
                None => {
                    assert(last == first);
                },
            }
            Self::lemma_walk_assembles(
                last,
                first,
                scanned,
                start,
                accounted,
                *cfg,
                branch_index,
                depth,
                jitters@,
            );
        }
    }

    /// A visit followed by the walks below the two offshoot slots is a walk, and
    /// has the effects that every walk has.
    pub proof fn lemma_walk_assembles(
        last: WalkState,
        first: WalkState,
        scanned: WalkState,
        start: WalkState,
        accounted: Plant,
        cfg: SimConfig,
        branch_index: usize,
        depth: usize,
        jitters: Seq<i64>,
    )
        requires
            branch_index < jitters.len(),
            jitters.len() == start.plant.branches@.len(),
            depth <= branch_index,
            accounted.metabolized_from(
                scanned.upkeep,
                start.plant,
                start.upkeep,
                cfg,
                branch_index as int,
                depth,
            ),
            scanned.plant.scanned_with(
                scanned.queue,
                accounted,
                start.queue,
                cfg,
                branch_index,
                depth,
                jitters[branch_index as int] as int,
            ),
            scanned.plant.walked_from(accounted, branch_index),
            scanned.queue.len() >= start.queue.len(),
            scanned.queue.take(start.queue.len() as int) == start.queue,
            Self::descended(
                first,
                scanned,
                cfg,
                branch_index,
                scanned.plant.branches@[branch_index as int].offshoot_1,
                depth,
                jitters,
            ),
            Self::stepped_down(
                first,
                scanned,
                branch_index,
                scanned.plant.branches@[branch_index as int].offshoot_1,
            ),
            Self::descended(
                last,
                first,
                cfg,
                branch_index,
                first.plant.branches@[branch_index as int].offshoot_2,
                depth,
                jitters,
            ),
            Self::stepped_down(
                last,
                first,
                branch_index,
                first.plant.branches@[branch_index as int].offshoot_2,
            ),
        ensures
            Self::walked(last, start, cfg, branch_index, depth, jitters),
            last.plant.walked_from(start.plant, branch_index),
            start.queue.len() <= last.queue.len(),
            last.queue.take(start.queue.len() as int) == start.queue,
    {
        assert(Self::visited(
            scanned,
            start,
            cfg,
            branch_index,
            depth,
            jitters[branch_index as int] as int,
        ));
        assert(Self::walked(last, start, cfg, branch_index, depth, jitters));
        assert(last.queue.take(start.queue.len() as int) =~= start.queue) by {
            assert forall|i: int| 0 <= i < start.queue.len() implies last.queue[i]
                == start.queue[i] by {
                assert(last.queue.take(first.queue.len() as int)[i] == last.queue[i]);
                assert(first.queue.take(scanned.queue.len() as int)[i] == first.queue[i]);
                assert(scanned.queue.take(start.queue.len() as int)[i] == scanned.queue[i]);
            }
        }
    }

    /// The effects that a walk below one offshoot slot has whatever the rules
    /// decide: none if the slot is empty, else those of a walk from the offshoot.
    pub open spec fn stepped_down(
        after: WalkState,
        before: WalkState,
        parent: usize,
        link: Option<BranchConnection>,
    ) -> bool {
        &&& before.queue.len() <= after.queue.len()
        &&& after.queue.take(before.queue.len() as int) == before.queue
        &&& match link {
            Some(c) => parent < c.branch_index && after.plant.walked_from(
                before.plant,
                c.branch_index,
            ),
            None => after == before,
        }
    }

    /// Draws one jitter within the configured width for each of `count` arena
    /// indices.
    pub fn draw_jitters(cfg: &SimConfig, count: usize, source: &mut StdRng) -> (jitters: Vec<i64>)
        requires
            cfg.wf(),
        ensures
            jitters@.len() == count,
            Self::jitters_in_range(*cfg, jitters@),
    {
        let mut jitters: Vec<i64> = Vec::new();
        let mut i: usize = 0;
        while i < count
            invariant
                cfg.wf(),
                i <= count,
                jitters@.len() == i,
                Self::jitters_in_range(*cfg, jitters@),
            decreases count - i,
        {
            let jitter: i64 = draw_in_range(source, -cfg.priority_jitter, cfg.priority_jitter);
            jitters.push(jitter);
            i += 1;
        }
        jitters
    }

    /// Every jitter lies within the configured width.
    pub open spec fn jitters_in_range(cfg: SimConfig, jitters: Seq<i64>) -> bool {
        forall|i: int|
            0 <= i < jitters.len() ==> -cfg.priority_jitter <= #[trigger] jitters[i]
                < cfg.priority_jitter
    }

    /// Walks the subtree of the branch at `branch_index` as `walk_with` does,
    /// with jitters drawn from `source`, one for each arena index.
    pub fn execute_branch_and_update_model_recursive(
        &mut self,
        cfg: &SimConfig,
        homeostasis: &mut i64,
        branch_index: usize,
        growth_priority_heap: &mut GrowthPriorityQueue,
        depth: usize,
        source: &mut StdRng,
    )
        requires
            old(self).wf(),
            cfg.wf(),
            branch_index < old(self).branches@.len(),
            old(self).branches@[branch_index as int].alive,
            depth <= branch_index,
        ensures
            final(self).wf(),
            exists|jitters: Seq<i64>|
                jitters.len() == old(self).branches@.len() && Self::jitters_in_range(*cfg, jitters)
                    && #[trigger] Self::walked(
                    (WalkState {
                        plant: *final(self),
                        upkeep: *final(homeostasis),
                        queue: final(growth_priority_heap)@,
                    }),
                    (WalkState {
                        plant: *old(self),
                        upkeep: *old(homeostasis),
                        queue: old(growth_priority_heap)@,
                    }),
                    *cfg,
                    branch_index,
                    depth,
                    jitters,
                ),
            final(self).walked_from(*old(self), branch_index),
            final(self).branches@[branch_index as int].alive,
            within_pool_limit(*final(homeostasis) as int),
            old(growth_priority_heap)@.len() <= final(growth_priority_heap)@.len(),
            final(growth_priority_heap)@.take(old(growth_priority_heap)@.len() as int)
                == old(growth_priority_heap)@,
    {
        let jitters: Vec<i64> = Self::draw_jitters(cfg, self.branches.len(), source);
        self.walk_with(cfg, homeostasis, branch_index, growth_priority_heap, depth, &jitters);
    }

    /// A rule scan is a walk that stays at one branch: it leaves every branch
    /// below that branch as it was, keeps the branch itself alive, and extends the
    /// queue by at most one proposal.
    pub proof fn lemma_scan_is_a_walk(
        after: Plant,
        queue: Seq<GrowthPriorityItem>,
        before: Plant,
        queue_before: Seq<GrowthPriorityItem>,
        cfg: SimConfig,
        branch_index: usize,
        depth: usize,
        jitter: int,
    )
        requires
            before.wf(),
            branch_index < before.branches@.len(),
            before.branches@[branch_index as int].alive,
            after.scanned_with(queue, before, queue_before, cfg, branch_index, depth, jitter),
        ensures
            after.walked_from(before, branch_index),
            after.branches@[branch_index as int].alive,
            after.current_water == before.current_water,
            after.current_sunlight == before.current_sunlight,
            queue_before.len() <= queue.len() <= queue_before.len() + 1,
            queue.take(queue_before.len() as int) == queue_before,
    {
        reveal(arena_wf);
        let idx = branch_index as int;
        if before.no_rule_decides(cfg, idx, depth) {
            assert(queue.take(queue_before.len() as int) =~= queue_before);
        } else {
            let k = choose|k: int|
                0 <= k < before.genome.rules@.len() && before.rule_takes_effect(
                    cfg,
                    #[trigger] before.genome.rules@[k],
                    idx,
                    depth,
                );
            Self::lemma_first_effective_rule(before, cfg, idx, depth, k);
            let d = choose|d: int| before.is_deciding_rule(cfg, idx, depth, d);
            match before.genome.rules@[d].outcome {
                RuleOutcome::KillOffshoot(selection) => {
                    let link = Self::selected_offshoot(before.branches@[idx], selection);
                    let top = link.unwrap().branch_index as int;
                    assert(idx < top < before.branches@.len());
                    assert forall|j: int| 0 <= j < after.branches@.len() implies {
                        &&& j < idx ==> after.branches@[j] == before.branches@[j]
                        &&& (#[trigger] after.branches@[j]).alive ==> {
                            &&& before.branches@[j].alive
                            &&& after.branches@[j].strength == before.branches@[j].strength
                            &&& after.branches@[j].photoreceptiveness
                                == before.branches@[j].photoreceptiveness
                            &&& after.branches@[j].water_intake == before.branches@[j].water_intake
                            &&& after.branches@[j].length == before.branches@[j].length
                        }
                    } by {
                        if j < top {
                            assert(!in_subtree(before.branches@, top, j));
                        }
                        if !in_subtree(before.branches@, top, j) {
                            lemma_prune_keeps_the_rest(before.branches@, top, j);
                        }
                    }
                    assert(!in_subtree(before.branches@, top, idx));
                    assert(queue.take(queue_before.len() as int) =~= queue_before);
                },
                _ => {
                    assert(queue.take(queue_before.len() as int) =~= queue_before);
                },
            }
        }
    }

    /// If some rule takes effect, a first one does.
    pub proof fn lemma_first_effective_rule(
        plant: Plant,
        cfg: SimConfig,
        branch_index: int,
        depth: usize,
        k: int,
    )
        requires
            0 <= k < plant.genome.rules@.len(),
            plant.rule_takes_effect(cfg, plant.genome.rules@[k], branch_index, depth),
        ensures
            exists|d: int| plant.is_deciding_rule(cfg, branch_index, depth, d),
        decreases k,
    {
        if exists|j: int|
            0 <= j < k && plant.rule_takes_effect(
                cfg,
                #[trigger] plant.genome.rules@[j],
                branch_index,
                depth,
            ) {
            let j = choose|j: int|
                0 <= j < k && plant.rule_takes_effect(
                    cfg,
                    #[trigger] plant.genome.rules@[j],
                    branch_index,
                    depth,
                );
            Self::lemma_first_effective_rule(plant, cfg, branch_index, depth, j);
        } else {
            assert(plant.is_deciding_rule(cfg, branch_index, depth, k));
        }
    }
}

} // verus!
