//! A plant: a genome, an arena of branches, and three resource pools.

use crate::admission::OffshootVariation;
use crate::branch::{
    collect_sunlight_spec, collect_water_spec, homeostasis_spec, Branch, BranchConnection,
};
use crate::branch_execute_genome::WalkState;
use crate::config::SimConfig;
use crate::fixed::{clamp, clamp_spec, pool_add, pool_add_spec, within_pool_limit, POOL_LIMIT};
use crate::genome::PlantGenome;
use crate::growth_priority_item::{GrowthPriorityItem, GrowthPriorityQueue};
use crate::terrain::Terrain;
use rand::rngs::StdRng;
use vstd::prelude::*;

verus! {

/// A plant. Its branches live in an arena: index 0 is the root, an offshoot
/// always has a larger index than its parent, and a pruned branch leaves a
/// tombstone, so that no index ever changes its meaning.
#[derive(Debug)]
pub struct Plant {
    pub genome: PlantGenome,
    /// Number of ticks lived.
    pub age_ticks: u64,
    /// Position of the root: x, height, z.
    pub root_position: (i64, i64, i64),
    /// The arena of branches, tombstones included.
    pub branches: Vec<Branch>,
    /// Number of live branches in the arena.
    pub live_branches: usize,
    pub current_energy: i64,
    pub current_water: i64,
    pub current_sunlight: i64,
}

/// The connection, if there is one, leads from branch `i` to a live branch
/// further up the arena that names `i` as its parent.
pub open spec fn link_ok(arena: Seq<Branch>, i: int, link: Option<BranchConnection>) -> bool {
    match link {
        None => true,
        Some(c) => {
            &&& i < c.branch_index < arena.len()
            &&& arena[c.branch_index as int].alive
            &&& arena[c.branch_index as int].parent == i
        },
    }
}

/// The two connections of a branch do not lead to the same offshoot.
pub open spec fn links_distinct(b: Branch) -> bool {
    b.offshoot_1.is_some() && b.offshoot_2.is_some() ==> b.offshoot_1.unwrap().branch_index
        != b.offshoot_2.unwrap().branch_index
}

/// The live branches of the arena form a tree rooted at index 0: the root is
/// alive, every connection of a live branch leads to a live offshoot of its own,
/// and every other live branch hangs on a connection of its live parent.
#[verifier::opaque]
pub open spec fn arena_wf(arena: Seq<Branch>) -> bool {
    &&& arena.len() > 0
    &&& arena[0].alive
    &&& forall|i: int|
        0 <= i < arena.len() && (#[trigger] arena[i]).alive ==> {
            &&& arena[i].wf()
            &&& link_ok(arena, i, arena[i].offshoot_1)
            &&& link_ok(arena, i, arena[i].offshoot_2)
            &&& links_distinct(arena[i])
        }
    &&& forall|j: int|
        0 < j < arena.len() && (#[trigger] arena[j]).alive ==> {
            &&& arena[j].parent < j
            &&& arena[arena[j].parent as int].alive
            &&& arena[arena[j].parent as int].links_to(j)
        }
}

/// Number of live branches in an arena.
pub open spec fn count_alive(arena: Seq<Branch>) -> nat
    decreases arena.len(),
{
    if arena.len() == 0 {
        0
    } else {
        count_alive(arena.drop_last()) + if arena.last().alive {
            1nat
        } else {
            0nat
        }
    }
}

/// Branch `j` belongs to the subtree of branch `top`: it is `top`, or a live
/// branch whose parent belongs to that subtree.
pub open spec fn in_subtree(arena: Seq<Branch>, top: int, j: int) -> bool
    decreases j,
{
    if j == top {
        true
    } else if top < j < arena.len() && arena[j].alive && arena[j].parent < j {
        in_subtree(arena, top, arena[j].parent as int)
    } else {
        false
    }
}

/// No more branches are alive than the arena holds.
pub proof fn lemma_count_alive_bounded(arena: Seq<Branch>)
    ensures
        count_alive(arena) <= arena.len(),
    decreases arena.len(),
{
    if arena.len() > 0 {
        lemma_count_alive_bounded(arena.drop_last());
    }
}

/// Appending a branch raises the live count by one exactly if it is alive.
pub proof fn lemma_count_alive_push(arena: Seq<Branch>, b: Branch)
    ensures
        count_alive(arena.push(b)) == count_alive(arena) + if b.alive {
            1nat
        } else {
            0nat
        },
{
    assert(arena.push(b).drop_last() =~= arena);
}

/// Replacing one branch changes the live count by the difference between the new
/// branch's liveness and the old one's.
pub proof fn lemma_count_alive_update(arena: Seq<Branch>, i: int, b: Branch)
    requires
        0 <= i < arena.len(),
    ensures
        count_alive(arena.update(i, b)) + (if arena[i].alive {
            1nat
        } else {
            0nat
        }) == count_alive(arena) + if b.alive {
            1nat
        } else {
            0nat
        },
    decreases arena.len(),
{
    let updated = arena.update(i, b);
    if i == arena.len() - 1 {
        assert(updated.drop_last() =~= arena.drop_last());
    } else {
        lemma_count_alive_update(arena.drop_last(), i, b);
        assert(updated.drop_last() =~= arena.drop_last().update(i, b));
    }
}

/// In a well-formed arena every live branch belongs to the subtree of the root.
pub proof fn lemma_alive_is_reachable(arena: Seq<Branch>, j: int)
    requires
        arena_wf(arena),
        0 <= j < arena.len(),
        arena[j].alive,
    ensures
        in_subtree(arena, 0, j),
    decreases j,
{
    reveal(arena_wf);
    if j > 0 {
        lemma_alive_is_reachable(arena, arena[j].parent as int);
    }
}

/// The root of a well-formed arena is alive.
pub proof fn lemma_root_is_live(arena: Seq<Branch>)
    requires
        arena_wf(arena),
    ensures
        arena.len() > 0,
        arena[0].alive,
{
    reveal(arena_wf);
}

/// The connections of a live branch lead to live offshoots further up the arena.
pub proof fn lemma_offshoots_are_live(arena: Seq<Branch>, i: int)
    requires
        arena_wf(arena),
        0 <= i < arena.len(),
        arena[i].alive,
    ensures
        arena[i].wf(),
        link_ok(arena, i, arena[i].offshoot_1),
        link_ok(arena, i, arena[i].offshoot_2),
        links_distinct(arena[i]),
{
    reveal(arena_wf);
}

/// A member of a subtree is no lower in the arena than the subtree's top, and,
/// unless it is the top itself, it is a live branch of the arena.
pub proof fn lemma_subtree_member(arena: Seq<Branch>, top: int, j: int)
    requires
        in_subtree(arena, top, j),
    ensures
        top <= j,
        j != top ==> j < arena.len() && arena[j].alive,
{
}

/// A branch without its connections to the branch at `target`.
pub open spec fn detached(b: Branch, target: int) -> Branch {
    Branch {
        offshoot_1: if b.offshoot_1.is_some() && b.offshoot_1.unwrap().branch_index == target {
            None
        } else {
            b.offshoot_1
        },
        offshoot_2: if b.offshoot_2.is_some() && b.offshoot_2.unwrap().branch_index == target {
            None
        } else {
            b.offshoot_2
        },
        ..b
    }
}

/// What stands at index `j` once the subtree of `target` has been pruned: a
/// tombstone if `j` belongs to the subtree, the parent without its connection to
/// `target` if `j` is the parent, and the branch as it was otherwise.
pub open spec fn pruned_branch(arena: Seq<Branch>, target: int, j: int) -> Branch {
    if in_subtree(arena, target, j) {
        Branch { alive: false, ..arena[j] }
    } else if j == arena[target].parent {
        detached(arena[j], target)
    } else {
        arena[j]
    }
}

/// The arena once the subtree of `target` has been pruned.
pub open spec fn pruned(arena: Seq<Branch>, target: int) -> Seq<Branch> {
    Seq::new(arena.len(), |j: int| pruned_branch(arena, target, j))
}

/// Pruning the subtree of a live branch other than the root leaves a tree.
pub proof fn lemma_prune_preserves_wf(arena: Seq<Branch>, target: int)
    requires
        arena_wf(arena),
        0 < target < arena.len(),
        arena[target].alive,
    ensures
        arena_wf(pruned(arena, target)),
{
    reveal(arena_wf);
    let after = pruned(arena, target);
    assert(!in_subtree(arena, target, 0));
    assert forall|i: int| 0 <= i < after.len() && (#[trigger] after[i]).alive implies {
        &&& after[i].wf()
        &&& link_ok(after, i, after[i].offshoot_1)
        &&& link_ok(after, i, after[i].offshoot_2)
        &&& links_distinct(after[i])
    } by {
        assert(!in_subtree(arena, target, i));
        assert(arena[i].alive);
        if after[i].offshoot_1.is_some() {
            let c = after[i].offshoot_1.unwrap().branch_index as int;
            assert(arena[i].offshoot_1.unwrap().branch_index == c);
            assert(arena[c].alive && arena[c].parent == i);
            assert(!in_subtree(arena, target, c));
        }
        if after[i].offshoot_2.is_some() {
            let c = after[i].offshoot_2.unwrap().branch_index as int;
            assert(arena[i].offshoot_2.unwrap().branch_index == c);
            assert(arena[c].alive && arena[c].parent == i);
            assert(!in_subtree(arena, target, c));
        }
    }
    assert forall|j: int| 0 < j < after.len() && (#[trigger] after[j]).alive implies {
        &&& after[j].parent < j
        &&& after[after[j].parent as int].alive
        &&& after[after[j].parent as int].links_to(j)
    } by {
        assert(!in_subtree(arena, target, j));
        assert(arena[j].alive);
        let p = arena[j].parent as int;
        assert(arena[p].alive);
        if in_subtree(arena, target, p) {
            lemma_subtree_member(arena, target, p);
            assert(in_subtree(arena, target, j));
        }
    }
}

/// Once the subtree of a branch has been pruned, none of its members can be
/// reached from the root.
pub proof fn lemma_pruned_subtree_unreachable(arena: Seq<Branch>, target: int, j: int)
    requires
        arena_wf(arena),
        0 < target < arena.len(),
        arena[target].alive,
        in_subtree(arena, target, j),
    ensures
        !in_subtree(pruned(arena, target), 0, j),
        0 <= j < arena.len() ==> !pruned(arena, target)[j].alive,
{
    reveal(arena_wf);
    lemma_subtree_member(arena, target, j);
}

/// Pruning changes no branch outside the subtree but the parent of its top, whose
/// other connection, traits and length stay as they were.
pub proof fn lemma_prune_keeps_the_rest(arena: Seq<Branch>, target: int, j: int)
    requires
        0 <= j < arena.len(),
        !in_subtree(arena, target, j),
    ensures
        j != arena[target].parent ==> pruned(arena, target)[j] == arena[j],
        pruned(arena, target)[j].alive == arena[j].alive,
        pruned(arena, target)[j].strength == arena[j].strength,
        pruned(arena, target)[j].photoreceptiveness == arena[j].photoreceptiveness,
        pruned(arena, target)[j].water_intake == arena[j].water_intake,
        pruned(arena, target)[j].length == arena[j].length,
{
}

/// What the sweep that prunes the subtree of `target` finds at a later index `k`:
/// a branch belongs to the subtree exactly if it is alive and its parent, which
/// the sweep has already passed, has just been pruned.
pub proof fn lemma_sweep_step(arena: Seq<Branch>, target: int, k: int)
    requires
        arena_wf(arena),
        0 < target < k < arena.len(),
        arena[target].alive,
    ensures
        !arena[k].alive ==> pruned_branch(arena, target, k) == arena[k],
        arena[k].alive ==> {
            let p = arena[k].parent as int;
            &&& p < k
            &&& arena[p].alive
            &&& pruned_branch(arena, target, p).alive == !in_subtree(arena, target, p)
            &&& in_subtree(arena, target, k) == in_subtree(arena, target, p)
            &&& !in_subtree(arena, target, k) ==> pruned_branch(arena, target, k) == arena[k]
        },
{
    reveal(arena_wf);
    assert(arena[target].parent < target);
}

/// What the tree asks of the live branch at index `i`: valid traits, connections
/// to live offshoots of its own further up the arena, and, unless it is the
/// root, a live parent further down that holds a connection to it.
pub open spec fn branch_fits(arena: Seq<Branch>, i: int) -> bool {
    &&& arena[i].wf()
    &&& link_ok(arena, i, arena[i].offshoot_1)
    &&& link_ok(arena, i, arena[i].offshoot_2)
    &&& links_distinct(arena[i])
    &&& i > 0 ==> {
        &&& arena[i].parent < i
        &&& arena[arena[i].parent as int].alive
        &&& arena[arena[i].parent as int].links_to(i)
    }
}

/// In a tree every live branch fits.
pub proof fn lemma_live_branch_fits(arena: Seq<Branch>, i: int)
    requires
        arena_wf(arena),
        0 <= i < arena.len(),
        arena[i].alive,
    ensures
        branch_fits(arena, i),
{
    reveal(arena_wf);
}

/// An arena whose root is alive and whose live branches all fit is a tree.
pub proof fn lemma_fitting_branches_make_a_tree(arena: Seq<Branch>)
    requires
        arena.len() > 0,
        arena[0].alive,
        forall|i: int|
            0 <= i < arena.len() && (#[trigger] arena[i]).alive ==> branch_fits(arena, i),
    ensures
        arena_wf(arena),
{
    reveal(arena_wf);
}

/// Tests whether a connection of the branch at index `i` leads to a live
/// offshoot of its own further up the arena.
fn link_is_ok(arena: &Vec<Branch>, i: usize, link: Option<BranchConnection>) -> (ok: bool)
    requires
        i < arena@.len(),
    ensures
        ok == link_ok(arena@, i as int, link),
{
    match link {
        None => true,
        Some(c) => i < c.branch_index && c.branch_index < arena.len()
            && arena[c.branch_index].alive && arena[c.branch_index].parent == i,
    }
}

/// Tests whether the live branch at index `i` fits into the tree.
fn branch_does_fit(arena: &Vec<Branch>, i: usize) -> (ok: bool)
    requires
        i < arena@.len(),
    ensures
        ok == branch_fits(arena@, i as int),
{
    let b: Branch = arena[i];
    if !b.is_valid() || !link_is_ok(arena, i, b.offshoot_1) || !link_is_ok(arena, i, b.offshoot_2) {
        return false;
    }
    if let Some(first) = b.offshoot_1 {
        if let Some(second) = b.offshoot_2 {
            if first.branch_index == second.branch_index {
                return false;
            }
        }
    }
    if i == 0 {
        return true;
    }
    if b.parent >= i {
        return false;
    }
    let parent: Branch = arena[b.parent];
    let by_first: bool = match parent.offshoot_1 {
        Some(c) => c.branch_index == i,
        None => false,
    };
    let by_second: bool = match parent.offshoot_2 {
        Some(c) => c.branch_index == i,
        None => false,
    };
    parent.alive && (by_first || by_second)
}

impl Plant {
    /// Tests whether the plant is valid.
    pub fn is_valid(&self) -> (ok: bool)
        ensures
            ok == self.wf(),
    {
        let count: usize = self.branches.len();
        if count == 0 || !self.branches[0].alive {
            proof {
                if arena_wf(self.branches@) {
                    lemma_root_is_live(self.branches@);
                }
            }
            return false;
        }
        let mut alive: usize = 0;
        let mut i: usize = 0;
        while i < count
            invariant
                i <= count,
                count == self.branches@.len(),
                alive == count_alive(self.branches@.take(i as int)),
                alive <= i,
                forall|k: int|
                    0 <= k < i && (#[trigger] self.branches@[k]).alive ==> branch_fits(
                        self.branches@,
                        k,
                    ),
            decreases count - i,
        {
            proof {
                lemma_count_alive_push(self.branches@.take(i as int), self.branches@[i as int]);
                assert(self.branches@.take(i as int).push(self.branches@[i as int])
                    =~= self.branches@.take(i + 1));
            }
            if self.branches[i].alive {
                if !branch_does_fit(&self.branches, i) {
                    proof {
                        if arena_wf(self.branches@) {
                            lemma_live_branch_fits(self.branches@, i as int);
                        }
                    }
                    return false;
                }
                alive = alive + 1;
            }
            i += 1;
        }
        proof {
            assert(self.branches@.take(count as int) =~= self.branches@);
            lemma_fitting_branches_make_a_tree(self.branches@);
        }
        alive == self.live_branches && self.genome.is_valid() && -POOL_LIMIT
            <= self.current_energy && self.current_energy <= POOL_LIMIT && -POOL_LIMIT
            <= self.current_water && self.current_water <= POOL_LIMIT && -POOL_LIMIT
            <= self.current_sunlight && self.current_sunlight <= POOL_LIMIT
    }

    /// The plant is valid: its arena is a tree, its live count is right, its
    /// genome is valid and its pools are within the pool limit.
    pub open spec fn wf(&self) -> bool {
        &&& arena_wf(self.branches@)
        &&& self.live_branches == count_alive(self.branches@)
        &&& self.genome.wf()
        &&& within_pool_limit(self.current_energy as int)
        &&& within_pool_limit(self.current_water as int)
        &&& within_pool_limit(self.current_sunlight as int)
    }

    /// Everything but the arena and its live count is as in `other`.
    pub open spec fn same_but_arena(&self, other: Plant) -> bool {
        &&& self.genome == other.genome
        &&& self.age_ticks == other.age_ticks
        &&& self.root_position == other.root_position
        &&& self.current_energy == other.current_energy
        &&& self.current_water == other.current_water
        &&& self.current_sunlight == other.current_sunlight
    }

    /// Prunes the subtree of the branch at `branch_index`: every branch of the
    /// subtree becomes a tombstone, and the parent loses its connection to it.
    pub fn delete_branch_recursive(&mut self, branch_index: usize)
        requires
            old(self).wf(),
            0 < branch_index < old(self).branches@.len(),
            old(self).branches@[branch_index as int].alive,
        ensures
            final(self).wf(),
            final(self).branches@ == pruned(old(self).branches@, branch_index as int),
            final(self).same_but_arena(*old(self)),
            final(self).live_branches < old(self).live_branches,
    {
        proof {
            reveal(arena_wf);
        }
        let ghost before = self.branches@;
        let ghost target = branch_index as int;
        let count: usize = self.branches.len();
        let parent_index: usize = self.branches[branch_index].parent;
        let mut parent: Branch = self.branches[parent_index];
        if let Some(c) = parent.offshoot_1 {
            if c.branch_index == branch_index {
                parent.offshoot_1 = None;
            }
        }
        if let Some(c) = parent.offshoot_2 {
            if c.branch_index == branch_index {
                parent.offshoot_2 = None;
            }
        }
        assert(parent == detached(before[parent_index as int], target));
        proof {
            lemma_count_alive_update(self.branches@, parent_index as int, parent);
        }
        self.branches[parent_index] = parent;
        let mut top: Branch = self.branches[branch_index];
        top.alive = false;
        proof {
            lemma_count_alive_update(self.branches@, target, top);
        }
        self.branches[branch_index] = top;
        self.live_branches = self.live_branches - 1;
        assert forall|j: int| 0 <= j < branch_index + 1 implies self.branches@[j] == pruned_branch(
            before,
            target,
            j,
        ) by {
            if j < branch_index {
                assert(!in_subtree(before, target, j));
            }
        }
        let mut k: usize = branch_index + 1;
        while k < count
            invariant
                arena_wf(before),
                target == branch_index,
                0 < target < k <= count,
                before[target].alive,
                count == before.len(),
                self.branches@.len() == before.len(),
                forall|j: int|
                    0 <= j < k ==> #[trigger] self.branches@[j] == pruned_branch(before, target, j),
                forall|j: int| k <= j < before.len() ==> #[trigger] self.branches@[j] == before[j],
                self.live_branches == count_alive(self.branches@),
                self.live_branches < old(self).live_branches,
                self.same_but_arena(*old(self)),
            decreases count - k,
        {
            let ghost current = self.branches@;
            proof {
                lemma_sweep_step(before, target, k as int);
            }
            let mut b: Branch = self.branches[k];
            if b.alive {
                let p: usize = b.parent;
                assert(current[p as int] == pruned_branch(before, target, p as int));
                if !self.branches[p].alive {
                    b.alive = false;
                    proof {
                        lemma_count_alive_update(current, k as int, b);
                    }
                    self.branches[k] = b;
                    self.live_branches = self.live_branches - 1;
                }
            }
            assert(self.branches@[k as int] == pruned_branch(before, target, k as int));
            assert forall|j: int| 0 <= j < k + 1 implies #[trigger] self.branches@[j]
                == pruned_branch(before, target, j) by {
                if j < k {
                    assert(self.branches@[j] == current[j]);
                }
            }
            k += 1;
        }
        proof {
            assert(self.branches@ =~= pruned(before, branch_index as int));
            lemma_prune_preserves_wf(before, branch_index as int);
        }
    }

    /// What settling does to the pools: the smaller of water and sunlight turns
    /// into energy and leaves both pools, so that one pool is empty and the other
    /// holds the surplus.
    pub open spec fn settled_from(&self, before: Plant) -> bool {
        let merged = if before.current_water < before.current_sunlight {
            before.current_water
        } else {
            before.current_sunlight
        };
        &&& self.current_energy == pool_add_spec(before.current_energy as int, merged as int)
        &&& self.current_water == pool_add_spec(before.current_water as int, -merged)
        &&& self.current_sunlight == pool_add_spec(before.current_sunlight as int, -merged)
        &&& self.branches == before.branches
        &&& self.live_branches == before.live_branches
        &&& self.genome == before.genome
        &&& self.age_ticks == before.age_ticks
        &&& self.root_position == before.root_position
    }

    /// Settles the resources of a tick: water and sunlight merge into energy, one
    /// for one, as far as the scarcer of the two reaches.
    pub fn settle_resources(&mut self)
        requires
            old(self).wf(),
        ensures
            final(self).wf(),
            final(self).settled_from(*old(self)),
            final(self).current_water >= 0,
            final(self).current_sunlight >= 0,
            final(self).current_water == 0 || final(self).current_sunlight == 0,
    {
        let merged: i64 = if self.current_water < self.current_sunlight {
            self.current_water
        } else {
            self.current_sunlight
        };
        self.current_energy = pool_add(self.current_energy, merged);
        self.current_water = pool_add(self.current_water, -merged);
        self.current_sunlight = pool_add(self.current_sunlight, -merged);
    }

    /// What one tick may do to a plant, whatever is drawn: `self` is the plant
    /// after the tick, `before` the plant as it was, `alive` what the tick
    /// reported. The plant is a tick older. Water and sunlight are settled: neither
    /// is negative and one is zero. A plant reported dead has negative energy; a
    /// plant reported alive has energy that is not negative, or not below its
    /// energy floor. The branch count does not exceed the configured maximum
    /// unless it did before.
    pub open spec fn ticked_from(&self, before: Plant, cfg: SimConfig, alive: bool) -> bool {
        &&& self.genome == before.genome
        &&& self.root_position == before.root_position
        &&& self.age_ticks == if before.age_ticks < u64::MAX {
            (before.age_ticks + 1) as u64
        } else {
            before.age_ticks
        }
        &&& self.current_water >= 0
        &&& self.current_sunlight >= 0
        &&& self.current_water == 0 || self.current_sunlight == 0
        &&& !alive ==> self.current_energy < 0
        &&& alive ==> self.current_energy >= 0 || self.current_energy
            >= self.genome.min_energy_for_growth
        &&& before.live_branches <= cfg.max_branch_count ==> self.live_branches
            <= cfg.max_branch_count
        &&& self.live_branches <= cfg.max_branch_count || self.live_branches
            <= before.live_branches
        &&& self.branches@.len() >= before.branches@.len()
    }

    /// The plant one tick older.
    pub open spec fn aged(self) -> Plant {
        Plant {
            age_ticks: if self.age_ticks < u64::MAX {
                (self.age_ticks + 1) as u64
            } else {
                self.age_ticks
            },
            ..self
        }
    }

    /// The plant after `upkeep` has been taken from its energy.
    pub open spec fn paid(self, upkeep: i64) -> Plant {
        Plant {
            current_energy: pool_add_spec(self.current_energy as int, -upkeep) as i64,
            ..self
        }
    }

    /// What one tick did, given the jitters of the walk and the variations of
    /// the drain: `self` is the plant after the tick, `before` the plant as it
    /// was, `alive` what the tick reported. The plant aged by one tick. Its tree
    /// was walked from the root at depth zero, starting from the plant's own
    /// upkeep and an empty queue. Its resources were settled and the upkeep of the
    /// walk was paid. If that left the energy negative, the plant died and nothing
    /// more happened; else it lives, and the proposals of the walk were admitted.
    pub open spec fn ticked_with(
        &self,
        alive: bool,
        before: Plant,
        cfg: SimConfig,
        jitters: Seq<i64>,
        variations: Seq<OffshootVariation>,
    ) -> bool {
        exists|walk: WalkState, settled: Plant| #[trigger]
            settled.settled_from(walk.plant) && Plant::walked(
                walk,
                (WalkState {
                    plant: before.aged(),
                    upkeep: cfg.tick_upkeep,
                    queue: Seq::<GrowthPriorityItem>::empty(),
                }),
                cfg,
                0,
                0,
                jitters,
            ) && if settled.paid(walk.upkeep).current_energy < 0 {
                !alive && *self == settled.paid(walk.upkeep)
            } else {
                alive && exists|left: Seq<GrowthPriorityItem>| #[trigger]
                    Plant::admitted(
                        *self,
                        left,
                        settled.paid(walk.upkeep),
                        walk.queue,
                        cfg,
                        variations,
                        0,
                    )
            }
    }

    /// What one tick did, for some jitters and variations within the configured
    /// ranges, one jitter for each arena index.
    pub open spec fn ticked(&self, alive: bool, before: Plant, cfg: SimConfig) -> bool {
        exists|jitters: Seq<i64>, variations: Seq<OffshootVariation>|
            jitters.len() == before.branches@.len() && Plant::jitters_in_range(cfg, jitters)
                && Plant::variations_in_range(cfg, variations) && #[trigger] self.ticked_with(
                alive,
                before,
                cfg,
                jitters,
                variations,
            )
    }

    /// Lives through one tick and reports whether the plant is still alive. The
    /// tree is walked from the root, the resources are settled, the upkeep is
    /// paid, and, unless that left the energy negative, the proposals of the walk
    /// are admitted against the energy. The jitters of the walk, one for each
    /// arena index, and the variations of the drain, one for each proposal, are
    /// drawn from `source`. A plant reported dead must not be ticked again.
    pub fn tick(&mut self, cfg: &SimConfig, source: &mut StdRng) -> (alive: bool)
        requires
            old(self).wf(),
            cfg.wf(),
        ensures
            final(self).wf(),
            final(self).ticked_from(*old(self), *cfg, alive),
            final(self).ticked(alive, *old(self), *cfg),
    {
        proof {
            lemma_root_is_live(self.branches@);
        }
        if self.age_ticks < u64::MAX {
            self.age_ticks = self.age_ticks + 1;
        }
        let ghost aged = *self;
        let mut homeostasis: i64 = cfg.tick_upkeep;
        let mut growth_priority_heap: GrowthPriorityQueue = GrowthPriorityQueue::new();
        let jitters: Vec<i64> = Plant::draw_jitters(cfg, self.branches.len(), source);
        self.walk_with(cfg, &mut homeostasis, 0, &mut growth_priority_heap, 0, &jitters);
        let ghost walk = WalkState {
            plant: *self,
            upkeep: homeostasis,
            queue: growth_priority_heap@,
        };
        self.settle_resources();
        let ghost settled = *self;
        self.current_energy = pool_add(self.current_energy, -homeostasis);
        let ghost paid = *self;
        if self.current_energy < 0 {
            proof {
                Self::lemma_tick_assembles(
                    *self,
                    growth_priority_heap@,
                    false,
                    paid,
                    settled,
                    walk,
                    aged,
                    *old(self),
                    *cfg,
                    jitters@,
                    Seq::<OffshootVariation>::empty(),
                );
            }
            return false;
        }
        let variations: Vec<OffshootVariation> = OffshootVariation::draw_many(
            cfg,
            growth_priority_heap.len(),
            source,
        );
        self.admit_proposals_with(cfg, &mut growth_priority_heap, &variations);
        proof {
            Self::lemma_tick_assembles(
                *self,
                growth_priority_heap@,
                true,
                paid,
                settled,
                walk,
                aged,
                *old(self),
                *cfg,
                jitters@,
                variations@,
            );
        }
        true
    }

    /// Ageing, a walk from the root, settlement, payment and, for a plant that
    /// lives, a drain make a tick, and have the effects that every tick has.
    pub proof fn lemma_tick_assembles(
        last: Plant,
        left: Seq<GrowthPriorityItem>,
        alive: bool,
        paid: Plant,
        settled: Plant,
        walk: WalkState,
        aged: Plant,
        before: Plant,
        cfg: SimConfig,
        jitters: Seq<i64>,
        variations: Seq<OffshootVariation>,
    )
        requires
            aged == before.aged(),
            Plant::walked(
                walk,
                (WalkState {
                    plant: aged,
                    upkeep: cfg.tick_upkeep,
                    queue: Seq::<GrowthPriorityItem>::empty(),
                }),
                cfg,
                0,
                0,
                jitters,
            ),
            walk.plant.walked_from(aged, 0),
            settled.settled_from(walk.plant),
            settled.current_water >= 0,
            settled.current_sunlight >= 0,
            settled.current_water == 0 || settled.current_sunlight == 0,
            paid == settled.paid(walk.upkeep),
            alive == (paid.current_energy >= 0),
            !alive ==> last == paid,
            alive ==> Plant::admitted(last, left, paid, walk.queue, cfg, variations, 0)
                && last.drained_from(paid, cfg),
        ensures
            last.ticked_with(alive, before, cfg, jitters, variations),
            last.ticked_from(before, cfg, alive),
    {
        assert(settled.settled_from(walk.plant));
    }

    /// A plant without rules whose root has no offshoots only ages and burns
    /// energy: a tick leaves its tree as it was, adds what the root collects to
    /// the pools, settles them, and takes the plant's upkeep and the root's from
    /// the energy; the plant lives exactly if that leaves the energy at zero or
    /// above. So a sapling that collects nothing loses the same upkeep each tick
    /// until its energy turns negative.
    pub proof fn lemma_tick_without_rules(
        after: Plant,
        alive: bool,
        before: Plant,
        cfg: SimConfig,
        jitters: Seq<i64>,
        variations: Seq<OffshootVariation>,
    )
        requires
            before.wf(),
            before.genome.rules@.len() == 0,
            before.branches@[0].offshoot_1.is_none(),
            before.branches@[0].offshoot_2.is_none(),
            after.ticked_with(alive, before, cfg, jitters, variations),
        ensures
            after.branches@ == before.branches@,
            after.live_branches == before.live_branches,
            after.genome == before.genome,
            after.root_position == before.root_position,
            after.current_energy == Self::bare_tick_energy(before, cfg),
            after.current_water == pool_add_spec(
                Self::bare_tick_water(before, cfg),
                -Self::bare_tick_merged(before, cfg),
            ),
            after.current_sunlight == pool_add_spec(
                Self::bare_tick_sunlight(before, cfg),
                -Self::bare_tick_merged(before, cfg),
            ),
            alive == (after.current_energy >= 0),
    {
        let (walk, settled) = choose|walk: WalkState, settled: Plant| #[trigger]
            settled.settled_from(walk.plant) && Plant::walked(
                walk,
                (WalkState {
                    plant: before.aged(),
                    upkeep: cfg.tick_upkeep,
                    queue: Seq::<GrowthPriorityItem>::empty(),
                }),
                cfg,
                0,
                0,
                jitters,
            ) && if settled.paid(walk.upkeep).current_energy < 0 {
                !alive && after == settled.paid(walk.upkeep)
            } else {
                alive && exists|left: Seq<GrowthPriorityItem>| #[trigger]
                    Plant::admitted(
                        after,
                        left,
                        settled.paid(walk.upkeep),
                        walk.queue,
                        cfg,
                        variations,
                        0,
                    )
            };
        let start = WalkState {
            plant: before.aged(),
            upkeep: cfg.tick_upkeep,
            queue: Seq::<GrowthPriorityItem>::empty(),
        };
        let scanned = choose|scanned: WalkState| #[trigger]
            Plant::visited(scanned, start, cfg, 0, 0, jitters[0] as int) && exists|
                first: WalkState,
            | #[trigger]
                Plant::stepped_down(
                    first,
                    scanned,
                    0,
                    scanned.plant.branches@[0].offshoot_1,
                ) && Plant::descended(
                    first,
                    scanned,
                    cfg,
                    0,
                    scanned.plant.branches@[0].offshoot_1,
                    0,
                    jitters,
                ) && Plant::descended(
                    walk,
                    first,
                    cfg,
                    0,
                    first.plant.branches@[0].offshoot_2,
                    0,
                    jitters,
                );
        let accounted = choose|accounted: Plant| #[trigger]
            accounted.metabolized_from(scanned.upkeep, start.plant, start.upkeep, cfg, 0, 0)
                && scanned.plant.scanned_with(
                scanned.queue,
                accounted,
                start.queue,
                cfg,
                0,
                0,
                jitters[0] as int,
            );
        assert(accounted.no_rule_decides(cfg, 0, 0));
        assert(scanned.plant == accounted);
        assert(walk == scanned);
        let paid = settled.paid(walk.upkeep);
        if paid.current_energy >= 0 {
            assert(paid.admission_stops(cfg, walk.queue));
        }
    }

    /// The water pool of a plant without rules or offshoots after the walk of
    /// one tick.
    pub open spec fn bare_tick_water(before: Plant, cfg: SimConfig) -> int {
        let root = before.branches@[0];
        pool_add_spec(
            before.current_water as int,
            collect_water_spec(cfg, root.length as int, root.water_intake as int, 0),
        )
    }

    /// The sunlight pool of a plant without rules or offshoots after the walk of
    /// one tick.
    pub open spec fn bare_tick_sunlight(before: Plant, cfg: SimConfig) -> int {
        let root = before.branches@[0];
        pool_add_spec(
            before.current_sunlight as int,
            collect_sunlight_spec(cfg, root.length as int, root.photoreceptiveness as int, 0),
        )
    }

    /// What a plant without rules or offshoots turns into energy in one tick.
    pub open spec fn bare_tick_merged(before: Plant, cfg: SimConfig) -> int {
        if Self::bare_tick_water(before, cfg) < Self::bare_tick_sunlight(before, cfg) {
            Self::bare_tick_water(before, cfg)
        } else {
            Self::bare_tick_sunlight(before, cfg)
        }
    }

    /// The upkeep that a plant without offshoots pays in one tick: the plant's
    /// own and its root's.
    pub open spec fn bare_tick_upkeep(before: Plant, cfg: SimConfig) -> int {
        let root = before.branches@[0];
        pool_add_spec(
            cfg.tick_upkeep as int,
            homeostasis_spec(
                cfg,
                root.strength as int,
                root.photoreceptiveness as int,
                root.water_intake as int,
                root.length as int,
            ),
        )
    }

    /// The energy of a plant without rules or offshoots after one tick.
    pub open spec fn bare_tick_energy(before: Plant, cfg: SimConfig) -> int {
        pool_add_spec(
            pool_add_spec(before.current_energy as int, Self::bare_tick_merged(before, cfg)),
            -Self::bare_tick_upkeep(before, cfg),
        )
    }

    /// The plant is a sapling that can only starve: it has no rules and no
    /// offshoots, its root collects neither water nor sunlight, its water and
    /// sunlight pools are empty, and its upkeep is positive.
    pub open spec fn starves(self, cfg: SimConfig) -> bool {
        let root = self.branches@[0];
        &&& self.genome.rules@.len() == 0
        &&& root.offshoot_1.is_none()
        &&& root.offshoot_2.is_none()
        &&& collect_water_spec(cfg, root.length as int, root.water_intake as int, 0) == 0
        &&& collect_sunlight_spec(cfg, root.length as int, root.photoreceptiveness as int, 0)
            == 0
        &&& self.current_water == 0
        &&& self.current_sunlight == 0
        &&& Self::bare_tick_upkeep(self, cfg) > 0
    }

    /// A sapling that can only starve loses its upkeep with every tick that it
    /// survives: after `k` ticks survived it still can only starve, and `k`
    /// upkeeps are gone from the energy it started with.
    pub proof fn lemma_starving_sapling_burns_down(history: Seq<Plant>, cfg: SimConfig, k: int)
        requires
            cfg.wf(),
            0 <= k < history.len(),
            forall|i: int| 0 <= i < history.len() ==> (#[trigger] history[i]).wf(),
            history[0].starves(cfg),
            history[0].current_energy >= 0,
            forall|i: int|
                0 <= i < history.len() - 1 ==> (#[trigger] history[i + 1]).ticked(
                    true,
                    history[i],
                    cfg,
                ),
        ensures
            history[k].starves(cfg),
            history[k].branches@ == history[0].branches@,
            history[k].current_energy == history[0].current_energy - k * Self::bare_tick_upkeep(
                history[0],
                cfg,
            ),
            history[k].current_energy >= 0,
        decreases k,
    {
        if k > 0 {
            Self::lemma_starving_sapling_burns_down(history, cfg, k - 1);
            let before = history[k - 1];
            let after = history[k - 1 + 1];
            assert(after.ticked(true, before, cfg));
            let (jitters, variations) = choose|
                jitters: Seq<i64>,
                variations: Seq<OffshootVariation>,
            |
                jitters.len() == before.branches@.len() && Plant::jitters_in_range(cfg, jitters)
                    && Plant::variations_in_range(cfg, variations) && #[trigger] after.ticked_with(
                    true,
                    before,
                    cfg,
                    jitters,
                    variations,
                );
            Self::lemma_tick_without_rules(after, true, before, cfg, jitters, variations);
            let upkeep = Self::bare_tick_upkeep(history[0], cfg);
            assert(Self::bare_tick_upkeep(before, cfg) == upkeep);
            assert(k * upkeep == (k - 1) * upkeep + upkeep) by (nonlinear_arith);
        }
    }

    /// A sapling with no rules that collects nothing and has a positive upkeep
    /// dies of starvation: the number of ticks that it survives, times its upkeep,
    /// does not exceed the energy it started with. So it is dead after at most
    /// one tick more than its energy holds upkeeps.
    pub proof fn lemma_starving_sapling_dies(history: Seq<Plant>, cfg: SimConfig)
        requires
            cfg.wf(),
            history.len() >= 1,
            forall|i: int| 0 <= i < history.len() ==> (#[trigger] history[i]).wf(),
            history[0].starves(cfg),
            history[0].current_energy >= 0,
            forall|i: int|
                0 <= i < history.len() - 1 ==> (#[trigger] history[i + 1]).ticked(
                    true,
                    history[i],
                    cfg,
                ),
        ensures
            (history.len() - 1) * Self::bare_tick_upkeep(history[0], cfg)
                <= history[0].current_energy,
    {
        Self::lemma_starving_sapling_burns_down(history, cfg, history.len() - 1);
    }

    /// Builds a sapling at a position of the terrain: a single root branch near
    /// the genome's sapling defaults, the given energy, limited to what a pool
    /// holds, and empty water and sunlight pools. The root's height is sampled
    /// from the terrain once and kept.
    pub fn new(
        genome: PlantGenome,
        x: i64,
        z: i64,
        starting_energy: i64,
        terrain: &Terrain,
        cfg: &SimConfig,
        source: &mut StdRng,
    ) -> (plant: Plant)
        requires
            genome.wf(),
            terrain.wf(),
            cfg.wf(),
        ensures
            plant.wf(),
            plant.genome == genome,
            plant.age_ticks == 0,
            plant.root_position == (x, terrain.get_height_spec(x as int, z as int) as i64, z),
            plant.current_energy == clamp_spec(starting_energy as int, POOL_LIMIT as int),
            plant.current_water == 0,
            plant.current_sunlight == 0,
            plant.live_branches == 1,
            plant.branches@.len() == 1,
            plant.branches@[0].varied_from(
                *cfg,
                genome.sapling_strength as int,
                genome.sapling_photoreceptiveness as int,
                genome.sapling_water_intake as int,
                genome.sapling_length as int,
            ),
    {
        let root: Branch = Branch::new(
            cfg,
            genome.sapling_strength,
            genome.sapling_photoreceptiveness,
            genome.sapling_water_intake,
            genome.sapling_length,
            source,
        );
        let mut branches: Vec<Branch> = Vec::new();
        branches.push(root);
        proof {
            reveal(arena_wf);
            assert(branches@.drop_last() =~= Seq::<Branch>::empty());
            assert(count_alive(branches@.drop_last()) == 0);
        }
        Plant {
            genome,
            age_ticks: 0,
            root_position: (x, terrain.get_height(x, z), z),
            branches,
            live_branches: 1,
            current_energy: clamp(starting_energy as i128, POOL_LIMIT),
            current_water: 0,
            current_sunlight: 0,
        }
    }
}

} // verus!
