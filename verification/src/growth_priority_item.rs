//! Growth proposals and the queue that orders them by priority.

use crate::fixed::{
    div_toward_zero, squash, squash_spec, trunc_div, within_trait_limit, SCALE, TRAIT_LIMIT,
};
use vstd::prelude::*;

verus! {

/// A trait after a change by `change_factor`: the trait, shifted by the squashed
/// tenth of the factor, squashed again. The result lies within one unit of zero,
/// and repeated positive changes pull it toward one unit.
pub open spec fn modified_trait_spec(original_val: int, change_factor: int) -> int {
    squash_spec(original_val + squash_spec(trunc_div(change_factor, 10)))
}

/// A length after a change by `change_factor`: the trait change applied to six
/// tenths of the length, and the result divided by six tenths.
pub open spec fn modified_length_spec(original_len: int, change_factor: int) -> int {
    trunc_div(modified_trait_spec(trunc_div(original_len * 6, 10), change_factor) * 10, 6)
}

/// Changes a trait by a factor: positive factors raise it, negative ones lower it.
pub fn modify_self_property_helper(original_val: i64, change_factor: i64) -> (r: i64)
    ensures
        r == modified_trait_spec(original_val as int, change_factor as int),
        -SCALE <= r <= SCALE,
{
    let tenth: i128 = div_toward_zero(change_factor as i128, 10);
    let shift: i64 = squash(tenth);
    squash(original_val as i128 + shift as i128)
}

/// Changes a length by a factor.
pub fn modify_self_length_property_helper(original_len: i64, change_factor: i64) -> (r: i64)
    ensures
        r == modified_length_spec(original_len as int, change_factor as int),
        within_trait_limit(r as int),
{
    let scaled: i128 = div_toward_zero((original_len as i128) * 6, 10);
    let tenth: i128 = div_toward_zero(change_factor as i128, 10);
    let shift: i64 = squash(tenth);
    let changed: i64 = squash(scaled + shift as i128);
    let r: i128 = div_toward_zero((changed as i128) * 10, 6);
    r as i64
}

/// A request for a new offshoot.
#[derive(Clone, Copy, Debug, PartialEq, Eq, Structural)]
pub struct NewOffshootPriorityItem {
    pub placement_straightness: i64,
    pub strength: i64,
    pub photoreceptiveness: i64,
    pub water_intake: i64,
    pub length: i64,
}

impl NewOffshootPriorityItem {
    /// Every quantity of the request is within the trait limit.
    pub open spec fn wf(&self) -> bool {
        &&& within_trait_limit(self.placement_straightness as int)
        &&& within_trait_limit(self.strength as int)
        &&& within_trait_limit(self.photoreceptiveness as int)
        &&& within_trait_limit(self.water_intake as int)
        &&& within_trait_limit(self.length as int)
    }

    /// Tests whether every quantity of the request is within the trait limit.
    pub fn is_valid(&self) -> (ok: bool)
        ensures
            ok == self.wf(),
    {
        -TRAIT_LIMIT <= self.placement_straightness && self.placement_straightness <= TRAIT_LIMIT
            && -TRAIT_LIMIT <= self.strength && self.strength <= TRAIT_LIMIT && -TRAIT_LIMIT
            <= self.photoreceptiveness && self.photoreceptiveness <= TRAIT_LIMIT && -TRAIT_LIMIT
            <= self.water_intake && self.water_intake <= TRAIT_LIMIT && -TRAIT_LIMIT
            <= self.length && self.length <= TRAIT_LIMIT
    }
}

/// A request to change a branch's traits and length.
#[derive(Clone, Copy, Debug, PartialEq, Eq, Structural)]
pub struct ModifyBranchPriorityItem {
    pub strength_factor: i64,
    pub photoreceptiveness_factor: i64,
    pub water_intake_factor: i64,
    pub length_factor: i64,
}

/// The two kinds of growth proposal.
#[derive(Clone, Copy, Debug, PartialEq, Eq, Structural)]
pub enum PriorityItemType {
    NewOffshoot(NewOffshootPriorityItem),
    ModifyBranch(ModifyBranchPriorityItem),
}

/// A growth proposal: what is asked, of which branch, and how urgently.
#[derive(Clone, Copy, Debug, PartialEq, Eq, Structural)]
pub struct GrowthPriorityItem {
    pub priority: i64,
    pub branch_index: usize,
    pub item: PriorityItemType,
}

impl GrowthPriorityItem {
    /// Builds a request for a new offshoot of the branch at `branch_index`.
    pub fn new_offshoot_request(
        branch_index: usize,
        placement_straightness: i64,
        strength: i64,
        photoreceptiveness: i64,
        water_intake: i64,
        length: i64,
        priority: i64,
    ) -> (request: GrowthPriorityItem)
        ensures
            request == (GrowthPriorityItem {
                priority,
                branch_index,
                item: PriorityItemType::NewOffshoot(
                    NewOffshootPriorityItem {
                        placement_straightness,
                        strength,
                        photoreceptiveness,
                        water_intake,
                        length,
                    },
                ),
            }),
    {
        GrowthPriorityItem {
            priority,
            branch_index,
            item: PriorityItemType::NewOffshoot(
                NewOffshootPriorityItem {
                    placement_straightness,
                    strength,
                    photoreceptiveness,
                    water_intake,
                    length,
                },
            ),
        }
    }

    /// Builds a request to change the branch at `branch_index`.
    pub fn new_modify_branch_request(
        branch_index: usize,
        strength_factor: i64,
        photoreceptiveness_factor: i64,
        water_intake_factor: i64,
        length_factor: i64,
        priority: i64,
    ) -> (request: GrowthPriorityItem)
        ensures
            request == (GrowthPriorityItem {
                priority,
                branch_index,
                item: PriorityItemType::ModifyBranch(
                    ModifyBranchPriorityItem {
                        strength_factor,
                        photoreceptiveness_factor,
                        water_intake_factor,
                        length_factor,
                    },
                ),
            }),
    {
        GrowthPriorityItem {
            priority,
            branch_index,
            item: PriorityItemType::ModifyBranch(
                ModifyBranchPriorityItem {
                    strength_factor,
                    photoreceptiveness_factor,
                    water_intake_factor,
                    length_factor,
                },
            ),
        }
    }
}

/// Position `i` holds the proposal that leaves the queue next: none has a higher
/// priority, and every earlier one has a lower priority.
pub open spec fn is_highest(items: Seq<GrowthPriorityItem>, i: int) -> bool {
    &&& 0 <= i < items.len()
    &&& forall|j: int| 0 <= j < items.len() ==> (#[trigger] items[j]).priority <= items[i].priority
    &&& forall|j: int| 0 <= j < i ==> (#[trigger] items[j]).priority < items[i].priority
}

/// The position of the proposal that leaves the queue next.
pub open spec fn highest_index(items: Seq<GrowthPriorityItem>) -> int {
    choose|i: int| is_highest(items, i)
}

/// At most one position holds the next proposal.
pub proof fn lemma_highest_unique(items: Seq<GrowthPriorityItem>, a: int, b: int)
    requires
        is_highest(items, a),
        is_highest(items, b),
    ensures
        a == b,
        highest_index(items) == a,
{
    if a < b {
        assert(items[a].priority < items[b].priority);
    }
    if b < a {
        assert(items[b].priority < items[a].priority);
    }
    let c = highest_index(items);
    if a < c {
        assert(items[a].priority < items[c].priority);
    }
    if c < a {
        assert(items[c].priority < items[a].priority);
    }
}

/// A queue that is not empty has a next proposal.
pub proof fn lemma_highest_exists(items: Seq<GrowthPriorityItem>)
    requires
        items.len() > 0,
    ensures
        is_highest(items, highest_index(items)),
    decreases items.len(),
{
    if items.len() == 1 {
        assert(is_highest(items, 0));
    } else {
        let front = items.drop_last();
        lemma_highest_exists(front);
        let best = highest_index(front);
        let last = items.len() - 1;
        if items[last].priority > front[best].priority {
            assert forall|j: int| 0 <= j < items.len() implies (#[trigger] items[j]).priority
                <= items[last].priority by {
                if j < last {
                    assert(front[j] == items[j]);
                }
            }
            assert forall|j: int| 0 <= j < last implies (#[trigger] items[j]).priority
                < items[last].priority by {
                assert(front[j] == items[j]);
            }
            assert(is_highest(items, last));
        } else {
            assert forall|j: int| 0 <= j < items.len() implies (#[trigger] items[j]).priority
                <= items[best].priority by {
                if j < last {
                    assert(front[j] == items[j]);
                }
            }
            assert forall|j: int| 0 <= j < best implies (#[trigger] items[j]).priority
                < items[best].priority by {
                assert(front[j] == items[j]);
            }
            assert(is_highest(items, best));
        }
    }
}

/// The pending proposals of one tick. The proposal of highest priority leaves
/// first; among equal priorities, the one that was queued first.
#[derive(Debug)]
pub struct GrowthPriorityQueue {
    pub items: Vec<GrowthPriorityItem>,
}

impl View for GrowthPriorityQueue {
    type V = Seq<GrowthPriorityItem>;

    open spec fn view(&self) -> Seq<GrowthPriorityItem> {
        self.items@
    }
}

impl GrowthPriorityQueue {
    /// Builds an empty queue.
    pub fn new() -> (queue: GrowthPriorityQueue)
        ensures
            queue@ == Seq::<GrowthPriorityItem>::empty(),
    {
        GrowthPriorityQueue { items: Vec::new() }
    }

    /// Number of pending proposals.
    pub fn len(&self) -> (n: usize)
        ensures
            n == self@.len(),
    {
        self.items.len()
    }

    /// Tests whether no proposal is pending.
    pub fn is_empty(&self) -> (empty: bool)
        ensures
            empty == (self@.len() == 0),
    {
        self.items.len() == 0
    }

    /// Adds a proposal.
    pub fn push(&mut self, item: GrowthPriorityItem)
        ensures
            final(self)@ == old(self)@.push(item),
    {
        self.items.push(item);
    }

    /// Finds the position of the proposal that leaves next.
    pub fn highest_position(&self) -> (position: usize)
        requires
            self@.len() > 0,
        ensures
            is_highest(self@, position as int),
            position == highest_index(self@),
    {
        let mut best: usize = 0;
        let mut i: usize = 1;
        while i < self.items.len()
            invariant
                1 <= i <= self.items.len(),
                is_highest(self@.take(i as int), best as int),
            decreases self.items.len() - i,
        {
            if self.items[i].priority > self.items[best].priority {
                best = i;
            }
            i += 1;
            assert forall|j: int| 0 <= j < i implies (#[trigger] self@.take(i as int)[j]).priority
                <= self@.take(i as int)[best as int].priority by {
                if j < i - 1 {
                    assert(self@.take(i - 1)[j] == self@[j]);
                }
            }
            assert forall|j: int| 0 <= j < best implies (#[trigger] self@.take(
                i as int,
            )[j]).priority < self@.take(i as int)[best as int].priority by {
                assert(self@.take(i - 1)[j] == self@[j]);
            }
        }
        proof {
            assert(self@.take(i as int) =~= self@);
            lemma_highest_unique(self@, best as int, best as int);
        }
        best
    }

    /// Returns the proposal that leaves next, leaving it in the queue.
    pub fn peek(&self) -> (next: Option<GrowthPriorityItem>)
        ensures
            self@.len() == 0 ==> next.is_none(),
            self@.len() > 0 ==> next == Some(self@[highest_index(self@)]) && is_highest(
                self@,
                highest_index(self@),
            ),
    {
        if self.items.len() == 0 {
            None
        } else {
            let position: usize = self.highest_position();
            Some(self.items[position])
        }
    }

    /// Removes and returns the proposal that leaves next.
    pub fn pop(&mut self) -> (next: Option<GrowthPriorityItem>)
        ensures
            old(self)@.len() == 0 ==> next.is_none() && final(self)@ == old(self)@,
            old(self)@.len() > 0 ==> next == Some(old(self)@[highest_index(old(self)@)])
                && final(self)@ == old(self)@.remove(highest_index(old(self)@)) && is_highest(
                old(self)@,
                highest_index(old(self)@),
            ),
    {
        if self.items.len() == 0 {
            None
        } else {
            let position: usize = self.highest_position();
            Some(self.items.remove(position))
        }
    }
}

} // verus!
