//! The population: a sparse collection of plants that reuses freed slots and
//! spreads the cost of ticking over several world ticks.

use crate::config::SimConfig;
use crate::plant::Plant;
use rand::rngs::StdRng;
use vstd::prelude::*;

verus! {

/// How much detail the model of a plant gets when it is rebuilt.
#[derive(Clone, Copy, Debug, PartialEq, Eq, Structural)]
pub enum PlantModelMode {
    /// The model is left as it is.
    NoModelUpdate,
    /// Full detail.
    Normal,
    /// Low detail.
    Ldm,
    /// Lines only.
    SuperLdm,
}

/// Distance from the viewer, in thousandths of a cell, beyond which a plant is
/// drawn in lines, and only every other time.
pub const FAR_DISTANCE: i64 = 35_000;

/// Distance from the viewer, in thousandths of a cell, beyond which a plant is
/// drawn in low detail.
pub const NEAR_DISTANCE: i64 = 15_000;

/// The detail for the plant in slot `index`, whose root stands at `root`, seen
/// from the point `(eye_x, eye_z)` on tick `total_ticks`: full detail up to the
/// near distance, low detail up to the far distance, and lines beyond it. A far
/// plant is rebuilt only while bit 2 of its slot index agrees with bit 2 of the
/// number of whole periods of `stride + 1` ticks that have passed.
pub open spec fn model_mode_spec(
    stride: u64,
    root: (i64, i64, i64),
    eye_x: i64,
    eye_z: i64,
    total_ticks: u64,
    index: usize,
) -> PlantModelMode {
    let dx = root.0 - eye_x;
    let dz = root.2 - eye_z;
    let squared = dx * dx + dz * dz;
    if squared > FAR_DISTANCE * FAR_DISTANCE {
        if ((total_ticks as int) / (stride + 1) / 4) % 2 == ((index as int) / 4) % 2 {
            PlantModelMode::SuperLdm
        } else {
            PlantModelMode::NoModelUpdate
        }
    } else if squared > NEAR_DISTANCE * NEAR_DISTANCE {
        PlantModelMode::Ldm
    } else {
        PlantModelMode::Normal
    }
}

/// Picks the detail for the model of a plant.
pub fn model_mode(
    stride: u64,
    root: (i64, i64, i64),
    eye_x: i64,
    eye_z: i64,
    total_ticks: u64,
    index: usize,
) -> (mode: PlantModelMode)
    ensures
        mode == model_mode_spec(stride, root, eye_x, eye_z, total_ticks, index),
{
    let dx: i128 = root.0 as i128 - eye_x as i128;
    let dz: i128 = root.2 as i128 - eye_z as i128;
    let far: i128 = FAR_DISTANCE as i128;
    let beyond: bool = dx > far || dx < -far || dz > far || dz < -far;
    let ghost squared = dx * dx + dz * dz;
    proof {
        assert(dx * dx >= 0 && dz * dz >= 0) by (nonlinear_arith);
        if dx > far || dx < -far {
            assert(dx * dx > 35_000 * 35_000) by (nonlinear_arith)
                requires
                    dx > 35_000 || dx < -35_000,
            ;
        }
        if dz > far || dz < -far {
            assert(dz * dz > 35_000 * 35_000) by (nonlinear_arith)
                requires
                    dz > 35_000 || dz < -35_000,
            ;
        }
        if !beyond {
            assert(dx * dx <= 35_000 * 35_000 && dz * dz <= 35_000 * 35_000) by (nonlinear_arith)
                requires
                    -35_000 <= dx <= 35_000,
                    -35_000 <= dz <= 35_000,
            ;
        }
    }
    let is_far: bool = beyond || dx * dx + dz * dz > far * far;
    if is_far {
        let periods: u128 = (total_ticks as u128) / (stride as u128 + 1);
        if (periods / 4) % 2 == ((index as u128) / 4) % 2 {
            PlantModelMode::SuperLdm
        } else {
            PlantModelMode::NoModelUpdate
        }
    } else if dx * dx + dz * dz > (NEAR_DISTANCE as i128) * (NEAR_DISTANCE as i128) {
        PlantModelMode::Ldm
    } else {
        PlantModelMode::Normal
    }
}

/// A collection of plant slots. A slot is free once its plant has died, and the
/// next plant added takes the lowest free slot.
#[derive(Debug)]
pub struct PlantOptionVec {
    /// The slots.
    pub internal_vec: Vec<Option<Box<Plant>>>,
    /// The lowest free slot, if there is one.
    pub first_none: Option<usize>,
}

/// Slot `i` is the lowest free slot.
pub open spec fn is_lowest_free(slots: Seq<Option<Box<Plant>>>, i: int) -> bool {
    &&& 0 <= i < slots.len()
    &&& slots[i].is_none()
    &&& forall|j: int| 0 <= j < i ==> (#[trigger] slots[j]).is_some()
}

/// No slot is free.
pub open spec fn all_taken(slots: Seq<Option<Box<Plant>>>) -> bool {
    forall|j: int| 0 <= j < slots.len() ==> (#[trigger] slots[j]).is_some()
}

/// Slot `i` is ticked on world tick `total_ticks`.
pub open spec fn is_selected(cfg: SimConfig, total_ticks: u64, i: int) -> bool {
    i % (cfg.stride as int) == (total_ticks as int) % (cfg.stride as int)
}

/// Between one selected slot and the next lie `stride - 1` slots that are not
/// selected.
pub proof fn lemma_next_selected(i: int, k: int, stride: int)
    requires
        stride >= 1,
        0 <= i < k < i + stride,
    ensures
        k % stride != i % stride,
{
    vstd::arithmetic::div_mod::lemma_fundamental_div_mod(i, stride);
    vstd::arithmetic::div_mod::lemma_fundamental_div_mod(k, stride);
    let qi = i / stride;
    let qk = k / stride;
    if k % stride == i % stride {
        assert(k - i == stride * (qk - qi)) by (nonlinear_arith)
            requires
                i == stride * qi + i % stride,
                k == stride * qk + k % stride,
                k % stride == i % stride,
        ;
        assert(false) by (nonlinear_arith)
            requires
                k - i == stride * (qk - qi),
                0 < k - i < stride,
        ;
    }
}

impl PlantOptionVec {
    /// Every plant is valid, and `first_none` names the lowest free slot, or
    /// nothing if no slot is free.
    pub open spec fn wf(&self) -> bool {
        &&& forall|i: int|
            0 <= i < self.internal_vec@.len() && (#[trigger] self.internal_vec@[i]).is_some()
                ==> self.internal_vec@[i].unwrap().wf()
        &&& match self.first_none {
            Some(index) => is_lowest_free(self.internal_vec@, index as int),
            None => all_taken(self.internal_vec@),
        }
    }

    /// Builds an empty population.
    pub fn new() -> (population: PlantOptionVec)
        ensures
            population.wf(),
            population.internal_vec@.len() == 0,
            population.first_none.is_none(),
    {
        PlantOptionVec { internal_vec: Vec::new(), first_none: None }
    }

    /// Tests whether the population is valid.
    pub fn is_valid(&self) -> (ok: bool)
        ensures
            ok == self.wf(),
    {
        let mut i: usize = 0;
        while i < self.internal_vec.len()
            invariant
                i <= self.internal_vec@.len(),
                forall|k: int|
                    0 <= k < i && (#[trigger] self.internal_vec@[k]).is_some()
                        ==> self.internal_vec@[k].unwrap().wf(),
            decreases self.internal_vec@.len() - i,
        {
            match &self.internal_vec[i] {
                Some(plant) => {
                    if !plant.is_valid() {
                        return false;
                    }
                },
                None => {},
            }
            i += 1;
        }
        let lowest: Option<usize> = self.lowest_free_from(0);
        match lowest {
            Some(found) => match self.first_none {
                Some(index) => {
                    proof {
                        if is_lowest_free(self.internal_vec@, index as int) && index != found {
                            if index < found {
                                assert(self.internal_vec@[index as int].is_some());
                            } else {
                                assert(self.internal_vec@[found as int].is_some());
                            }
                        }
                    }
                    index == found
                },
                None => {
                    assert(self.internal_vec@[found as int].is_none());
                    false
                },
            },
            None => match self.first_none {
                Some(index) => {
                    proof {
                        if is_lowest_free(self.internal_vec@, index as int) {
                            assert(self.internal_vec@[index as int].is_some());
                        }
                    }
                    false
                },
                None => true,
            },
        }
    }

    /// Finds the lowest free slot at or after `start`.
    fn lowest_free_from(&self, start: usize) -> (found: Option<usize>)
        requires
            start <= self.internal_vec@.len(),
            forall|j: int| 0 <= j < start ==> (#[trigger] self.internal_vec@[j]).is_some(),
        ensures
            match found {
                Some(index) => is_lowest_free(self.internal_vec@, index as int),
                None => all_taken(self.internal_vec@),
            },
    {
        let mut index: usize = start;
        while index < self.internal_vec.len()
            invariant
                index <= self.internal_vec@.len(),
                forall|j: int| 0 <= j < index ==> (#[trigger] self.internal_vec@[j]).is_some(),
            decreases self.internal_vec@.len() - index,
        {
            if self.internal_vec[index].is_none() {
                return Some(index);
            }
            index += 1;
        }
        None
    }

    /// Adds a plant: it takes the lowest free slot, or a new slot at the end if
    /// none is free.
    pub fn add_plant(&mut self, plant: Plant)
        requires
            old(self).wf(),
            plant.wf(),
        ensures
            final(self).wf(),
            match old(self).first_none {
                Some(index) => final(self).internal_vec@ =~= old(self).internal_vec@.update(
                    index as int,
                    Some(Box::new(plant)),
                ),
                None => final(self).internal_vec@ =~= old(self).internal_vec@.push(
                    Some(Box::new(plant)),
                ),
            },
    {
        match self.first_none {
            Some(index) => {
                let count: usize = self.internal_vec.len();
                self.internal_vec[index] = Some(Box::new(plant));
                self.first_none = self.lowest_free_from(index + 1);
            },
            None => {
                self.internal_vec.push(Some(Box::new(plant)));
            },
        }
    }

    /// What a population tick did to one slot: a slot that is not selected, or
    /// holds no plant, is as it was; a selected plant has lived through one tick,
    /// and its slot is free exactly if that tick reported it dead.
    pub open spec fn slot_ticked_from(
        after: Option<Box<Plant>>,
        before: Option<Box<Plant>>,
        cfg: SimConfig,
        selected: bool,
    ) -> bool {
        if !selected || before.is_none() {
            after == before
        } else {
            match after {
                Some(plant) => plant.wf() && plant.ticked_from(*before.unwrap(), cfg, true)
                    && plant.ticked(true, *before.unwrap(), cfg),
                None => exists|dead: Plant| #[trigger] dead.ticked(false, *before.unwrap(), cfg),
            }
        }
    }

    /// Ticks every plant whose slot index is congruent to `total_ticks` modulo
    /// the stride, and frees the slots of the plants that died.
    pub fn tick(&mut self, cfg: &SimConfig, total_ticks: u64, source: &mut StdRng)
        requires
            old(self).wf(),
            cfg.wf(),
        ensures
            final(self).wf(),
            final(self).internal_vec@.len() == old(self).internal_vec@.len(),
            forall|i: int|
                0 <= i < final(self).internal_vec@.len() ==> Self::slot_ticked_from(
                    #[trigger] final(self).internal_vec@[i],
                    old(self).internal_vec@[i],
                    *cfg,
                    is_selected(*cfg, total_ticks, i),
                ),
    {
        let count: usize = self.internal_vec.len();
        let phase: u64 = total_ticks % cfg.stride;
        proof {
            assert forall|k: int| 0 <= k < count && k < phase implies !is_selected(
                *cfg,
                total_ticks,
                k,
            ) by {
                vstd::arithmetic::div_mod::lemma_small_mod(k as nat, cfg.stride as nat);
            }
        }
        if phase >= count as u64 {
            return ;
        }
        let mut i: usize = phase as usize;
        proof {
            vstd::arithmetic::div_mod::lemma_small_mod(phase as nat, cfg.stride as nat);
        }
        loop
            invariant_except_break
                i < count,
                (i as int) % (cfg.stride as int) == phase,
                forall|k: int|
                    0 <= k < i ==> Self::slot_ticked_from(
                        #[trigger] self.internal_vec@[k],
                        old(self).internal_vec@[k],
                        *cfg,
                        is_selected(*cfg, total_ticks, k),
                    ),
                forall|k: int|
                    i <= k < count ==> #[trigger] self.internal_vec@[k] == old(self).internal_vec@[k],
            invariant
                self.wf(),
                cfg.wf(),
                count == self.internal_vec@.len(),
                count == old(self).internal_vec@.len(),
                phase == (total_ticks as int) % (cfg.stride as int),
            ensures
                self.wf(),
                count == self.internal_vec@.len(),
                forall|k: int|
                    0 <= k < count ==> Self::slot_ticked_from(
                        #[trigger] self.internal_vec@[k],
                        old(self).internal_vec@[k],
                        *cfg,
                        is_selected(*cfg, total_ticks, k),
                    ),
            decreases count - i,
        {
            let ghost slots = self.internal_vec@;
            let mut slot: Option<Box<Plant>> = None;
            core::mem::swap(&mut slot, &mut self.internal_vec[i]);
            match slot {
                Some(mut plant) => {
                    let alive: bool = plant.tick(cfg, source);
                    if alive {
                        self.internal_vec[i] = Some(plant);
                    } else {
                        match self.first_none {
                            Some(index) => {
                                if i < index {
                                    self.first_none = Some(i);
                                }
                            },
                            None => {
                                self.first_none = Some(i);
                            },
                        }
                    }
                },
                None => {},
            }
            proof {
                assert forall|k: int| i < k < count && k < i + cfg.stride implies !is_selected(
                    *cfg,
                    total_ticks,
                    k,
                ) by {
                    lemma_next_selected(i as int, k, cfg.stride as int);
                }
                assert forall|k: int| 0 <= k < count && k != i implies #[trigger] self.internal_vec@[k]
                    == slots[k] by {}
            }
            assert(Self::slot_ticked_from(
                self.internal_vec@[i as int],
                old(self).internal_vec@[i as int],
                *cfg,
                is_selected(*cfg, total_ticks, i as int),
            ));
            if cfg.stride >= (count - i) as u64 {
                assert forall|k: int| 0 <= k < count implies Self::slot_ticked_from(
                    #[trigger] self.internal_vec@[k],
                    old(self).internal_vec@[k],
                    *cfg,
                    is_selected(*cfg, total_ticks, k),
                ) by {
                    if k != i {
                        assert(self.internal_vec@[k] == slots[k]);
                    }
                }
                break ;
            }
            proof {
                vstd::arithmetic::div_mod::lemma_mod_add_multiples_vanish(
                    i as int,
                    cfg.stride as int,
                );
            }
            i += cfg.stride as usize;
        }
    }

    /// Number of slots, free ones included.
    pub fn len(&self) -> (n: usize)
        ensures
            n == self.internal_vec@.len(),
    {
        self.internal_vec.len()
    }
}

} // verus!
