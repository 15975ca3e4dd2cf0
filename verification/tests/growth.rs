use plant_growth::admission::{AdmissionStep, OffshootVariation};
use plant_growth::branch::{Branch, BranchConnection};
use plant_growth::branch_execute_genome::proposal_from_outcome;
use plant_growth::config::SimConfig;
use plant_growth::genome::{GenomeRule, OffshootSelection, PlantGenome, RuleOutcome, RuleReq};
use plant_growth::growth_priority_item::{
    GrowthPriorityItem, GrowthPriorityQueue, ModifyBranchPriorityItem, NewOffshootPriorityItem,
    PriorityItemType,
};
use plant_growth::plant::Plant;
use rand::rngs::StdRng;
use rand::SeedableRng;
use plant_growth::terrain::Terrain;

fn branch(strength: i64, photoreceptiveness: i64, water_intake: i64, length: i64) -> Branch {
    Branch {
        strength,
        photoreceptiveness,
        water_intake,
        length,
        offshoot_1: None,
        offshoot_2: None,
        parent: 0,
        alive: true,
    }
}

fn genome_with(rules: Vec<GenomeRule>, min_energy_for_growth: i64) -> PlantGenome {
    PlantGenome {
        min_energy_for_growth,
        make_baby_req_energy: 100_000,
        sapling_strength: 300,
        sapling_photoreceptiveness: 900,
        sapling_water_intake: 500,
        sapling_length: 500,
        rules,
    }
}

fn plant_with(rules: Vec<GenomeRule>, root: Branch, energy: i64) -> Plant {
    Plant {
        genome: genome_with(rules, 10_000),
        age_ticks: 0,
        root_position: (0, 0, 0),
        branches: vec![root],
        live_branches: 1,
        current_energy: energy,
        current_water: 0,
        current_sunlight: 0,
    }
}

fn link(index: usize) -> BranchConnection {
    BranchConnection { branch_index: index, yaw: 0, pitch: 0, along_length: 1_000 }
}

/// A root with two offshoots, 1 and 2; branch 1 has the offshoots 3 and 4, and
/// branch 3 has the offshoot 5.
fn small_tree(rules: Vec<GenomeRule>, energy: i64) -> Plant {
    let mut plant = plant_with(rules, branch(100, 100, 100, 1_000), energy);
    plant.attach_offshoot(0, branch(200, 200, 200, 1_000), link(1));
    plant.attach_offshoot(0, branch(300, 300, 300, 1_000), link(2));
    plant.attach_offshoot(1, branch(400, 400, 400, 1_000), link(3));
    plant.attach_offshoot(1, branch(500, 500, 500, 1_000), link(4));
    plant.attach_offshoot(3, branch(600, 600, 600, 1_000), link(5));
    plant
}

fn offshoot_item(priority: i64, target: usize, length: i64) -> GrowthPriorityItem {
    GrowthPriorityItem::new_offshoot_request(target, 500, 1_000, 1_000, 1_000, length, priority)
}

fn exit_if_deeper_than_five() -> GenomeRule {
    GenomeRule { req: RuleReq::BranchDepthReq, min: 5_001, max: i64::MAX, outcome: RuleOutcome::Exit }
}

fn offshoot_if_at_most_five() -> GenomeRule {
    GenomeRule {
        req: RuleReq::BranchDepthReq,
        min: 0,
        max: 5_000,
        outcome: RuleOutcome::RequestNewOffshoot {
            priority: 10_000,
            placement_straightness: 500,
            strength: 300,
            photoreceptiveness: 900,
            water_intake: 500,
            length: 300,
        },
    }
}

#[test]
fn sapling_starts_with_one_root_branch() {
    let cfg = SimConfig::standard();
    let terrain = Terrain { rows: 2, heights: vec![0, 1_000, 2_000, 3_000] };
    let mut source = StdRng::seed_from_u64(1);
    let plant = Plant::new(PlantGenome::human_made_tree_genome(), 500, 500, 75_000, &terrain, &cfg, &mut source);
    assert_eq!(plant.branches.len(), 1);
    assert_eq!(plant.live_branches, 1);
    assert_eq!(plant.age_ticks, 0);
    assert_eq!(plant.root_position, (500, 1_500, 500));
    assert_eq!(plant.current_energy, 75_000);
    assert_eq!(plant.current_water, 0);
    assert_eq!(plant.current_sunlight, 0);
    let root = plant.branches[0];
    assert!(root.alive);
    assert!(root.offshoot_1.is_none() && root.offshoot_2.is_none());
    assert!(270 <= root.strength && root.strength < 330);
    assert!(870 <= root.photoreceptiveness && root.photoreceptiveness < 930);
    assert!(470 <= root.water_intake && root.water_intake < 530);
    assert!(450 <= root.length && root.length <= 550);
}

#[test]
fn starting_energy_is_limited_to_the_pool() {
    let cfg = SimConfig::standard();
    let terrain = Terrain::empty();
    let mut source = StdRng::seed_from_u64(1);
    let plant = Plant::new(PlantGenome::human_made_tree_genome(), 0, 0, i64::MAX, &terrain, &cfg, &mut source);
    assert_eq!(plant.current_energy, 1_000_000_000_000_000_000);
}

#[test]
fn settlement_merges_the_scarcer_pool_into_energy() {
    let mut plant = plant_with(vec![], branch(0, 0, 0, 0), 10_000);
    plant.current_water = 30_000;
    plant.current_sunlight = 50_000;
    plant.settle_resources();
    assert_eq!(plant.current_energy, 40_000);
    assert_eq!(plant.current_water, 0);
    assert_eq!(plant.current_sunlight, 20_000);
    plant.current_water = 9_000;
    plant.current_sunlight = 2_000;
    plant.settle_resources();
    assert_eq!(plant.current_energy, 42_000);
    assert_eq!(plant.current_water, 7_000);
    assert_eq!(plant.current_sunlight, 0);
}

#[test]
fn settlement_leaves_no_pool_negative() {
    let levels: [i64; 7] = [-1_000_000_000_000_000_000, -5_000, -1, 0, 1, 5_000, 1_000_000_000_000_000_000];
    for &water in levels.iter() {
        for &sunlight in levels.iter() {
            let mut plant = plant_with(vec![], branch(0, 0, 0, 0), 0);
            plant.current_water = water;
            plant.current_sunlight = sunlight;
            plant.settle_resources();
            assert!(plant.current_water >= 0);
            assert!(plant.current_sunlight >= 0);
            assert!(plant.current_water == 0 || plant.current_sunlight == 0);
        }
    }
}

#[test]
fn branch_at_depth_six_enqueues_nothing() {
    let cfg = SimConfig::standard();
    let mut plant = plant_with(vec![exit_if_deeper_than_five(), offshoot_if_at_most_five()], branch(300, 900, 500, 500), 50_000);
    let mut queue = GrowthPriorityQueue::new();
    let mut source = StdRng::seed_from_u64(7);
    let mut i = 0;
    while i < 20 {
        plant.execute_branch_genome(&cfg, 0, &mut queue, 6, &mut source);
        i += 1;
    }
    assert_eq!(queue.len(), 0);
    assert_eq!(plant.deciding_rule(&cfg, 0, 6), Some(0));
}

#[test]
fn branch_at_depth_three_enqueues_one_new_offshoot() {
    let cfg = SimConfig::standard();
    let mut plant = plant_with(vec![exit_if_deeper_than_five(), offshoot_if_at_most_five()], branch(300, 900, 500, 500), 50_000);
    let mut queue = GrowthPriorityQueue::new();
    let mut source = StdRng::seed_from_u64(7);
    plant.execute_branch_genome(&cfg, 0, &mut queue, 3, &mut source);
    assert_eq!(queue.len(), 1);
    assert_eq!(plant.deciding_rule(&cfg, 0, 3), Some(1));
    let item = queue.pop().unwrap();
    assert_eq!(item.branch_index, 0);
    assert!(9_000 <= item.priority && item.priority < 11_000);
    assert_eq!(
        item.item,
        PriorityItemType::NewOffshoot(NewOffshootPriorityItem {
            placement_straightness: 500,
            strength: 300,
            photoreceptiveness: 900,
            water_intake: 500,
            length: 300,
        })
    );
    assert_eq!(plant.branches.len(), 1);
    assert_eq!(plant.current_energy, 50_000);
}

#[test]
fn depth_five_is_the_inclusive_boundary() {
    let cfg = SimConfig::standard();
    let plant = plant_with(vec![exit_if_deeper_than_five(), offshoot_if_at_most_five()], branch(300, 900, 500, 500), 50_000);
    assert_eq!(plant.deciding_rule(&cfg, 0, 5), Some(1));
    assert_eq!(plant.deciding_rule(&cfg, 0, 6), Some(0));
}

#[test]
fn offshoot_request_is_skipped_when_the_branch_is_full() {
    let cfg = SimConfig::standard();
    let modify = GenomeRule {
        req: RuleReq::BranchDepthReq,
        min: 0,
        max: 9_000,
        outcome: RuleOutcome::RequestModifyBranch {
            strength_factor: 1_000,
            photoreceptiveness_factor: 0,
            water_intake_factor: 0,
            length_factor: 0,
            priority: 3_000,
        },
    };
    let mut plant = small_tree(vec![offshoot_if_at_most_five(), modify], 50_000);
    assert_eq!(plant.deciding_rule(&cfg, 0, 0), Some(1));
    assert_eq!(plant.deciding_rule(&cfg, 2, 1), Some(0));
    let mut queue = GrowthPriorityQueue::new();
    let mut source = StdRng::seed_from_u64(7);
    plant.execute_branch_genome(&cfg, 0, &mut queue, 0, &mut source);
    assert_eq!(queue.len(), 1);
    let item = queue.pop().unwrap();
    assert_eq!(item.branch_index, 0);
    assert!(2_000 <= item.priority && item.priority < 4_000);
    assert_eq!(
        item.item,
        PriorityItemType::ModifyBranch(ModifyBranchPriorityItem {
            strength_factor: 1_000,
            photoreceptiveness_factor: 0,
            water_intake_factor: 0,
            length_factor: 0,
        })
    );
}

#[test]
fn offshoot_request_is_skipped_when_the_plant_exceeds_its_maximum() {
    let mut cfg = SimConfig::standard();
    let plant = small_tree(vec![offshoot_if_at_most_five()], 50_000);
    cfg.max_branch_count = 6;
    assert_eq!(plant.deciding_rule(&cfg, 2, 1), Some(0));
    cfg.max_branch_count = 5;
    assert_eq!(plant.deciding_rule(&cfg, 2, 1), None);
}

#[test]
fn kill_of_an_absent_offshoot_is_void_and_the_scan_goes_on() {
    let cfg = SimConfig::standard();
    let kill = GenomeRule { req: RuleReq::BranchDepthReq, min: 0, max: 9_000, outcome: RuleOutcome::KillOffshoot(OffshootSelection::Two) };
    let mut plant = plant_with(vec![kill, offshoot_if_at_most_five()], branch(300, 900, 500, 500), 50_000);
    assert_eq!(plant.deciding_rule(&cfg, 0, 0), Some(1));
    let mut queue = GrowthPriorityQueue::new();
    let mut source = StdRng::seed_from_u64(7);
    plant.execute_branch_genome(&cfg, 0, &mut queue, 0, &mut source);
    assert_eq!(queue.len(), 1);
    assert_eq!(plant.current_energy, 50_000);
}

#[test]
fn no_firing_rule_changes_nothing() {
    let cfg = SimConfig::standard();
    let mut plant = plant_with(vec![exit_if_deeper_than_five()], branch(300, 900, 500, 500), 50_000);
    let mut queue = GrowthPriorityQueue::new();
    let mut source = StdRng::seed_from_u64(7);
    assert_eq!(plant.deciding_rule(&cfg, 0, 2), None);
    plant.execute_branch_genome(&cfg, 0, &mut queue, 2, &mut source);
    assert_eq!(queue.len(), 0);
    assert_eq!(plant.current_energy, 50_000);
    assert_eq!(plant.live_branches, 1);
}

#[test]
fn kill_offshoot_removes_the_subtree_and_refunds_the_child_only() {
    let cfg = SimConfig::standard();
    let kill = GenomeRule { req: RuleReq::BranchDepthReq, min: 0, max: 0, outcome: RuleOutcome::KillOffshoot(OffshootSelection::One) };
    let mut plant = small_tree(vec![kill], 50_000);
    assert_eq!(plant.live_branches, 6);
    let child_cost = plant.branches[1].calculate_cost(&cfg);
    // 5 + 4 * 1 * 0.6^2 = 6.44
    assert_eq!(child_cost, 6_440);
    let mut queue = GrowthPriorityQueue::new();
    let mut source = StdRng::seed_from_u64(7);
    plant.execute_branch_genome(&cfg, 0, &mut queue, 0, &mut source);
    assert_eq!(queue.len(), 0);
    assert_eq!(plant.current_energy, 56_440);
    assert_eq!(plant.branches.len(), 6);
    assert_eq!(plant.live_branches, 2);
    assert!(plant.branches[0].alive);
    assert!(!plant.branches[1].alive);
    assert!(plant.branches[2].alive);
    assert!(!plant.branches[3].alive);
    assert!(!plant.branches[4].alive);
    assert!(!plant.branches[5].alive);
    assert_eq!(plant.branches[0].offshoot_1, None);
    assert_eq!(plant.branches[0].offshoot_2, Some(link(2)));
    // nothing of the pruned subtree can be reached from the root
    let mut reached: Vec<usize> = vec![];
    let mut pending: Vec<usize> = vec![0];
    while let Some(index) = pending.pop() {
        reached.push(index);
        if let Some(c) = plant.branches[index].offshoot_1 {
            pending.push(c.branch_index);
        }
        if let Some(c) = plant.branches[index].offshoot_2 {
            pending.push(c.branch_index);
        }
    }
    reached.sort();
    assert_eq!(reached, vec![0, 2]);
}

#[test]
fn kill_of_the_second_offshoot_keeps_the_first() {
    let cfg = SimConfig::standard();
    let mut plant = small_tree(vec![], 0);
    plant.prune_offshoot(&cfg, 1, OffshootSelection::Two);
    assert_eq!(plant.live_branches, 5);
    assert!(!plant.branches[4].alive);
    assert!(plant.branches[3].alive && plant.branches[5].alive);
    assert_eq!(plant.branches[1].offshoot_1, Some(link(3)));
    assert_eq!(plant.branches[1].offshoot_2, None);
    // 5 + 4 * 1 * 1.5^2 = 14
    assert_eq!(plant.current_energy, 14_000);
}

#[test]
fn delete_branch_prunes_a_whole_subtree() {
    let mut plant = small_tree(vec![], 1_000);
    plant.delete_branch_recursive(3);
    assert_eq!(plant.live_branches, 4);
    assert!(!plant.branches[3].alive && !plant.branches[5].alive);
    assert!(plant.branches[0].alive && plant.branches[1].alive && plant.branches[2].alive && plant.branches[4].alive);
    assert_eq!(plant.branches[1].offshoot_1, None);
    assert_eq!(plant.branches[1].offshoot_2, Some(link(4)));
    assert_eq!(plant.current_energy, 1_000);
    assert_eq!(plant.branches[3].strength, 400);
}

#[test]
fn a_freed_slot_takes_the_next_offshoot() {
    let mut plant = small_tree(vec![], 1_000);
    plant.delete_branch_recursive(1);
    plant.attach_offshoot(0, branch(7, 7, 7, 7), link(6));
    assert_eq!(plant.branches.len(), 7);
    assert_eq!(plant.live_branches, 3);
    assert_eq!(plant.branches[0].offshoot_1, Some(link(6)));
    assert_eq!(plant.branches[0].offshoot_2, Some(link(2)));
    assert_eq!(plant.branches[6].parent, 0);
    assert!(!plant.branches[1].alive);
}

#[test]
fn queue_hands_out_the_highest_priority_first() {
    let mut queue = GrowthPriorityQueue::new();
    assert!(queue.is_empty());
    assert_eq!(queue.peek(), None);
    assert_eq!(queue.pop(), None);
    queue.push(offshoot_item(5_000, 1, 0));
    queue.push(offshoot_item(10_000, 2, 0));
    queue.push(offshoot_item(-3_000, 3, 0));
    queue.push(offshoot_item(10_000, 4, 0));
    queue.push(offshoot_item(7_000, 5, 0));
    assert_eq!(queue.len(), 5);
    assert_eq!(queue.highest_position(), 1);
    assert_eq!(queue.peek().unwrap().branch_index, 2);
    let order: Vec<usize> = vec![2, 4, 5, 1, 3];
    for &expected in order.iter() {
        assert_eq!(queue.pop().unwrap().branch_index, expected);
    }
    assert!(queue.is_empty());
}

#[test]
fn proposals_carry_the_jittered_priority() {
    let request = RuleOutcome::RequestNewOffshoot {
        priority: 10_000,
        placement_straightness: 500,
        strength: 300,
        photoreceptiveness: 900,
        water_intake: 500,
        length: 300,
    };
    let item = proposal_from_outcome(4, &request, -250).unwrap();
    assert_eq!(item, GrowthPriorityItem::new_offshoot_request(4, 500, 300, 900, 500, 300, 9_750));
    let change = RuleOutcome::RequestModifyBranch {
        strength_factor: 1,
        photoreceptiveness_factor: 2,
        water_intake_factor: 3,
        length_factor: 4,
        priority: -500,
    };
    let item = proposal_from_outcome(9, &change, 999).unwrap();
    assert_eq!(item, GrowthPriorityItem::new_modify_branch_request(9, 1, 2, 3, 4, 499));
    assert_eq!(proposal_from_outcome(0, &RuleOutcome::Exit, 0), None);
    assert_eq!(proposal_from_outcome(0, &RuleOutcome::KillOffshoot(OffshootSelection::One), 0), None);
}

#[test]
fn proposal_cost_follows_the_cost_formula() {
    let cfg = SimConfig::standard();
    let plant = plant_with(vec![], branch(300, 900, 500, 500), 0);
    assert_eq!(plant.proposal_cost(&cfg, &offshoot_item(0, 0, 1_250)), 50_000);
    assert_eq!(plant.proposal_cost(&cfg, &offshoot_item(0, 0, 0)), 5_000);
    let change = GrowthPriorityItem::new_modify_branch_request(0, 1_000, -1_000, -1_000, 1_000, 0);
    assert_eq!(plant.proposal_cost(&cfg, &change), -528);
}

#[test]
fn admission_does_not_skip_an_unaffordable_head() {
    let cfg = SimConfig::standard();
    let mut plant = plant_with(vec![], branch(100, 100, 100, 1_000), 60_000);
    let mut queue = GrowthPriorityQueue::new();
    queue.push(offshoot_item(5_000, 0, 0));
    queue.push(offshoot_item(10_000, 0, 1_250));
    let mut source = StdRng::seed_from_u64(21);
    plant.admit_proposals(&cfg, &mut queue, &mut source);
    assert_eq!(plant.current_energy, 10_000);
    assert_eq!(plant.live_branches, 2);
    assert_eq!(plant.branches.len(), 2);
    assert_eq!(queue.len(), 1);
    assert_eq!(queue.peek().unwrap().priority, 5_000);
    assert!(plant.branches[0].offshoot_1.is_some());
    assert!(plant.branches[0].offshoot_2.is_none());
}

#[test]
fn admission_stops_at_a_head_that_would_sink_the_energy_below_the_floor() {
    let cfg = SimConfig::standard();
    let mut plant = plant_with(vec![], branch(100, 100, 100, 1_000), 61_000);
    let mut queue = GrowthPriorityQueue::new();
    queue.push(offshoot_item(10_000, 0, 1_250));
    queue.push(offshoot_item(5_000, 0, 0));
    let mut source = StdRng::seed_from_u64(21);
    assert_eq!(plant.admit_next(&cfg, &mut queue, &mut source), AdmissionStep::Committed);
    assert_eq!(plant.current_energy, 11_000);
    assert_eq!(plant.admit_next(&cfg, &mut queue, &mut source), AdmissionStep::Stopped);
    assert_eq!(plant.current_energy, 11_000);
    assert_eq!(plant.live_branches, 2);
    assert_eq!(queue.len(), 1);
}

#[test]
fn admission_leaves_a_cheap_proposal_behind_an_expensive_one() {
    let cfg = SimConfig::standard();
    let mut plant = plant_with(vec![], branch(100, 100, 100, 1_000), 40_000);
    let mut queue = GrowthPriorityQueue::new();
    queue.push(offshoot_item(5_000, 0, 0));
    queue.push(offshoot_item(10_000, 0, 1_250));
    let mut source = StdRng::seed_from_u64(21);
    plant.admit_proposals(&cfg, &mut queue, &mut source);
    assert_eq!(plant.current_energy, 40_000);
    assert_eq!(plant.live_branches, 1);
    assert_eq!(queue.len(), 2);
}

#[test]
fn admission_commits_exactly_at_the_floor() {
    let cfg = SimConfig::standard();
    let mut plant = plant_with(vec![], branch(100, 100, 100, 1_000), 15_000);
    let mut queue = GrowthPriorityQueue::new();
    queue.push(offshoot_item(1_000, 0, 0));
    let mut source = StdRng::seed_from_u64(21);
    assert_eq!(plant.admit_next(&cfg, &mut queue, &mut source), AdmissionStep::Committed);
    assert_eq!(plant.current_energy, 10_000);
    let mut poorer = plant_with(vec![], branch(100, 100, 100, 1_000), 14_999);
    let mut queue = GrowthPriorityQueue::new();
    queue.push(offshoot_item(1_000, 0, 0));
    assert_eq!(poorer.admit_next(&cfg, &mut queue, &mut source), AdmissionStep::Stopped);
    assert_eq!(poorer.current_energy, 14_999);
}

#[test]
fn admission_discards_a_proposal_whose_branch_is_gone_or_full() {
    let cfg = SimConfig::standard();
    let mut plant = small_tree(vec![], 500_000);
    plant.delete_branch_recursive(3);
    let mut queue = GrowthPriorityQueue::new();
    queue.push(offshoot_item(9_000, 3, 0));
    queue.push(offshoot_item(8_000, 0, 0));
    queue.push(offshoot_item(7_000, 17, 0));
    queue.push(GrowthPriorityItem::new_offshoot_request(2, 500, 2_000_000, 0, 0, 0, 6_000));
    queue.push(offshoot_item(5_000, 2, 0));
    let mut source = StdRng::seed_from_u64(21);
    assert_eq!(plant.admit_next(&cfg, &mut queue, &mut source), AdmissionStep::Discarded);
    assert_eq!(plant.admit_next(&cfg, &mut queue, &mut source), AdmissionStep::Discarded);
    assert_eq!(plant.admit_next(&cfg, &mut queue, &mut source), AdmissionStep::Discarded);
    assert_eq!(plant.admit_next(&cfg, &mut queue, &mut source), AdmissionStep::Discarded);
    assert_eq!(plant.current_energy, 500_000);
    assert_eq!(plant.admit_next(&cfg, &mut queue, &mut source), AdmissionStep::Committed);
    assert_eq!(plant.current_energy, 495_000);
    assert_eq!(plant.admit_next(&cfg, &mut queue, &mut source), AdmissionStep::Stopped);
    assert_eq!(plant.live_branches, 5);
    assert_eq!(plant.branches[6].parent, 2);
}

#[test]
fn admission_stops_at_the_maximum_branch_count() {
    let mut cfg = SimConfig::standard();
    cfg.max_branch_count = 3;
    let mut plant = plant_with(vec![], branch(100, 100, 100, 1_000), 500_000);
    let mut queue = GrowthPriorityQueue::new();
    let mut i = 0;
    while i < 6 {
        queue.push(offshoot_item(10_000 - i, if i < 2 { 0 } else { 1 }, 0));
        i += 1;
    }
    let mut source = StdRng::seed_from_u64(21);
    plant.admit_proposals(&cfg, &mut queue, &mut source);
    assert_eq!(plant.live_branches, 3);
    assert_eq!(queue.len(), 4);
    assert_eq!(plant.current_energy, 490_000);
}

#[test]
fn modification_changes_traits_and_pays_the_difference() {
    let cfg = SimConfig::standard();
    let mut plant = plant_with(vec![], branch(300, 900, 500, 500), 20_000);
    let change = GrowthPriorityItem::new_modify_branch_request(0, 1_000, -1_000, -1_000, 1_000, 0);
    let mut source = StdRng::seed_from_u64(21);
    assert!(plant.check_proposal(&change));
    assert!(plant.execute_growth_priority_item(&cfg, &change, &mut source));
    let root = plant.branches[0];
    assert_eq!(root.strength, 381);
    assert_eq!(root.photoreceptiveness, 675);
    assert_eq!(root.water_intake, 382);
    assert_eq!(root.length, 635);
    assert_eq!(plant.current_energy, 20_528);
    assert_eq!(plant.live_branches, 1);
}

#[test]
fn unaffordable_proposal_changes_nothing() {
    let cfg = SimConfig::standard();
    let mut plant = plant_with(vec![], branch(300, 900, 500, 500), 59_999);
    let mut source = StdRng::seed_from_u64(21);
    assert!(!plant.execute_growth_priority_item(&cfg, &offshoot_item(0, 0, 1_250), &mut source));
    assert_eq!(plant.current_energy, 59_999);
    assert_eq!(plant.branches.len(), 1);
    assert_eq!(plant.branches[0], branch(300, 900, 500, 500));
}

#[test]
fn new_offshoot_is_grafted_near_the_requested_traits() {
    let cfg = SimConfig::standard();
    let mut plant = plant_with(vec![], branch(300, 900, 500, 500), 100_000);
    let mut source = StdRng::seed_from_u64(21);
    let request = GrowthPriorityItem::new_offshoot_request(0, 500, 300, 900, 500, 1_000, 0);
    assert!(plant.execute_growth_priority_item(&cfg, &request, &mut source));
    assert_eq!(plant.branches.len(), 2);
    assert_eq!(plant.live_branches, 2);
    // 5 + 4 * 1 * 1.7^2 = 16.56
    assert_eq!(plant.current_energy, 83_440);
    let child = plant.branches[1];
    assert!(child.alive);
    assert_eq!(child.parent, 0);
    assert!(270 <= child.strength && child.strength < 330);
    assert!(870 <= child.photoreceptiveness && child.photoreceptiveness < 930);
    assert!(470 <= child.water_intake && child.water_intake < 530);
    assert!(900 <= child.length && child.length < 1_100);
    let connection = plant.branches[0].offshoot_1.unwrap();
    assert_eq!(connection.branch_index, 1);
    assert!(0 <= connection.yaw && connection.yaw < 6_283);
    assert!(500 < connection.along_length && connection.along_length <= 1_000);
    assert_eq!(connection.pitch, (1_000 - connection.along_length) * 1_571 / 1_000);
}

#[test]
fn starving_sapling_dies_at_the_predicted_tick() {
    let cfg = SimConfig::standard();
    let mut plant = plant_with(vec![], branch(0, 0, 0, 500), 10_000);
    let mut source = StdRng::seed_from_u64(2);
    // upkeep per tick: 2 for the plant and 0.02 for its only branch
    let per_tick: i64 = 2_020;
    let predicted: i64 = (10_000 + per_tick - 1) / per_tick;
    assert_eq!(predicted, 5);
    let mut tick: i64 = 1;
    while tick < predicted {
        assert!(plant.tick(&cfg, &mut source));
        assert_eq!(plant.current_energy, 10_000 - tick * per_tick);
        assert_eq!(plant.current_water, 0);
        assert_eq!(plant.current_sunlight, 0);
        tick += 1;
    }
    assert!(!plant.tick(&cfg, &mut source));
    assert_eq!(plant.current_energy, -100);
    assert_eq!(plant.age_ticks, 5);
}

#[test]
fn plant_with_exactly_no_energy_left_is_still_alive() {
    let cfg = SimConfig::standard();
    let mut plant = plant_with(vec![], branch(0, 0, 0, 500), 4_040);
    let mut source = StdRng::seed_from_u64(2);
    assert!(plant.tick(&cfg, &mut source));
    assert!(plant.tick(&cfg, &mut source));
    assert_eq!(plant.current_energy, 0);
    assert!(!plant.tick(&cfg, &mut source));
}

#[test]
fn tick_collects_settles_and_pays_upkeep() {
    let cfg = SimConfig::standard();
    let mut plant = plant_with(vec![], branch(0, 1_000, 1_000, 1_000), 10_000);
    let mut source = StdRng::seed_from_u64(2);
    assert!(plant.tick(&cfg, &mut source));
    // sunlight 1.0 and water 2.5 are collected; 1.0 of each becomes energy;
    // upkeep is 2 + 0.02 + 0.05 * 1 * 2^2 = 2.22
    assert_eq!(plant.current_sunlight, 0);
    assert_eq!(plant.current_water, 1_500);
    assert_eq!(plant.current_energy, 10_000 + 1_000 - 2_220);
    assert_eq!(plant.age_ticks, 1);
}

#[test]
fn tick_walks_every_live_branch_at_its_depth() {
    let cfg = SimConfig::standard();
    let mut plant = small_tree(vec![], 100_000);
    plant.delete_branch_recursive(2);
    let mut source = StdRng::seed_from_u64(2);
    assert!(plant.tick(&cfg, &mut source));
    // live branches: 0 at depth 0; 1 at depth 1; 3 and 4 at depth 2; 5 at depth 3
    let traits: [(i64, usize); 5] = [(100, 0), (200, 1), (400, 2), (500, 2), (600, 3)];
    let mut sunlight: i64 = 0;
    let mut water: i64 = 0;
    let mut upkeep: i64 = 2_000;
    for &(t, depth) in traits.iter() {
        let b = branch(t, t, t, 1_000);
        sunlight += b.calculate_collect_sunlight(&cfg, depth);
        water += b.calculate_collect_water(&cfg, depth);
        upkeep += b.calculate_homeostasis(&cfg);
    }
    let merged = if water < sunlight { water } else { sunlight };
    assert_eq!(plant.current_energy, 100_000 + merged - upkeep);
    assert_eq!(plant.current_water, water - merged);
    assert_eq!(plant.current_sunlight, sunlight - merged);
}

#[test]
fn branch_count_never_exceeds_the_maximum() {
    let mut cfg = SimConfig::standard();
    cfg.max_branch_count = 12;
    let terrain = Terrain::empty();
    let mut source = StdRng::seed_from_u64(77);
    let mut plant = Plant::new(PlantGenome::human_made_tree_genome(), 0, 0, 400_000, &terrain, &cfg, &mut source);
    let mut grown = false;
    let mut ticks = 0;
    while ticks < 300 {
        if !plant.tick(&cfg, &mut source) {
            assert!(plant.current_energy < 0);
            break;
        }
        assert!(plant.is_valid());
        assert!(plant.live_branches <= 12);
        assert!(plant.current_water >= 0 && plant.current_sunlight >= 0);
        assert!(plant.current_water == 0 || plant.current_sunlight == 0);
        assert!(plant.branches[0].alive);
        let alive = plant.branches.iter().filter(|b| b.alive).count();
        assert_eq!(alive, plant.live_branches);
        if plant.live_branches > 1 {
            grown = true;
        }
        ticks += 1;
    }
    assert!(grown);
}

#[test]
fn offshoots_always_lie_above_their_parent() {
    let cfg = SimConfig::standard();
    let terrain = Terrain::empty();
    let mut source = StdRng::seed_from_u64(123);
    let mut plant = Plant::new(PlantGenome::human_made_tree_genome(), 0, 0, 300_000, &terrain, &cfg, &mut source);
    let mut ticks = 0;
    while ticks < 100 && plant.tick(&cfg, &mut source) {
        for (index, b) in plant.branches.iter().enumerate() {
            if !b.alive {
                continue;
            }
            for c in [b.offshoot_1, b.offshoot_2].iter().flatten() {
                assert!(c.branch_index > index);
                assert!(plant.branches[c.branch_index].alive);
                assert_eq!(plant.branches[c.branch_index].parent, index);
            }
        }
        ticks += 1;
    }
}

#[test]
fn equal_seeds_grow_equal_plants() {
    let cfg = SimConfig::standard();
    let terrain = Terrain::empty();
    let mut first_source = StdRng::seed_from_u64(5);
    let mut second_source = StdRng::seed_from_u64(5);
    let mut first = Plant::new(PlantGenome::human_made_tree_genome(), 0, 0, 200_000, &terrain, &cfg, &mut first_source);
    let mut second = Plant::new(PlantGenome::human_made_tree_genome(), 0, 0, 200_000, &terrain, &cfg, &mut second_source);
    let mut ticks = 0;
    while ticks < 60 {
        let a = first.tick(&cfg, &mut first_source);
        let b = second.tick(&cfg, &mut second_source);
        assert_eq!(a, b);
        assert_eq!(first.branches, second.branches);
        assert_eq!(first.current_energy, second.current_energy);
        if !a {
            break;
        }
        ticks += 1;
    }
}

fn plain_variation() -> OffshootVariation {
    OffshootVariation { spread: 500, yaw: 3_000, ds: 10, dp: -20, dw: 0, stretch: 1_050 }
}

#[test]
fn scan_with_a_given_jitter_queues_an_exact_proposal() {
    let cfg = SimConfig::standard();
    let mut plant = plant_with(vec![exit_if_deeper_than_five(), offshoot_if_at_most_five()], branch(300, 900, 500, 500), 50_000);
    let mut queue = GrowthPriorityQueue::new();
    plant.scan_branch_with(&cfg, 0, &mut queue, 3, -250);
    plant.scan_branch_with(&cfg, 0, &mut queue, 6, 999);
    assert_eq!(queue.len(), 1);
    assert_eq!(queue.pop(), Some(GrowthPriorityItem::new_offshoot_request(0, 500, 300, 900, 500, 300, 9_750)));
}

#[test]
fn walk_visits_parents_before_offshoots_and_the_first_offshoot_first() {
    let cfg = SimConfig::standard();
    let mark = GenomeRule {
        req: RuleReq::BranchDepthReq,
        min: 0,
        max: 9_000,
        outcome: RuleOutcome::RequestModifyBranch {
            strength_factor: 0,
            photoreceptiveness_factor: 0,
            water_intake_factor: 0,
            length_factor: 0,
            priority: 0,
        },
    };
    let mut plant = small_tree(vec![mark], 0);
    let mut queue = GrowthPriorityQueue::new();
    let mut upkeep: i64 = 0;
    let jitters: Vec<i64> = vec![0, -1, -2, -3, -4, -5];
    plant.walk_with(&cfg, &mut upkeep, 0, &mut queue, 0, &jitters);
    let order: Vec<usize> = queue.items.iter().map(|item| item.branch_index).collect();
    assert_eq!(order, vec![0, 1, 3, 5, 4, 2]);
    for item in queue.items.iter() {
        assert_eq!(item.priority, -(item.branch_index as i64));
    }
    let mut expected_upkeep: i64 = 0;
    for b in plant.branches.iter() {
        expected_upkeep += b.calculate_homeostasis(&cfg);
    }
    assert_eq!(upkeep, expected_upkeep);
}

#[test]
fn walk_does_not_enter_a_subtree_that_the_scan_pruned() {
    let cfg = SimConfig::standard();
    let kill = GenomeRule { req: RuleReq::BranchDepthReq, min: 1_000, max: 1_000, outcome: RuleOutcome::KillOffshoot(OffshootSelection::One) };
    let ask = GenomeRule {
        req: RuleReq::BranchDepthReq,
        min: 0,
        max: 9_000,
        outcome: RuleOutcome::RequestModifyBranch {
            strength_factor: 0,
            photoreceptiveness_factor: 0,
            water_intake_factor: 0,
            length_factor: 0,
            priority: 0,
        },
    };
    let mut plant = small_tree(vec![kill, ask], 0);
    let mut queue = GrowthPriorityQueue::new();
    let mut upkeep: i64 = 0;
    let jitters: Vec<i64> = vec![0; 6];
    plant.walk_with(&cfg, &mut upkeep, 0, &mut queue, 0, &jitters);
    // branch 1, at depth 1, kills its first offshoot, 3, and with it 5; branch 2,
    // also at depth 1, has no offshoot to kill and asks for a change instead
    let order: Vec<usize> = queue.items.iter().map(|item| item.branch_index).collect();
    assert_eq!(order, vec![0, 4, 2]);
    assert_eq!(plant.live_branches, 4);
    assert!(!plant.branches[3].alive && !plant.branches[5].alive);
    // the refund is the cost of branch 3 alone: 5 + 4 * 1 * 1.2^2 = 10.76
    assert_eq!(plant.current_energy, 10_760);
}

#[test]
fn commit_with_a_given_variation_is_exact() {
    let cfg = SimConfig::standard();
    let mut plant = plant_with(vec![], branch(300, 900, 500, 500), 100_000);
    let request = GrowthPriorityItem::new_offshoot_request(0, 500, 300, 900, 500, 1_000, 0);
    assert!(plant.execute_growth_priority_item_with(&cfg, &request, &plain_variation()));
    assert_eq!(plant.current_energy, 83_440);
    assert_eq!(
        plant.branches[1],
        Branch {
            strength: 310,
            photoreceptiveness: 880,
            water_intake: 500,
            length: 1_050,
            offshoot_1: None,
            offshoot_2: None,
            parent: 0,
            alive: true,
        }
    );
    assert_eq!(
        plant.branches[0].offshoot_1,
        Some(BranchConnection { branch_index: 1, yaw: 3_000, pitch: 392, along_length: 750 })
    );
    assert_eq!(plant.branches[0].offshoot_2, None);
    assert_eq!(plant.live_branches, 2);
}

#[test]
fn drain_with_given_variations_is_exact() {
    let cfg = SimConfig::standard();
    let mut plant = plant_with(vec![], branch(100, 100, 100, 1_000), 30_000);
    let mut queue = GrowthPriorityQueue::new();
    queue.push(offshoot_item(3_000, 0, 0));
    queue.push(offshoot_item(9_000, 4, 0));
    queue.push(offshoot_item(5_000, 0, 0));
    queue.push(offshoot_item(1_000, 1, 0));
    queue.push(offshoot_item(2_000, 0, 0));
    let mut first = plain_variation();
    first.yaw = 1;
    let mut second = plain_variation();
    second.yaw = 2;
    let mut third = plain_variation();
    third.yaw = 3;
    let variations = vec![first, second, third, plain_variation(), plain_variation()];
    plant.admit_proposals_with(&cfg, &mut queue, &variations);
    // step 0 discards the proposal for the missing branch 4; steps 1 and 2 graft
    // two offshoots onto the root; step 3 finds the root full and discards; step
    // 4 grafts onto branch 1 and leaves the energy at the floor
    assert_eq!(plant.branches.len(), 4);
    assert_eq!(plant.live_branches, 4);
    assert_eq!(plant.current_energy, 15_000);
    assert_eq!(queue.len(), 0);
    assert_eq!(plant.branches[0].offshoot_1.unwrap().yaw, 2);
    assert_eq!(plant.branches[0].offshoot_2.unwrap().yaw, 3);
    assert_eq!(plant.branches[1].offshoot_1.unwrap().branch_index, 3);
    assert_eq!(plant.branches[1].offshoot_1.unwrap().yaw, 3_000);
    assert_eq!(plant.branches[3].parent, 1);
}

#[test]
fn well_formed_plants_pass_the_validity_check() {
    let cfg = SimConfig::standard();
    assert!(plant_with(vec![], branch(0, 0, 0, 0), 0).is_valid());
    let mut plant = small_tree(vec![offshoot_if_at_most_five()], 10_000);
    assert!(plant.is_valid());
    plant.delete_branch_recursive(3);
    assert!(plant.is_valid());
    plant.prune_offshoot(&cfg, 0, OffshootSelection::Two);
    assert!(plant.is_valid());
    assert!(PlantGenome::human_made_tree_genome().is_valid());
}

#[test]
fn malformed_plants_fail_the_validity_check() {
    let mut wrong_count = small_tree(vec![], 0);
    wrong_count.live_branches = 5;
    assert!(!wrong_count.is_valid());

    let mut dead_root = small_tree(vec![], 0);
    dead_root.branches[0].alive = false;
    assert!(!dead_root.is_valid());

    let mut no_branches = plant_with(vec![], branch(0, 0, 0, 0), 0);
    no_branches.branches.clear();
    no_branches.live_branches = 0;
    assert!(!no_branches.is_valid());

    let mut dangling = small_tree(vec![], 0);
    dangling.branches[2].offshoot_1 = Some(link(9));
    assert!(!dangling.is_valid());

    let mut shared = small_tree(vec![], 0);
    shared.branches[2].offshoot_1 = Some(link(5));
    assert!(!shared.is_valid());

    let mut doubled = small_tree(vec![], 0);
    doubled.branches[0].offshoot_2 = Some(link(1));
    assert!(!doubled.is_valid());

    let mut orphan = small_tree(vec![], 0);
    orphan.branches[3].offshoot_1 = None;
    assert!(!orphan.is_valid());

    let mut tombstone = small_tree(vec![], 0);
    tombstone.branches[5].alive = false;
    assert!(!tombstone.is_valid());

    let mut backwards = small_tree(vec![], 0);
    backwards.branches[5].parent = 5;
    assert!(!backwards.is_valid());

    let mut oversized = small_tree(vec![], 0);
    oversized.branches[4].length = 1_000_001;
    assert!(!oversized.is_valid());

    let mut overfull = small_tree(vec![], 0);
    overfull.current_water = 1_000_000_000_000_000_001;
    assert!(!overfull.is_valid());

    let mut bad_rule = small_tree(vec![offshoot_if_at_most_five()], 0);
    bad_rule.genome.rules[0].outcome = RuleOutcome::RequestModifyBranch {
        strength_factor: 0,
        photoreceptiveness_factor: 0,
        water_intake_factor: 0,
        length_factor: 0,
        priority: -1_000_001,
    };
    assert!(!bad_rule.is_valid());
}
