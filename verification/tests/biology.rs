use plant_growth::admission::OffshootVariation;
use plant_growth::branch::{Branch, BranchConnection};
use plant_growth::config::{DepthScaling, SimConfig};
use plant_growth::fixed::{clamp, div_toward_zero, pool_add, squash, POOL_LIMIT};
use plant_growth::genome::{GenomeRule, PlantGenome, RuleOutcome, RuleReq};
use plant_growth::growth_priority_item::{
    modify_self_length_property_helper, modify_self_property_helper,
};
use plant_growth::plant::Plant;
use rand::rngs::StdRng;
use rand::SeedableRng;
use plant_growth::terrain::{GroundType, Terrain, TerrainGridNode};

fn branch(strength: i64, photoreceptiveness: i64, water_intake: i64, length: i64) -> Branch {
    Branch {
        strength,
        photoreceptiveness,
        water_intake,
        length,
        offshoot_1: None,
        offshoot_2: None,
        parent: 0,
        alive: true,
    }
}

fn bare_plant(root: Branch, energy: i64, water: i64, sunlight: i64, height: i64) -> Plant {
    Plant {
        genome: PlantGenome {
            min_energy_for_growth: 10_000,
            make_baby_req_energy: 100_000,
            sapling_strength: 0,
            sapling_photoreceptiveness: 0,
            sapling_water_intake: 0,
            sapling_length: 0,
            rules: vec![],
        },
        age_ticks: 0,
        root_position: (0, height, 0),
        branches: vec![root],
        live_branches: 1,
        current_energy: energy,
        current_water: water,
        current_sunlight: sunlight,
    }
}

#[test]
fn standard_config_is_valid() {
    let cfg = SimConfig::standard();
    assert!(cfg.is_valid());
    assert_eq!(cfg.max_branch_count, 100);
    assert_eq!(cfg.stride, 30);
    assert_eq!(cfg.cost_base, 5_000);
    assert_eq!(cfg.cost_factor, 4_000);
    assert_eq!(cfg.water_factor, 2_500);
    assert_eq!(cfg.sunlight_scaling, DepthScaling::FavorDeep);
    assert_eq!(cfg.water_scaling, DepthScaling::FavorShallow);
}

#[test]
fn config_without_stride_is_invalid() {
    let mut cfg = SimConfig::standard();
    cfg.stride = 0;
    assert!(!cfg.is_valid());
    let mut cfg = SimConfig::standard();
    cfg.cost_factor = -1;
    assert!(!cfg.is_valid());
    let mut cfg = SimConfig::standard();
    cfg.priority_jitter = 0;
    assert!(!cfg.is_valid());
}

#[test]
fn cost_has_exact_values() {
    let cfg = SimConfig::standard();
    assert_eq!(Branch::calculate_cost_from_individual_parts(&cfg, 1_000, 1_000, 1_000, 1_250), 50_000);
    assert_eq!(Branch::calculate_cost_from_individual_parts(&cfg, 300, 900, 500, 500), 10_780);
    assert_eq!(Branch::calculate_cost_from_individual_parts(&cfg, 100, 1_000, 100, 100), 5_576);
    assert_eq!(Branch::calculate_cost_from_individual_parts(&cfg, 0, 0, 0, 10_000), 5_000);
    assert_eq!(branch(300, 900, 500, 300).calculate_cost(&cfg), 8_468);
}

#[test]
fn cost_of_a_negative_length_rounds_toward_zero() {
    let cfg = SimConfig::standard();
    // 5 + 4 * (-1.25) * 9 = -40, and 4 * (-0.001) * 0.0009 rounds to zero.
    assert_eq!(Branch::calculate_cost_from_individual_parts(&cfg, 1_000, 1_000, 1_000, -1_250), -40_000);
    assert_eq!(Branch::calculate_cost_from_individual_parts(&cfg, 10, 10, 10, -1), 5_000);
}

#[test]
fn homeostasis_has_exact_values() {
    let cfg = SimConfig::standard();
    assert_eq!(branch(300, 900, 500, 500).calculate_homeostasis(&cfg), 92);
    assert_eq!(branch(1_000, 1_000, 1_000, 1_250).calculate_homeostasis(&cfg), 582);
    assert_eq!(branch(0, 0, 0, 10_000).calculate_homeostasis(&cfg), 20);
}

#[test]
fn cost_and_homeostasis_never_fall_when_a_part_grows() {
    let cfg = SimConfig::standard();
    let steps: [i64; 6] = [0, 1, 250, 999, 1_000, 7_500];
    for &l in steps.iter() {
        for &s in steps.iter() {
            let here = branch(s, 400, 300, l);
            for &grow in steps.iter() {
                let longer = branch(s, 400, 300, l + grow);
                let stronger = branch(s + grow, 400, 300, l);
                let greener = branch(s, 400 + grow, 300, l);
                let thirstier = branch(s, 400, 300 + grow, l);
                for other in [longer, stronger, greener, thirstier].iter() {
                    assert!(here.calculate_cost(&cfg) <= other.calculate_cost(&cfg));
                    assert!(here.calculate_homeostasis(&cfg) <= other.calculate_homeostasis(&cfg));
                }
            }
        }
    }
}

#[test]
fn sunlight_scales_with_depth_in_the_configured_direction() {
    let mut cfg = SimConfig::standard();
    let b = branch(0, 1_000, 1_000, 1_000);
    assert_eq!(b.calculate_collect_sunlight(&cfg, 0), 1_000);
    assert_eq!(b.calculate_collect_sunlight(&cfg, 5), 2_000);
    assert_eq!(b.calculate_collect_sunlight(&cfg, 10), 3_000);
    cfg.sunlight_scaling = DepthScaling::FavorShallow;
    assert_eq!(b.calculate_collect_sunlight(&cfg, 0), 1_000);
    assert_eq!(b.calculate_collect_sunlight(&cfg, 5), 500);
    assert_eq!(b.calculate_collect_sunlight(&cfg, 10), 333);
}

#[test]
fn water_scales_with_depth_in_the_configured_direction() {
    let mut cfg = SimConfig::standard();
    let b = branch(0, 1_000, 1_000, 1_000);
    assert_eq!(b.calculate_collect_water(&cfg, 0), 2_500);
    assert_eq!(b.calculate_collect_water(&cfg, 5), 1_250);
    cfg.water_scaling = DepthScaling::FavorDeep;
    assert_eq!(b.calculate_collect_water(&cfg, 5), 5_000);
    let dry = branch(0, 1_000, -200, 1_000);
    assert_eq!(dry.calculate_collect_water(&cfg, 0), -500);
}

#[test]
fn collection_saturates_at_the_pool_limit() {
    let mut cfg = SimConfig::standard();
    cfg.sunlight_factor = 1_000_000;
    cfg.depth_divisor = 1;
    let b = branch(0, 1_000_000, 0, 1_000_000);
    assert_eq!(b.calculate_collect_sunlight(&cfg, usize::MAX), POOL_LIMIT);
}

#[test]
fn fixed_point_helpers_have_exact_values() {
    assert_eq!(div_toward_zero(7, 2), 3);
    assert_eq!(div_toward_zero(-7, 2), -3);
    assert_eq!(clamp(15, 10), 10);
    assert_eq!(clamp(-15, 10), -10);
    assert_eq!(clamp(-3, 10), -3);
    assert_eq!(pool_add(POOL_LIMIT, 5), POOL_LIMIT);
    assert_eq!(pool_add(-POOL_LIMIT, -5), -POOL_LIMIT);
    assert_eq!(pool_add(40, -15), 25);
}

#[test]
fn squash_is_bounded_odd_and_rising() {
    assert_eq!(squash(0), 0);
    assert_eq!(squash(500), 465);
    assert_eq!(squash(1_000), 777);
    assert_eq!(squash(2_000), 984);
    assert_eq!(squash(2_999), 999);
    assert_eq!(squash(3_000), 1_000);
    assert_eq!(squash(5_000_000), 1_000);
    assert_eq!(squash(-1_000), -777);
    assert_eq!(squash(-3_000), -1_000);
    let mut last: i64 = -1_000;
    let mut x: i128 = -3_500;
    while x <= 3_500 {
        let y = squash(x);
        assert!(last <= y);
        assert_eq!(squash(-x), -y);
        last = y;
        x += 7;
    }
}

#[test]
fn trait_modification_has_exact_values() {
    assert_eq!(modify_self_property_helper(0, 0), 0);
    assert_eq!(modify_self_property_helper(500, 10_000), 877);
    assert_eq!(modify_self_property_helper(500, -10_000), -270);
    assert_eq!(modify_self_property_helper(300, 1_000), 381);
    assert_eq!(modify_self_property_helper(900, -1_000), 675);
    assert_eq!(modify_self_property_helper(i64::MAX, i64::MAX), 1_000);
    assert_eq!(modify_self_property_helper(i64::MIN, i64::MIN), -1_000);
}

#[test]
fn length_modification_has_exact_values() {
    assert_eq!(modify_self_length_property_helper(500, 1_000), 635);
    assert_eq!(modify_self_length_property_helper(1_000, 0), 903);
    assert_eq!(modify_self_length_property_helper(i64::MAX, 0), 1_666);
}

#[test]
fn repeated_positive_changes_pull_a_trait_toward_one() {
    let mut v: i64 = -900;
    let mut i = 0;
    while i < 50 {
        let next = modify_self_property_helper(v, 20_000);
        assert!(-1_000 <= next && next <= 1_000);
        v = next;
        i += 1;
    }
    assert!(v > 900);
}

#[test]
fn connection_placement_has_exact_values() {
    let c = BranchConnection::placed(500, 7, 500, 3_000);
    assert_eq!(c.branch_index, 7);
    assert_eq!(c.yaw, 3_000);
    assert_eq!(c.along_length, 750);
    assert_eq!(c.pitch, 392);
    let tip = BranchConnection::placed(1_000, 1, 999, 0);
    assert_eq!(tip.along_length, 1_000);
    assert_eq!(tip.pitch, 0);
    let base = BranchConnection::placed(0, 1, 999, 0);
    assert_eq!(base.along_length, 1);
    assert_eq!(base.pitch, 1_569);
}

#[test]
fn variance_shifts_traits_and_stretches_length() {
    let b = Branch::with_variance(300, 900, 500, 2_000, 30, -30, 0, 1_100);
    assert_eq!(b.strength, 330);
    assert_eq!(b.photoreceptiveness, 870);
    assert_eq!(b.water_intake, 500);
    assert_eq!(b.length, 2_200);
    assert!(b.alive);
    assert!(b.offshoot_1.is_none() && b.offshoot_2.is_none());
    let capped = Branch::with_variance(1_000_000, -1_000_000, 0, 1_000_000, 5, -5, 0, 2_000);
    assert_eq!(capped.strength, 1_000_000);
    assert_eq!(capped.photoreceptiveness, -1_000_000);
    assert_eq!(capped.length, 1_000_000);
}

#[test]
fn new_branch_stays_within_the_configured_variance() {
    let cfg = SimConfig::standard();
    let mut source = StdRng::seed_from_u64(11);
    let mut i = 0;
    while i < 200 {
        let b = Branch::new(&cfg, 300, 900, 500, 1_000, &mut source);
        assert!(270 <= b.strength && b.strength < 330);
        assert!(870 <= b.photoreceptiveness && b.photoreceptiveness < 930);
        assert!(470 <= b.water_intake && b.water_intake < 530);
        assert!(900 <= b.length && b.length < 1_100);
        i += 1;
    }
}

#[test]
fn add_offshoot_fills_the_first_free_slot() {
    let mut b = branch(1, 2, 3, 4);
    let first = BranchConnection { branch_index: 5, yaw: 1, pitch: 2, along_length: 3 };
    let second = BranchConnection { branch_index: 6, yaw: 4, pitch: 5, along_length: 6 };
    b.add_offshoot(first);
    assert_eq!(b.offshoot_1, Some(first));
    assert_eq!(b.offshoot_2, None);
    b.add_offshoot(second);
    assert_eq!(b.offshoot_1, Some(first));
    assert_eq!(b.offshoot_2, Some(second));
    let mut gap = branch(1, 2, 3, 4);
    gap.offshoot_2 = Some(second);
    gap.add_offshoot(first);
    assert_eq!(gap.offshoot_1, Some(first));
    assert_eq!(gap.offshoot_2, Some(second));
}

#[test]
fn jitters_stay_in_their_range_and_vary() {
    let cfg = SimConfig::standard();
    let mut source = StdRng::seed_from_u64(3);
    let jitters = Plant::draw_jitters(&cfg, 500, &mut source);
    assert_eq!(jitters.len(), 500);
    assert!(jitters.iter().all(|&j| -1_000 <= j && j < 1_000));
    assert!(jitters.iter().any(|&j| j < 0));
    assert!(jitters.iter().any(|&j| j >= 0));
    let mut narrow = SimConfig::standard();
    narrow.priority_jitter = 1;
    let jitters = Plant::draw_jitters(&narrow, 200, &mut source);
    assert!(jitters.iter().all(|&j| -1 <= j && j < 1));
    assert!(jitters.iter().any(|&j| j == -1) && jitters.iter().any(|&j| j == 0));
    assert_eq!(Plant::draw_jitters(&cfg, 0, &mut source).len(), 0);
}

#[test]
fn variations_stay_in_their_ranges() {
    let cfg = SimConfig::standard();
    let mut source = StdRng::seed_from_u64(8);
    let variations = OffshootVariation::draw_many(&cfg, 300, &mut source);
    assert_eq!(variations.len(), 300);
    for v in variations.iter() {
        assert!(0 <= v.spread && v.spread < 1_000);
        assert!(0 <= v.yaw && v.yaw < 6_283);
        assert!(-30 <= v.ds && v.ds < 30);
        assert!(-30 <= v.dp && v.dp < 30);
        assert!(-30 <= v.dw && v.dw < 30);
        assert!(900 <= v.stretch && v.stretch < 1_100);
    }
    assert!(variations.iter().any(|v| v.yaw > 3_000));
    assert!(variations.iter().any(|v| v.ds != variations[0].ds));
    let one = OffshootVariation::draw(&cfg, &mut source);
    assert!(0 <= one.spread && one.spread < 1_000);
}

#[test]
fn equal_seeds_give_equal_draws() {
    let cfg = SimConfig::standard();
    let mut a = StdRng::seed_from_u64(99);
    let mut b = StdRng::seed_from_u64(99);
    assert_eq!(Plant::draw_jitters(&cfg, 50, &mut a), Plant::draw_jitters(&cfg, 50, &mut b));
    assert_eq!(OffshootVariation::draw(&cfg, &mut a), OffshootVariation::draw(&cfg, &mut b));
}

#[test]
fn rule_fires_on_an_inclusive_range() {
    let plant = bare_plant(branch(300, 900, 500, 700), 42_000, 7_000, 9_000, 12_345);
    let b = plant.branches[0];
    let rule = |req: RuleReq, min: i64, max: i64| GenomeRule { req, min, max, outcome: RuleOutcome::Exit };
    assert!(rule(RuleReq::BranchDepthReq, 3_000, 3_000).evaluate(3, &b, &plant).is_some());
    assert!(rule(RuleReq::BranchDepthReq, 3_001, 9_000).evaluate(3, &b, &plant).is_none());
    assert!(rule(RuleReq::BranchDepthReq, 0, 2_999).evaluate(3, &b, &plant).is_none());
    assert!(rule(RuleReq::BranchStrengthReq, 300, 300).evaluate(0, &b, &plant).is_some());
    assert!(rule(RuleReq::BranchStrengthReq, 301, 400).evaluate(0, &b, &plant).is_none());
    assert!(rule(RuleReq::BranchPhotoreceptivenessReq, 900, 900).evaluate(0, &b, &plant).is_some());
    assert!(rule(RuleReq::BranchWaterIntakeReq, 500, 500).evaluate(0, &b, &plant).is_some());
    assert!(rule(RuleReq::BranchLengthReq, 700, 700).evaluate(0, &b, &plant).is_some());
    assert!(rule(RuleReq::PlantEnergyReq, 42_000, 42_000).evaluate(0, &b, &plant).is_some());
    assert!(rule(RuleReq::PlantEnergyReq, 0, 41_999).evaluate(0, &b, &plant).is_none());
    assert!(rule(RuleReq::PlantWaterReq, 7_000, 7_000).evaluate(0, &b, &plant).is_some());
    assert!(rule(RuleReq::PlantSunlightReq, 9_000, 9_000).evaluate(0, &b, &plant).is_some());
    assert!(rule(RuleReq::TerrainHeightReq, 12_345, 12_345).evaluate(0, &b, &plant).is_some());
    assert!(rule(RuleReq::TerrainHeightReq, 0, 12_344).evaluate(0, &b, &plant).is_none());
    assert!(rule(RuleReq::TerrainDrynessReq, 0, 0).evaluate(0, &b, &plant).is_some());
    assert!(rule(RuleReq::TerrainRockinessReq, 1, 5).evaluate(0, &b, &plant).is_none());
    assert!(rule(RuleReq::TerrainWaterlog, -1, 1).evaluate(0, &b, &plant).is_some());
    assert!(rule(RuleReq::BranchDepthReq, 5, 1).evaluate(3, &b, &plant).is_none());
}

#[test]
fn rule_returns_its_outcome_when_it_fires() {
    let plant = bare_plant(branch(300, 900, 500, 700), 42_000, 0, 0, 0);
    let b = plant.branches[0];
    let outcome = RuleOutcome::RequestNewOffshoot {
        priority: 10_000,
        placement_straightness: 500,
        strength: 300,
        photoreceptiveness: 900,
        water_intake: 500,
        length: 300,
    };
    let rule = GenomeRule { req: RuleReq::BranchDepthReq, min: -1_000, max: 4_500, outcome };
    assert_eq!(rule.evaluate(4, &b, &plant), Some(&outcome));
    assert_eq!(rule.evaluate(5, &b, &plant), None);
}

#[test]
fn evaluating_a_rule_again_gives_the_same_outcome() {
    let plant = bare_plant(branch(300, 900, 500, 700), 42_000, 7_000, 9_000, 12_345);
    let b = plant.branches[0];
    let genome = PlantGenome::human_made_tree_genome();
    let mut depth = 0;
    while depth < 12 {
        for rule in genome.rules.iter() {
            let first = rule.evaluate(depth, &b, &plant).copied();
            let second = rule.evaluate(depth, &b, &plant).copied();
            assert_eq!(first, second);
        }
        depth += 1;
    }
}

#[test]
fn hand_made_genome_has_six_rules() {
    let genome = PlantGenome::human_made_tree_genome();
    assert_eq!(genome.min_energy_for_growth, 10_000);
    assert_eq!(genome.make_baby_req_energy, 100_000);
    assert_eq!(genome.sapling_strength, 300);
    assert_eq!(genome.sapling_photoreceptiveness, 900);
    assert_eq!(genome.sapling_water_intake, 500);
    assert_eq!(genome.sapling_length, 500);
    assert_eq!(genome.rules.len(), 6);
    assert_eq!(genome.rules[0].outcome, RuleOutcome::Exit);
    assert_eq!(genome.rules[0].min, 6_500);
    assert_eq!(genome.rules[1].req, RuleReq::PlantEnergyReq);
    assert_eq!(
        genome.rules[3].outcome,
        RuleOutcome::RequestNewOffshoot {
            priority: 5_000,
            placement_straightness: 0,
            strength: 100,
            photoreceptiveness: 1_000,
            water_intake: 100,
            length: 100,
        }
    );
    assert_eq!(
        genome.rules[5].outcome,
        RuleOutcome::RequestModifyBranch {
            strength_factor: 1_000,
            photoreceptiveness_factor: -1_000,
            water_intake_factor: -1_000,
            length_factor: 1_000,
            priority: 0,
        }
    );
}

#[test]
fn random_genome_has_four_exit_rules() {
    let mut source = StdRng::seed_from_u64(5);
    let genome = PlantGenome::random(&mut source);
    assert_eq!(genome.rules.len(), 4);
    assert_eq!(genome.sapling_length, 10_000);
    assert_eq!(genome.min_energy_for_growth, 10_000);
    for rule in genome.rules.iter() {
        assert_eq!(rule.req, RuleReq::BranchDepthReq);
        assert_eq!(rule.outcome, RuleOutcome::Exit);
        assert!(0 <= rule.min && rule.min < 20_000);
        assert!(0 <= rule.max && rule.max < 20_000);
    }
}

#[test]
fn terrain_interpolates_between_its_nodes() {
    let terrain = Terrain { rows: 2, heights: vec![0, 1_000, 2_000, 3_000] };
    assert!(terrain.is_valid());
    assert_eq!(terrain.get_height(0, 0), 0);
    assert_eq!(terrain.get_height(0, 1_000), 1_000);
    assert_eq!(terrain.get_height(1_000, 0), 2_000);
    assert_eq!(terrain.get_height(1_000, 1_000), 3_000);
    assert_eq!(terrain.get_height(500, 0), 1_000);
    assert_eq!(terrain.get_height(0, 250), 250);
    assert_eq!(terrain.get_height(500, 500), 1_500);
}

#[test]
fn terrain_wraps_around() {
    let terrain = Terrain { rows: 2, heights: vec![0, 1_000, 2_000, 3_000] };
    assert_eq!(terrain.get_height(2_000, 2_000), 0);
    assert_eq!(terrain.get_height(3_000, 1_000), 3_000);
    assert_eq!(terrain.get_height(-1_000, 0), 2_000);
    assert_eq!(terrain.get_height(-2_000, -1_000), 1_000);
    // halfway between row 1 and row 0 of the next period
    assert_eq!(terrain.get_height(1_500, 0), 1_000);
    assert_eq!(terrain.get_height(-500, 0), 1_000);
    assert_eq!(terrain.get_height(i64::MIN, i64::MAX), terrain.get_height(i64::MIN % 2_000 + 2_000, i64::MAX % 2_000));
}

#[test]
fn empty_terrain_is_flat() {
    let terrain = Terrain::empty();
    assert!(terrain.is_valid());
    assert_eq!(terrain.rows, 100);
    assert_eq!(terrain.heights.len(), 10_000);
    assert_eq!(terrain.get_height(12_345, -6_789), 0);
}

#[test]
fn malformed_terrain_is_invalid() {
    assert!(!Terrain { rows: 0, heights: vec![] }.is_valid());
    assert!(!Terrain { rows: 2, heights: vec![0, 0, 0] }.is_valid());
    assert!(!Terrain { rows: 1, heights: vec![1_000_001] }.is_valid());
}

fn node(height: i64, local_height: i64, dryness: i64, rockiness: i64) -> TerrainGridNode {
    TerrainGridNode { height, local_height, dryness, rockiness }
}

#[test]
fn ground_cover_follows_height_and_dryness() {
    assert_eq!(GroundType::from_grid_node(&node(60_000, 0, 500, 0)), GroundType::Snow);
    assert_eq!(GroundType::from_grid_node(&node(60_000, 8_000, 900, 0)), GroundType::Snow);
    assert_eq!(GroundType::from_grid_node(&node(60_000, 0, 900, 0)), GroundType::Rock);
    assert_eq!(GroundType::from_grid_node(&node(60_000, -2_000, 500, 0)), GroundType::Rock);
    assert_eq!(GroundType::from_grid_node(&node(55_000, 0, 500, 0)), GroundType::Rock);
    assert_eq!(GroundType::from_grid_node(&node(10_000, 0, 500, 801)), GroundType::Rock);
    assert_eq!(GroundType::from_grid_node(&node(10_000, 0, 601, 800)), GroundType::Sand);
    assert_eq!(GroundType::from_grid_node(&node(-1, 0, 401, 0)), GroundType::Sand);
    assert_eq!(GroundType::from_grid_node(&node(24_999, 0, 299, 0)), GroundType::Swamp);
    assert_eq!(GroundType::from_grid_node(&node(4_999, 0, 399, 0)), GroundType::Swamp);
    assert_eq!(GroundType::from_grid_node(&node(40_000, 0, 99, 0)), GroundType::Swamp);
    assert_eq!(GroundType::from_grid_node(&node(-1_001, 0, 400, 0)), GroundType::Sand);
    assert_eq!(GroundType::from_grid_node(&node(-1_000, 0, 400, 0)), GroundType::Grass);
    assert_eq!(GroundType::from_grid_node(&node(30_000, 0, 300, 0)), GroundType::Grass);
    assert_eq!(GroundType::from_grid_node(&node(45_000, 0, 600, 800)), GroundType::Grass);
}

#[test]
fn ground_cover_from_a_draw() {
    assert_eq!(GroundType::from_draw(0), GroundType::Grass);
    assert_eq!(GroundType::from_draw(1), GroundType::Rock);
    assert_eq!(GroundType::from_draw(2), GroundType::Sand);
    assert_eq!(GroundType::from_draw(3), GroundType::Swamp);
    assert_eq!(GroundType::from_draw(4), GroundType::Snow);
    assert_eq!(GroundType::from_draw(5), GroundType::Grass);
    assert_eq!(GroundType::from_draw(-1), GroundType::Grass);
    let mut source = StdRng::seed_from_u64(41);
    let mut seen: Vec<GroundType> = vec![];
    let mut i = 0;
    while i < 200 {
        let cover = GroundType::random(&mut source);
        if !seen.contains(&cover) {
            seen.push(cover);
        }
        i += 1;
    }
    assert_eq!(seen.len(), 5);
}

#[test]
fn local_height_compares_a_node_with_its_neighbourhood() {
    let flat = Terrain::empty();
    assert_eq!(flat.local_height(0, 0), 0);
    assert_eq!(flat.local_height(99, 99), 0);
    // a single peak of 9 on a 3 x 3 grid: every neighbourhood is the whole grid
    let peak = Terrain { rows: 3, heights: vec![0, 0, 0, 0, 9_000, 0, 0, 0, 0] };
    assert_eq!(peak.local_height(1, 1), 8_000);
    assert_eq!(peak.local_height(0, 0), -1_000);
    assert_eq!(peak.local_height(2, 1), -1_000);
    // on a 4 x 4 grid the neighbourhood of a corner wraps around both edges
    let mut heights: Vec<i64> = vec![0; 16];
    heights[15] = 900;
    heights[5] = 1_800;
    let wide = Terrain { rows: 4, heights };
    assert_eq!(wide.local_height(0, 0), -300);
    assert_eq!(wide.local_height(3, 3), 800);
    assert_eq!(wide.local_height(2, 2), -300);
    assert_eq!(wide.local_height(1, 1), 1_600);
    assert_eq!(wide.local_height(0, 3), -100);
    // a grid of one node is its own neighbourhood nine times over
    let single = Terrain { rows: 1, heights: vec![-7_000] };
    assert_eq!(single.local_height(0, 0), 0);
    // sums round toward zero
    let rough = Terrain { rows: 3, heights: vec![-10, 0, 0, 0, 0, 0, 0, 0, 0] };
    assert_eq!(rough.local_height(1, 1), 1);
    assert_eq!(rough.local_height(0, 0), -9);
}

#[test]
fn exit_rule_spans_the_given_depths() {
    let rule = GenomeRule::exit_between(2_000, 4_500);
    assert_eq!(rule, GenomeRule { req: RuleReq::BranchDepthReq, min: 2_000, max: 4_500, outcome: RuleOutcome::Exit });
    let plant = bare_plant(branch(0, 0, 0, 0), 0, 0, 0, 0);
    let b = plant.branches[0];
    assert!(rule.evaluate(1, &b, &plant).is_none());
    assert_eq!(rule.evaluate(2, &b, &plant), Some(&RuleOutcome::Exit));
    assert_eq!(rule.evaluate(4, &b, &plant), Some(&RuleOutcome::Exit));
    assert!(rule.evaluate(5, &b, &plant).is_none());
}

#[test]
fn random_rules_differ_from_draw_to_draw() {
    let mut source = StdRng::seed_from_u64(17);
    let mut ends: Vec<i64> = vec![];
    let mut i = 0;
    while i < 50 {
        let rule = GenomeRule::random(&mut source);
        assert_eq!(rule, GenomeRule::exit_between(rule.min, rule.max));
        assert!(0 <= rule.min && rule.min < 20_000);
        assert!(0 <= rule.max && rule.max < 20_000);
        ends.push(rule.min);
        ends.push(rule.max);
        i += 1;
    }
    ends.sort();
    ends.dedup();
    assert!(ends.len() > 50);
}
