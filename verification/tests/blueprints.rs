//! Parsing blueprint descriptions and the solver variants.

use stack_vs_reg::baseline;
use stack_vs_reg::pack;
use stack_vs_reg::pack_u8;
use stack_vs_reg::thonk;

const EXAMPLE: &str = "Blueprint 1: Each ore robot costs 4 ore. Each clay robot costs 2 ore. Each obsidian robot costs 3 ore and 14 clay. Each geode robot costs 2 ore and 7 obsidian.\nBlueprint 2: Each ore robot costs 2 ore. Each clay robot costs 3 ore. Each obsidian robot costs 3 ore and 8 clay. Each geode robot costs 3 ore and 12 obsidian.\n";

#[test]
fn parse_example() {
    let bps = baseline::parse(EXAMPLE);
    assert_eq!(bps.len(), 2);
    assert_eq!(bps[0].id, 1);
    assert_eq!(bps[0].ore_robot, 4);
    assert_eq!(bps[0].clay_robot, 2);
    assert_eq!(bps[0].obsidian_robot, (3, 14));
    assert_eq!(bps[0].geode_robot, (2, 7));
    assert_eq!(bps[1].id, 2);
    assert_eq!(bps[1].ore_robot, 2);
    assert_eq!(bps[1].clay_robot, 3);
    assert_eq!(bps[1].obsidian_robot, (3, 8));
    assert_eq!(bps[1].geode_robot, (3, 12));
}

#[test]
fn parse_empty() {
    let bps = baseline::parse("");
    assert_eq!(bps.len(), 0);
}

#[test]
fn parse_without_trailing_newline() {
    let bps = baseline::parse("Blueprint 9: 1 2 3 4 5 6");
    assert_eq!(bps.len(), 1);
    assert_eq!(bps[0].id, 9);
    assert_eq!(bps[0].ore_robot, 1);
    assert_eq!(bps[0].geode_robot, (5, 6));
}

#[test]
fn parse_u8_example() {
    let bps = pack_u8::parse(EXAMPLE);
    assert_eq!(bps.len(), 2);
    assert_eq!(bps[0].id, 1u8);
    assert_eq!(bps[0].obsidian_robot, (3u8, 14u8));
    assert_eq!(bps[1].geode_robot, (3u8, 12u8));
}

#[test]
fn parse_thonk_example() {
    let bps = thonk::parse(EXAMPLE);
    assert_eq!(bps.len(), 2);
    assert_eq!(bps[0].max_ore_cost, 4);
    assert_eq!(bps[0].max_ore_cost(), 4);
    assert_eq!(bps[0].max_clay_cost(), 14);
    assert_eq!(bps[0].max_obsidian_cost(), 7);
    assert_eq!(bps[1].max_ore_cost, 3);
}

#[test]
fn pack_reexports_baseline() {
    let bps = pack::parse(EXAMPLE);
    assert_eq!(bps.len(), 2);
    let _bp: pack::Blueprint = bps[0];
}

/// A blueprint whose geode robot is free: the optimum is to build one
/// geode robot every minute, which opens 0 + 1 + ... + (limit - 1)
/// geodes; the greedy pass finds the same schedule.
fn free_geodes() -> baseline::Blueprint {
    baseline::Blueprint {
        id: 7,
        ore_robot: 1,
        clay_robot: 1,
        obsidian_robot: (1, 1),
        geode_robot: (0, 0),
    }
}

#[test]
fn solve_free_geodes_exact() {
    let bp = free_geodes();
    assert_eq!(baseline::v1::solve(&bp, 6), 15);
    assert_eq!(baseline::v2::solve(&bp, 6), 15);
    assert_eq!(baseline::v3::solve(&bp, 6), 15);
    assert_eq!(pack::v1::solve(&bp, 6), 15);
}

#[test]
fn solve_variants_agree_on_example() {
    let bps = baseline::parse(EXAMPLE);
    let bps8 = pack_u8::parse(EXAMPLE);
    let bpst = thonk::parse(EXAMPLE);
    for i in 0..bps.len() {
        let exhaustive = baseline::v2::solve(&bps[i], 12);
        assert_eq!(baseline::v3::solve(&bps[i], 12), exhaustive);
        assert_eq!(pack::v1::solve(&bps[i], 12), exhaustive);
        assert_eq!(pack_u8::v1::solve(&bps8[i], 12) as u32, exhaustive);
        assert_eq!(pack_u8::v2::solve(&bps8[i], 12) as u32, exhaustive);
        assert_eq!(thonk::v1::solve(&bpst[i], 12) as u32, exhaustive);
        // Greedy never beats the search.
        assert!(baseline::v1::solve(&bps[i], 12) <= exhaustive);
    }
}

#[test]
fn memo_variants_agree_deeper() {
    let bps = baseline::parse(EXAMPLE);
    let bpst = thonk::parse(EXAMPLE);
    for i in 0..bps.len() {
        let exact = baseline::v3::solve(&bps[i], 18);
        assert_eq!(pack::v1::solve(&bps[i], 18), exact);
        assert_eq!(thonk::v1::solve(&bpst[i], 18) as u32, exact);
    }
}

#[test]
fn greedy_can_fall_short() {
    // Greedy spends ore on a clay robot at the first opportunity and
    // delays the obsidian chain; the search does better on blueprint 1
    // of the example within 24 minutes.
    let bps = baseline::parse(EXAMPLE);
    let greedy = baseline::v1::solve(&bps[0], 24);
    let best = thonk::v1::solve(&thonk::parse(EXAMPLE)[0], 24) as u32;
    assert!(greedy <= best);
    assert_eq!(best, 9);
}

#[test]
fn part_1_example() {
    let bps = baseline::parse(EXAMPLE);
    let expected = 1 * baseline::v3::solve(&bps[0], 12) as u64
        + 2 * baseline::v3::solve(&bps[1], 12) as u64;
    assert_eq!(baseline::part_1(&bps, 12), expected);
}

#[test]
fn part_1_free_geodes() {
    let bps = vec![free_geodes()];
    assert_eq!(baseline::part_1(&bps, 6), 7 * 15);
}
