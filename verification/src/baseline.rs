//! Blueprint solving with 32-bit quantities: the straightforward
//! greedy pass, the exhaustive search, and the exhaustively memoized
//! search.

pub mod v1;
pub mod v2;
pub mod v3;

use vstd::prelude::*;
use vstd::string::StringSliceAdditionalSpecFns;

use crate::scan::{digit_runs, evenly_lined, line_count, run_value, scan_values, values_bounded};
use crate::search::Costs;

verus! {

/// One robot-factory blueprint: what each robot kind costs.
/// `obsidian_robot` is (ore, clay); `geode_robot` is (ore, obsidian).
#[derive(Clone, Copy, Debug)]
pub struct Blueprint {
    pub id: u32,
    pub ore_robot: u32,
    pub clay_robot: u32,
    pub obsidian_robot: (u32, u32),
    pub geode_robot: (u32, u32),
}

/// The cost table a blueprint induces.
pub open spec fn costs_spec(bp: Blueprint) -> Costs {
    Costs {
        ore_robot_ore: bp.ore_robot,
        clay_robot_ore: bp.clay_robot,
        obsidian_robot_ore: bp.obsidian_robot.0,
        obsidian_robot_clay: bp.obsidian_robot.1,
        geode_robot_ore: bp.geode_robot.0,
        geode_robot_obsidian: bp.geode_robot.1,
    }
}

impl Blueprint {
    /// The cost table this blueprint induces.
    pub fn costs(&self) -> (c: Costs)
        ensures
            c == costs_spec(*self),
    {
        Costs {
            ore_robot_ore: self.ore_robot,
            clay_robot_ore: self.clay_robot,
            obsidian_robot_ore: self.obsidian_robot.0,
            obsidian_robot_clay: self.obsidian_robot.1,
            geode_robot_ore: self.geode_robot.0,
            geode_robot_obsidian: self.geode_robot.1,
        }
    }
}

/// The seven numbers of each line, in the order a blueprint
/// description lists them: id, ore-robot ore, clay-robot ore,
/// obsidian-robot ore and clay, geode-robot ore and obsidian.
pub open spec fn blueprint_of_line(s: Seq<u8>, i: int) -> Blueprint {
    let runs = digit_runs(s);
    Blueprint {
        id: run_value(s, runs[7 * i].0, runs[7 * i].1) as u32,
        ore_robot: run_value(s, runs[7 * i + 1].0, runs[7 * i + 1].1) as u32,
        clay_robot: run_value(s, runs[7 * i + 2].0, runs[7 * i + 2].1) as u32,
        obsidian_robot: (
            run_value(s, runs[7 * i + 3].0, runs[7 * i + 3].1) as u32,
            run_value(s, runs[7 * i + 4].0, runs[7 * i + 4].1) as u32,
        ),
        geode_robot: (
            run_value(s, runs[7 * i + 5].0, runs[7 * i + 5].1) as u32,
            run_value(s, runs[7 * i + 6].0, runs[7 * i + 6].1) as u32,
        ),
    }
}

/// A text the parser accepts: ASCII, exactly seven
/// numbers on every line, every number within `bound`.
pub open spec fn parsable(s: Seq<u8>, bound: int) -> bool {
    &&& evenly_lined(s, 7)
    &&& values_bounded(s, bound)
}

/// Parse a blueprint description: one blueprint per line, seven
/// numbers each. A text with any other shape, or with numbers too
/// large for the field type, is a caller error.
pub fn parse(input: &str) -> (result: Vec<Blueprint>)
    requires
        input.is_ascii(),
        parsable(input.spec_bytes(), u32::MAX as int),
    ensures
        result@.len() == line_count(input.spec_bytes()),
        forall|i: int|
            0 <= i < result@.len() ==> #[trigger] result@[i] == blueprint_of_line(
                input.spec_bytes(),
                i,
            ),
{
    let ghost s = input.spec_bytes();
    let values = scan_values(input, Ghost(u32::MAX as int));
    let mut result: Vec<Blueprint> = Vec::new();
    let n = values.len() / 7;
    proof {
        assert(values@.len() == 7 * line_count(s));
        assert(7 * line_count(s) / 7 == line_count(s)) by (nonlinear_arith);
    }
    let mut i: usize = 0;
    while i < n
        invariant
            s == input.spec_bytes(),
            n == line_count(s),
            values@.len() == 7 * n,
            values@.len() <= usize::MAX,
            forall|j: int|
                0 <= j < values@.len() ==> #[trigger] values@[j] == run_value(
                    s,
                    digit_runs(s)[j].0,
                    digit_runs(s)[j].1,
                ),
            i <= n,
            result@.len() == i,
            forall|t: int| 0 <= t < i ==> #[trigger] result@[t] == blueprint_of_line(s, t),
        decreases n - i,
    {
        proof {
            assert(7 * i + 6 < 7 * n) by (nonlinear_arith)
                requires
                    i < n,
            ;
        }
        let base = 7 * i;
        result.push(
            Blueprint {
                id: values[base],
                ore_robot: values[base + 1],
                clay_robot: values[base + 2],
                obsidian_robot: (values[base + 3], values[base + 4]),
                geode_robot: (values[base + 5], values[base + 6]),
            },
        );
        i = i + 1;
    }
    result
}

/// The total quality over a set of blueprints: each blueprint's id
/// times the geodes its optimal schedule opens within the limit.
pub open spec fn quality_sum(bps: Seq<Blueprint>, limit: u8) -> int
    decreases bps.len(),
{
    if bps.len() == 0 {
        0
    } else {
        quality_sum(bps.drop_last(), limit) + bps.last().id * crate::search::best(
            costs_spec(bps.last()),
            crate::search::start_spec(),
            limit,
        )
    }
}

/// The quality sum is nonnegative and far below the 64-bit range.
proof fn lemma_quality_bound(bps: Seq<Blueprint>, limit: u8)
    ensures
        0 <= quality_sum(bps, limit) <= bps.len() * (0x1_0000_0000 * 0x40000),
    decreases bps.len(),
{
    if bps.len() == 0 {
    } else {
        lemma_quality_bound(bps.drop_last(), limit);
        let bp = bps.last();
        let b = crate::search::best(costs_spec(bp), crate::search::start_spec(), limit);
        crate::memo::lemma_best_le_bound(costs_spec(bp), crate::search::start_spec(), limit);
        assert(bps.last().id * b <= 0x1_0000_0000 * 0x40000 && 0 <= bps.last().id * b)
            by (nonlinear_arith)
            requires
                0 <= b <= 0x40000,
                0 <= bps.last().id < 0x1_0000_0000,
        ;
        assert((bps.len() - 1) * (0x1_0000_0000 * 0x40000) + 0x1_0000_0000 * 0x40000 == bps.len()
            * (0x1_0000_0000 * 0x40000)) by (nonlinear_arith);
    }
}

/// Sum the quality of every blueprint in the set, each searched with
/// the exhaustively memoized engine.
pub fn part_1(bps: &Vec<Blueprint>, limit: u8) -> (total: u64)
    requires
        bps@.len() <= 1024,
    ensures
        total as int == quality_sum(bps@, limit),
{
    let mut total: u64 = 0;
    let mut i: usize = 0;
    proof {
        lemma_quality_bound(bps@, limit);
    }
    while i < bps.len()
        invariant
            bps@.len() <= 1024,
            i <= bps@.len(),
            total as int == quality_sum(bps@.subrange(0, i as int), limit),
        decreases bps@.len() - i,
    {
        proof {
            lemma_quality_bound(bps@.subrange(0, i as int), limit);
            lemma_quality_bound(bps@.subrange(0, i + 1), limit);
            assert(bps@.subrange(0, i + 1).drop_last() =~= bps@.subrange(0, i as int));
            assert(bps@.subrange(0, i + 1).last() == bps@[i as int]);
        }
        let geodes = v3::solve(&bps[i], limit);
        proof {
            crate::memo::lemma_best_le_bound(
                costs_spec(bps@[i as int]),
                crate::search::start_spec(),
                limit,
            );
            assert(bps@[i as int].id * geodes <= 0x1_0000_0000 * 0x40000 && 0 <= bps@[i as int].id
                * geodes) by (nonlinear_arith)
                requires
                    0 <= geodes <= 0x40000,
                    0 <= bps@[i as int].id < 0x1_0000_0000,
            ;
            assert((i as int) * (0x1_0000_0000 * 0x40000) + 0x1_0000_0000 * 0x40000 <= 1024 * (
            0x1_0000_0000 * 0x40000)) by (nonlinear_arith)
                requires
                    0 <= i < 1024,
            ;
        }
        total = total + (bps[i].id as u64) * (geodes as u64);
        i = i + 1;
    }
    proof {
        assert(bps@.subrange(0, bps@.len() as int) =~= bps@);
    }
    total
}

} // verus!
