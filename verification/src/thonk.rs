//! Blueprint solving with branch-and-bound: the search keeps the best
//! result seen so far and prunes any state whose most optimistic
//! future cannot beat it.

pub mod v1;

use vstd::prelude::*;
use vstd::string::StringSliceAdditionalSpecFns;

use crate::scan::{digit_runs, line_count, run_value, scan_values};
use crate::search::Costs;

verus! {

/// One robot-factory blueprint with byte-sized costs, carrying the
/// largest ore cost over all robot kinds.
/// `obsidian_robot` is (ore, clay); `geode_robot` is (ore, obsidian).
#[derive(Clone, Copy, Debug)]
pub struct Blueprint {
    pub id: u8,
    pub ore_robot: u8,
    pub clay_robot: u8,
    pub obsidian_robot: (u8, u8),
    pub geode_robot: (u8, u8),
    pub max_ore_cost: u8,
}

/// The largest of the four ore costs.
pub open spec fn max_ore_spec(bp: Blueprint) -> u8 {
    let a = if bp.ore_robot >= bp.clay_robot {
        bp.ore_robot
    } else {
        bp.clay_robot
    };
    let b = if a >= bp.obsidian_robot.0 {
        a
    } else {
        bp.obsidian_robot.0
    };
    if b >= bp.geode_robot.0 {
        b
    } else {
        bp.geode_robot.0
    }
}

impl Blueprint {
    /// The most ore any single build can spend.
    pub fn max_ore_cost(&self) -> (r: u8)
        ensures
            r == self.max_ore_cost,
    {
        self.max_ore_cost
    }

    /// The most clay any single build can spend.
    pub fn max_clay_cost(&self) -> (r: u8)
        ensures
            r == self.obsidian_robot.1,
    {
        self.obsidian_robot.1
    }

    /// The most obsidian any single build can spend.
    pub fn max_obsidian_cost(&self) -> (r: u8)
        ensures
            r == self.geode_robot.1,
    {
        self.geode_robot.1
    }

    /// The cost table this blueprint induces.
    pub fn costs(&self) -> (c: Costs)
        ensures
            c == costs_spec(*self),
    {
        Costs {
            ore_robot_ore: self.ore_robot as u32,
            clay_robot_ore: self.clay_robot as u32,
            obsidian_robot_ore: self.obsidian_robot.0 as u32,
            obsidian_robot_clay: self.obsidian_robot.1 as u32,
            geode_robot_ore: self.geode_robot.0 as u32,
            geode_robot_obsidian: self.geode_robot.1 as u32,
        }
    }
}

/// The cost table a blueprint induces.
pub open spec fn costs_spec(bp: Blueprint) -> Costs {
    Costs {
        ore_robot_ore: bp.ore_robot as u32,
        clay_robot_ore: bp.clay_robot as u32,
        obsidian_robot_ore: bp.obsidian_robot.0 as u32,
        obsidian_robot_clay: bp.obsidian_robot.1 as u32,
        geode_robot_ore: bp.geode_robot.0 as u32,
        geode_robot_obsidian: bp.geode_robot.1 as u32,
    }
}

/// The seven numbers of line `i`, with the derived largest ore cost.
pub open spec fn blueprint_of_line(s: Seq<u8>, i: int) -> Blueprint {
    let runs = digit_runs(s);
    let base = Blueprint {
        id: run_value(s, runs[7 * i].0, runs[7 * i].1) as u8,
        ore_robot: run_value(s, runs[7 * i + 1].0, runs[7 * i + 1].1) as u8,
        clay_robot: run_value(s, runs[7 * i + 2].0, runs[7 * i + 2].1) as u8,
        obsidian_robot: (
            run_value(s, runs[7 * i + 3].0, runs[7 * i + 3].1) as u8,
            run_value(s, runs[7 * i + 4].0, runs[7 * i + 4].1) as u8,
        ),
        geode_robot: (
            run_value(s, runs[7 * i + 5].0, runs[7 * i + 5].1) as u8,
            run_value(s, runs[7 * i + 6].0, runs[7 * i + 6].1) as u8,
        ),
        max_ore_cost: 0,
    };
    Blueprint { max_ore_cost: max_ore_spec(base), ..base }
}

/// Parse a blueprint description, deriving each blueprint's largest
/// ore cost. A text with any other shape, or with numbers above 255,
/// is a caller error.
pub fn parse(input: &str) -> (result: Vec<Blueprint>)
    requires
        input.is_ascii(),
        crate::baseline::parsable(input.spec_bytes(), u8::MAX as int),
    ensures
        result@.len() == line_count(input.spec_bytes()),
        forall|i: int|
            0 <= i < result@.len() ==> #[trigger] result@[i] == blueprint_of_line(
                input.spec_bytes(),
                i,
            ),
{
    let ghost s = input.spec_bytes();
    let values = scan_values(input, Ghost(u8::MAX as int));
    let mut result: Vec<Blueprint> = Vec::new();
    let n = values.len() / 7;
    proof {
        assert(values@.len() == 7 * line_count(s));
        assert(7 * line_count(s) / 7 == line_count(s)) by (nonlinear_arith);
    }
    let mut i: usize = 0;
    while i < n
        invariant
            s == input.spec_bytes(),
            n == line_count(s),
            values@.len() == 7 * n,
            values@.len() <= usize::MAX,
            crate::scan::values_bounded(s, u8::MAX as int),
            forall|j: int|
                0 <= j < values@.len() ==> #[trigger] values@[j] == run_value(
                    s,
                    digit_runs(s)[j].0,
                    digit_runs(s)[j].1,
                ),
            i <= n,
            result@.len() == i,
            forall|t: int| 0 <= t < i ==> #[trigger] result@[t] == blueprint_of_line(s, t),
        decreases n - i,
    {
        proof {
            assert(7 * i + 6 < 7 * n) by (nonlinear_arith)
                requires
                    i < n,
            ;
            crate::scan::lemma_digit_runs_in_range(s, 0);
        }
        let base = 7 * i;
        let ore_robot = values[base + 1] as u8;
        let clay_robot = values[base + 2] as u8;
        let obsidian_ore = values[base + 3] as u8;
        let geode_ore = values[base + 5] as u8;
        let a = if ore_robot >= clay_robot {
            ore_robot
        } else {
            clay_robot
        };
        let b = if a >= obsidian_ore {
            a
        } else {
            obsidian_ore
        };
        let max_ore = if b >= geode_ore {
            b
        } else {
            geode_ore
        };
        result.push(
            Blueprint {
                id: values[base] as u8,
                ore_robot,
                clay_robot,
                obsidian_robot: (obsidian_ore, values[base + 4] as u8),
                geode_robot: (geode_ore, values[base + 6] as u8),
                max_ore_cost: max_ore,
            },
        );
        i = i + 1;
    }
    result
}

} // verus!
