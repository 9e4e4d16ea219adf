//! The greedy single-pass variant: each minute, build the most
//! advanced affordable robot.

use vstd::prelude::*;

use crate::baseline::{costs_spec, Blueprint};
use crate::search::{greedy_run_spec, search_greedy, start_spec};

verus! {

/// The geodes the greedy schedule has opened when the limit is
/// reached. Greedy is a heuristic: the result can fall short of the
/// search variants.
pub fn solve(bp: &Blueprint, limit: u8) -> (r: u32)
    ensures
        r == greedy_run_spec(costs_spec(*bp), start_spec(), limit as nat).geode,
{
    let costs = bp.costs();
    search_greedy(&costs, limit)
}

} // verus!
