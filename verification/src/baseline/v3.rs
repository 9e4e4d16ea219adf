//! The exhaustive search with an exact memo table.

use std::collections::HashMap;

use vstd::prelude::*;

use crate::baseline::{costs_spec, Blueprint};
use crate::memo::search_memo;
use crate::search::{best, bounded, start_spec, SearchState};

verus! {

/// The largest geode count any schedule can reach within the limit,
/// computed with one memo entry per visited state.
pub fn solve(bp: &Blueprint, limit: u8) -> (r: u32)
    ensures
        r as int == best(costs_spec(*bp), start_spec(), limit),
{
    let costs = bp.costs();
    let start = SearchState::new();
    let mut memo: HashMap<u128, u32> = HashMap::new();
    proof {
        assert(bounded(start_spec(), limit));
    }
    search_memo(start, &costs, limit, &mut memo)
}

} // verus!
