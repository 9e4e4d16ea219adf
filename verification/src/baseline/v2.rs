//! The exhaustive recursive search, no table.

use vstd::prelude::*;

use crate::baseline::{costs_spec, Blueprint};
use crate::search::{best, bounded, search_plain, start_spec, SearchState};

verus! {

/// The largest geode count any schedule can reach within the limit.
pub fn solve(bp: &Blueprint, limit: u8) -> (r: u32)
    ensures
        r as int == best(costs_spec(*bp), start_spec(), limit),
{
    let costs = bp.costs();
    let start = SearchState::new();
    proof {
        assert(bounded(start_spec(), limit));
    }
    search_plain(start, &costs, limit)
}

} // verus!
