//! The search memoized by robots-and-resources alone: an entry
//! recorded at an earlier minute answers for the same position reached
//! later, since less remaining time can never be worth more.

use std::collections::HashMap;

use vstd::prelude::*;

use crate::baseline::{costs_spec, Blueprint};
use crate::memo::{reaches, search_memo_earliest};
use crate::search::{best, bounded, start_spec, SearchState};

verus! {

/// The largest geode count any schedule can reach within the limit.
pub fn solve(bp: &Blueprint, limit: u8) -> (r: u32)
    ensures
        r as int == best(costs_spec(*bp), start_spec(), limit),
{
    let costs = bp.costs();
    let start = SearchState::new();
    let mut memo: HashMap<u128, (u32, u8)> = HashMap::new();
    proof {
        assert(bounded(start_spec(), limit));
        assert(reaches(costs_spec(*bp), start_spec(), start_spec(), limit));
    }
    let r = search_memo_earliest(start, &costs, limit, &mut memo);
    r
}

} // verus!
