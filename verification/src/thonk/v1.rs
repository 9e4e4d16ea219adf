//! The branch-and-bound search: the earliest-minute table plus a
//! best-so-far bound that prunes hopeless states.

use std::collections::HashMap;

use vstd::prelude::*;

use crate::memo::{reaches, search_bounded};
use crate::search::{best, bounded, max2, start_spec, SearchState};
use crate::thonk::{costs_spec, Blueprint};

verus! {

/// The largest geode count any schedule can reach within the limit.
/// The byte-sized result type demands a search whose optimum fits it;
/// a combination that overflows a byte is a caller error.
pub fn solve(bp: &Blueprint, limit: u8) -> (r: u8)
    requires
        best(costs_spec(*bp), start_spec(), limit) <= u8::MAX,
    ensures
        r as int == best(costs_spec(*bp), start_spec(), limit),
{
    let costs = bp.costs();
    let start = SearchState::new();
    let mut memo: HashMap<u128, (u32, u8)> = HashMap::new();
    let mut max_result: u32 = 0;
    proof {
        reveal(crate::memo::memo_bb_inv);
        assert(bounded(start_spec(), limit));
        assert(reaches(costs_spec(*bp), start_spec(), start_spec(), limit));
        crate::memo::lemma_best_ge_geode(costs_spec(*bp), start_spec(), limit);
    }
    let r = search_bounded(start, &costs, limit, &mut memo, &mut max_result);
    proof {
        assert(best(costs_spec(*bp), start_spec(), limit) <= max2(r as int, 0));
    }
    r as u8
}

} // verus!
