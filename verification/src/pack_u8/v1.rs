//! The search memoized by robots-and-resources alone, with byte-sized
//! blueprints: an entry recorded at an earlier minute answers for the
//! same position reached later.

use std::collections::HashMap;

use vstd::prelude::*;

use crate::memo::{reaches, search_memo_earliest};
use crate::pack_u8::{costs_spec, Blueprint};
use crate::search::{best, bounded, start_spec, SearchState};

verus! {

/// The largest geode count any schedule can reach within the limit.
/// The byte-sized result type demands a search whose optimum fits it;
/// a combination that overflows a byte is a caller error.
pub fn solve(bp: &Blueprint, limit: u8) -> (r: u8)
    requires
        best(costs_spec(*bp), start_spec(), limit) <= u8::MAX,
    ensures
        r as int == best(costs_spec(*bp), start_spec(), limit),
{
    let costs = bp.costs();
    let start = SearchState::new();
    let mut memo: HashMap<u128, (u32, u8)> = HashMap::new();
    proof {
        assert(bounded(start_spec(), limit));
        assert(reaches(costs_spec(*bp), start_spec(), start_spec(), limit));
    }
    let r = search_memo_earliest(start, &costs, limit, &mut memo);
    proof {
        crate::memo::lemma_best_ge_geode(costs_spec(*bp), start_spec(), limit);
    }
    r as u8
}

} // verus!
