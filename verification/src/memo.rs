//! Memoized search engines.
//!
//! A bounded state packs into a single integer key, so the memo tables
//! are keyed by plain `u128` values. Three engines share the model in
//! `search`: an exact table keyed by the whole state, a table keyed by
//! everything but the minute that reuses results recorded at an
//! earlier minute, and the latter strengthened with a best-so-far
//! bound that prunes hopeless branches.

use std::collections::HashMap;

use vstd::prelude::*;

use crate::search::{
    best, bounded, build_clay_spec, build_geode_spec, build_obsidian_spec, build_ore_spec,
    can_build_clay_spec, can_build_geode_spec, can_build_obsidian_spec, can_build_ore_spec,
    lemma_children_bounded, lemma_tri_small, max2, start_spec, step_spec, Costs, SearchState,
};

verus! {

/// All the packed fields fit their digit, with room to spare.
pub open spec fn small_fields(s: SearchState) -> bool {
    &&& s.minute < 512
    &&& s.ore_robot < 512
    &&& s.clay_robot < 512
    &&& s.obsidian_robot < 512
    &&& s.geode_robot < 512
    &&& s.ore < 65536
    &&& s.clay < 65536
    &&& s.obsidian < 65536
    &&& s.geode < 65536
}

/// A bounded state has small fields.
pub proof fn lemma_bounded_small(s: SearchState, limit: u8)
    requires
        bounded(s, limit),
    ensures
        small_fields(s),
{
    lemma_tri_small(s.minute as int);
}

/// The robots and resources of a state, packed as digits of one
/// integer; the minute is left out.
pub open spec fn pack_key(s: SearchState) -> int {
    s.ore_robot + 512 * (s.clay_robot + 512 * (s.obsidian_robot + 512 * (s.geode_robot + 65536 * (
    s.ore + 65536 * (s.clay + 65536 * (s.obsidian + 65536 * s.geode))))))
}

/// The whole state, minute included, packed as one integer.
pub open spec fn state_key(s: SearchState) -> int {
    s.minute + 512 * pack_key(s)
}

/// Splitting the lowest digit of a mixed-radix number is unambiguous.
proof fn lemma_split_digit(a1: int, b1: int, a2: int, b2: int, r: int)
    requires
        0 <= a1 < r,
        0 <= a2 < r,
        0 <= b1,
        0 <= b2,
        a1 + r * b1 == a2 + r * b2,
    ensures
        a1 == a2,
        b1 == b2,
{
    assert(a1 == a2 && b1 == b2) by (nonlinear_arith)
        requires
            0 <= a1 < r,
            0 <= a2 < r,
            0 <= b1,
            0 <= b2,
            a1 + r * b1 == a2 + r * b2,
    ;
}

/// Two small states with the same packed robots and resources agree on
/// every packed field.
pub proof fn lemma_pack_key_injective(s1: SearchState, s2: SearchState)
    requires
        small_fields(s1),
        small_fields(s2),
        pack_key(s1) == pack_key(s2),
    ensures
        s1.ore_robot == s2.ore_robot,
        s1.clay_robot == s2.clay_robot,
        s1.obsidian_robot == s2.obsidian_robot,
        s1.geode_robot == s2.geode_robot,
        s1.ore == s2.ore,
        s1.clay == s2.clay,
        s1.obsidian == s2.obsidian,
        s1.geode == s2.geode,
{
    let x1 = s1.clay_robot + 512 * (s1.obsidian_robot + 512 * (s1.geode_robot + 65536 * (s1.ore
        + 65536 * (s1.clay + 65536 * (s1.obsidian + 65536 * s1.geode)))));
    let x2 = s2.clay_robot + 512 * (s2.obsidian_robot + 512 * (s2.geode_robot + 65536 * (s2.ore
        + 65536 * (s2.clay + 65536 * (s2.obsidian + 65536 * s2.geode)))));
    lemma_split_digit(s1.ore_robot as int, x1, s2.ore_robot as int, x2, 512);
    let y1 = s1.obsidian_robot + 512 * (s1.geode_robot + 65536 * (s1.ore + 65536 * (s1.clay + 65536
        * (s1.obsidian + 65536 * s1.geode))));
    let y2 = s2.obsidian_robot + 512 * (s2.geode_robot + 65536 * (s2.ore + 65536 * (s2.clay + 65536
        * (s2.obsidian + 65536 * s2.geode))));
    lemma_split_digit(s1.clay_robot as int, y1, s2.clay_robot as int, y2, 512);
    let z1 = s1.geode_robot + 65536 * (s1.ore + 65536 * (s1.clay + 65536 * (s1.obsidian + 65536
        * s1.geode)));
    let z2 = s2.geode_robot + 65536 * (s2.ore + 65536 * (s2.clay + 65536 * (s2.obsidian + 65536
        * s2.geode)));
    lemma_split_digit(s1.obsidian_robot as int, z1, s2.obsidian_robot as int, z2, 512);
    let u1 = s1.ore + 65536 * (s1.clay + 65536 * (s1.obsidian + 65536 * s1.geode));
    let u2 = s2.ore + 65536 * (s2.clay + 65536 * (s2.obsidian + 65536 * s2.geode));
    lemma_split_digit(s1.geode_robot as int, u1, s2.geode_robot as int, u2, 512);
    let v1 = s1.clay + 65536 * (s1.obsidian + 65536 * s1.geode);
    let v2 = s2.clay + 65536 * (s2.obsidian + 65536 * s2.geode);
    lemma_split_digit(s1.ore as int, v1, s2.ore as int, v2, 65536);
    let w1 = s1.obsidian + 65536 * s1.geode;
    let w2 = s2.obsidian + 65536 * s2.geode;
    lemma_split_digit(s1.clay as int, w1, s2.clay as int, w2, 65536);
    lemma_split_digit(s1.obsidian as int, s1.geode as int, s2.obsidian as int, s2.geode as int,
        65536);
}

/// Packed keys are nonnegative and far below the `u128` range.
pub proof fn lemma_key_range(s: SearchState)
    requires
        small_fields(s),
    ensures
        0 <= pack_key(s) < 0x1_0000_0000_0000_0000_0000_0000_0000_0000int,
        0 <= state_key(s) < 0x1_0000_0000_0000_0000_0000_0000_0000_0000int,
{
}

/// Two small states with the same whole-state key are equal in every
/// packed field and in the minute.
pub proof fn lemma_state_key_injective(s1: SearchState, s2: SearchState)
    requires
        small_fields(s1),
        small_fields(s2),
        state_key(s1) == state_key(s2),
    ensures
        s1 == s2,
{
    lemma_key_range(s1);
    lemma_key_range(s2);
    lemma_split_digit(s1.minute as int, pack_key(s1), s2.minute as int, pack_key(s2), 512);
    lemma_pack_key_injective(s1, s2);
}

/// Compute the packed robots-and-resources key.
fn pack_key_exec(s: &SearchState) -> (k: u128)
    requires
        small_fields(*s),
    ensures
        k as int == pack_key(*s),
{
    let t: u128 = s.geode as u128;
    let t: u128 = s.obsidian as u128 + 65536 * t;
    let t: u128 = s.clay as u128 + 65536 * t;
    let t: u128 = s.ore as u128 + 65536 * t;
    let t: u128 = s.geode_robot as u128 + 65536 * t;
    let t: u128 = s.obsidian_robot as u128 + 512 * t;
    let t: u128 = s.clay_robot as u128 + 512 * t;
    let t: u128 = s.ore_robot as u128 + 512 * t;
    t
}

/// Compute the packed whole-state key.
fn state_key_exec(s: &SearchState) -> (k: u128)
    requires
        small_fields(*s),
    ensures
        k as int == state_key(*s),
{
    let t = pack_key_exec(s);
    s.minute as u128 + 512 * t
}

/// The exact memo table is correct: every entry records the optimal
/// value of the state its key packs.
pub open spec fn memo_exact_inv(m: Map<u128, u32>, bp: Costs, limit: u8) -> bool {
    forall|s: SearchState|
        bounded(s, limit) && #[trigger] m.contains_key((state_key(s) as u128)) ==> m[(state_key(s)
            as u128)] as int == best(bp, s, limit)
}

/// The exhaustive search with an exact memo table: identical results
/// to `search_plain`, one table entry per visited state.
pub fn search_memo(s: SearchState, bp: &Costs, limit: u8, memo: &mut HashMap<u128, u32>) -> (r:
    u32)
    requires
        bounded(s, limit),
        memo_exact_inv(old(memo)@, *bp, limit),
    ensures
        memo_exact_inv(final(memo)@, *bp, limit),
        r as int == best(*bp, s, limit),
    decreases limit - s.minute,
{
    proof {
        lemma_bounded_small(s, limit);
    }
    let key = state_key_exec(&s);
    proof {
        lemma_key_range(s);
        assert(key == (state_key(s) as u128));
    }
    if let Some(v) = memo.get(&key) {
        return *v;
    }
    let mut result: u32;
    if s.minute >= limit as u32 {
        result = s.geode;
    } else {
        proof {
            lemma_children_bounded(s, *bp, limit);
        }
        let stepped = s.step(limit);
        result = search_memo(stepped, bp, limit, memo);
        if s.can_build_geode_robot(bp) {
            let c = search_memo(stepped.build_geode_robot(bp, limit), bp, limit, memo);
            if c > result {
                result = c;
            }
        }
        if s.can_build_obsidian_robot(bp) {
            let c = search_memo(stepped.build_obsidian_robot(bp, limit), bp, limit, memo);
            if c > result {
                result = c;
            }
        }
        if s.can_build_clay_robot(bp) {
            let c = search_memo(stepped.build_clay_robot(bp, limit), bp, limit, memo);
            if c > result {
                result = c;
            }
        }
        if s.can_build_ore_robot(bp) {
            let c = search_memo(stepped.build_ore_robot(bp, limit), bp, limit, memo);
            if c > result {
                result = c;
            }
        }
    }
    let ghost pre = memo@;
    memo.insert(key, result);
    proof {
        assert forall|t: SearchState|
            bounded(t, limit) && #[trigger] memo@.contains_key((state_key(t) as u128)) implies memo@[(
        state_key(t) as u128)] as int == best(*bp, t, limit) by {
            lemma_bounded_small(t, limit);
            lemma_key_range(t);
            lemma_key_range(s);
            if state_key(t) as u128 == key {
                lemma_state_key_injective(t, s);
            } else {
                assert(pre.contains_key((state_key(t) as u128)));
            }
        }
    }
    result
}

/// `t` can be reached from `s` by some sequence of per-minute choices.
pub open spec fn reaches(bp: Costs, s: SearchState, t: SearchState, limit: u8) -> bool
    decreases limit - s.minute,
{
    ||| s == t
    ||| (s.minute < limit && {
        ||| reaches(bp, step_spec(s), t, limit)
        ||| (can_build_geode_spec(s, bp) && reaches(bp, build_geode_spec(step_spec(s), bp), t, limit))
        ||| (can_build_obsidian_spec(s, bp) && reaches(
            bp,
            build_obsidian_spec(step_spec(s), bp),
            t,
            limit,
        ))
        ||| (can_build_clay_spec(s, bp) && reaches(bp, build_clay_spec(step_spec(s), bp), t, limit))
        ||| (can_build_ore_spec(s, bp) && reaches(bp, build_ore_spec(step_spec(s), bp), t, limit))
    })
}

/// Reachability composes.
pub proof fn lemma_reaches_trans(bp: Costs, a: SearchState, b: SearchState, c: SearchState, limit: u8)
    requires
        reaches(bp, a, b, limit),
        reaches(bp, b, c, limit),
    ensures
        reaches(bp, a, c, limit),
    decreases limit - a.minute,
{
    if a == b {
    } else {
        let w = step_spec(a);
        if reaches(bp, w, b, limit) {
            lemma_reaches_trans(bp, w, b, c, limit);
        } else if can_build_geode_spec(a, bp) && reaches(bp, build_geode_spec(w, bp), b, limit) {
            lemma_reaches_trans(bp, build_geode_spec(w, bp), b, c, limit);
        } else if can_build_obsidian_spec(a, bp) && reaches(bp, build_obsidian_spec(w, bp), b, limit) {
            lemma_reaches_trans(bp, build_obsidian_spec(w, bp), b, c, limit);
        } else if can_build_clay_spec(a, bp) && reaches(bp, build_clay_spec(w, bp), b, limit) {
            lemma_reaches_trans(bp, build_clay_spec(w, bp), b, c, limit);
        } else {
            lemma_reaches_trans(bp, build_ore_spec(w, bp), b, c, limit);
        }
    }
}

/// Whatever is reachable is worth no more than where it was reached
/// from: `best` only ever takes maxima over reachable futures.
pub proof fn lemma_reaches_best(bp: Costs, s: SearchState, t: SearchState, limit: u8)
    requires
        reaches(bp, s, t, limit),
    ensures
        best(bp, t, limit) <= best(bp, s, limit),
    decreases limit - s.minute,
{
    if s == t {
    } else {
        let w = step_spec(s);
        if reaches(bp, w, t, limit) {
            lemma_reaches_best(bp, w, t, limit);
        } else if can_build_geode_spec(s, bp) && reaches(bp, build_geode_spec(w, bp), t, limit) {
            lemma_reaches_best(bp, build_geode_spec(w, bp), t, limit);
        } else if can_build_obsidian_spec(s, bp) && reaches(bp, build_obsidian_spec(w, bp), t, limit) {
            lemma_reaches_best(bp, build_obsidian_spec(w, bp), t, limit);
        } else if can_build_clay_spec(s, bp) && reaches(bp, build_clay_spec(w, bp), t, limit) {
            lemma_reaches_best(bp, build_clay_spec(w, bp), t, limit);
        } else {
            lemma_reaches_best(bp, build_ore_spec(w, bp), t, limit);
        }
    }
}

/// Pointwise dominance: same minute, at least as many robots of every
/// kind and at least as much of every resource.
pub open spec fn dominates(lo: SearchState, hi: SearchState) -> bool {
    &&& lo.minute == hi.minute
    &&& lo.ore_robot <= hi.ore_robot
    &&& lo.clay_robot <= hi.clay_robot
    &&& lo.obsidian_robot <= hi.obsidian_robot
    &&& lo.geode_robot <= hi.geode_robot
    &&& lo.ore <= hi.ore
    &&& lo.clay <= hi.clay
    &&& lo.obsidian <= hi.obsidian
    &&& lo.geode <= hi.geode
}

/// A dominated state is never worth more: everything the poorer state
/// can afford, the richer one can afford too, and every move preserves
/// dominance.
pub proof fn lemma_best_dominated(bp: Costs, lo: SearchState, hi: SearchState, limit: u8)
    requires
        bounded(lo, limit),
        bounded(hi, limit),
        dominates(lo, hi),
    ensures
        best(bp, lo, limit) <= best(bp, hi, limit),
    decreases limit - lo.minute,
{
    if lo.minute >= limit {
    } else {
        lemma_tri_small(lo.minute as int);
        lemma_tri_small(hi.minute as int);
        lemma_children_bounded(lo, bp, limit);
        lemma_children_bounded(hi, bp, limit);
        let wlo = step_spec(lo);
        let whi = step_spec(hi);
        lemma_best_dominated(bp, wlo, whi, limit);
        assert(best(bp, whi, limit) <= best(bp, hi, limit));
        if can_build_geode_spec(lo, bp) {
            lemma_best_dominated(bp, build_geode_spec(wlo, bp), build_geode_spec(whi, bp), limit);
            assert(best(bp, build_geode_spec(whi, bp), limit) <= best(bp, hi, limit));
        }
        if can_build_obsidian_spec(lo, bp) {
            lemma_best_dominated(
                bp,
                build_obsidian_spec(wlo, bp),
                build_obsidian_spec(whi, bp),
                limit,
            );
            assert(best(bp, build_obsidian_spec(whi, bp), limit) <= best(bp, hi, limit));
        }
        if can_build_clay_spec(lo, bp) {
            lemma_best_dominated(bp, build_clay_spec(wlo, bp), build_clay_spec(whi, bp), limit);
            assert(best(bp, build_clay_spec(whi, bp), limit) <= best(bp, hi, limit));
        }
        if can_build_ore_spec(lo, bp) {
            lemma_best_dominated(bp, build_ore_spec(wlo, bp), build_ore_spec(whi, bp), limit);
            assert(best(bp, build_ore_spec(whi, bp), limit) <= best(bp, hi, limit));
        }
    }
}

/// The same robots and resources are worth no more with less time
/// left: a result recorded at an earlier minute is an upper bound on
/// the same position reached later.
pub proof fn lemma_best_minute(bp: Costs, lo: SearchState, hi: SearchState, limit: u8)
    requires
        bounded(lo, limit),
        bounded(hi, limit),
        lo.minute <= hi.minute,
        lo.ore_robot == hi.ore_robot,
        lo.clay_robot == hi.clay_robot,
        lo.obsidian_robot == hi.obsidian_robot,
        lo.geode_robot == hi.geode_robot,
        lo.ore == hi.ore,
        lo.clay == hi.clay,
        lo.obsidian == hi.obsidian,
        lo.geode == hi.geode,
    ensures
        best(bp, hi, limit) <= best(bp, lo, limit),
    decreases hi.minute - lo.minute,
{
    if lo.minute == hi.minute {
        assert(lo == hi);
    } else {
        let mid = SearchState { minute: (lo.minute + 1) as u32, ..lo };
        lemma_tri_small(lo.minute as int);
        lemma_children_bounded(lo, bp, limit);
        assert(bounded(mid, limit));
        lemma_best_dominated(bp, mid, step_spec(lo), limit);
        assert(best(bp, step_spec(lo), limit) <= best(bp, lo, limit));
        lemma_best_minute(bp, mid, hi, limit);
    }
}

/// The geodes already gathered are never lost.
pub proof fn lemma_best_ge_geode(bp: Costs, s: SearchState, limit: u8)
    requires
        bounded(s, limit),
    ensures
        best(bp, s, limit) >= s.geode,
    decreases limit - s.minute,
{
    if s.minute >= limit {
    } else {
        lemma_tri_small(s.minute as int);
        lemma_children_bounded(s, bp, limit);
        lemma_best_ge_geode(bp, step_spec(s), limit);
    }
}

/// The earliest-minute memo table: an entry records, for some state
/// that was actually searched, its minute and its exact value; the
/// value never exceeds what the whole search can achieve.
pub open spec fn memo_earliest_inv(m: Map<u128, (u32, u8)>, bp: Costs, limit: u8) -> bool {
    forall|k: u128| #[trigger] m.contains_key(k) ==> exists|s: SearchState|
        {
            &&& bounded(s, limit)
            &&& #[trigger] pack_key(s) == k as int
            &&& s.minute == m[k].1 as u32
            &&& best(bp, s, limit) <= m[k].0 as int
            &&& m[k].0 as int <= best(bp, start_spec(), limit)
        }
}

/// The search with a table keyed by robots and resources alone: a hit
/// recorded at an earlier minute may overestimate the queried state,
/// but only by values the search really attains elsewhere, so the
/// total stays exact.
pub fn search_memo_earliest(
    s: SearchState,
    bp: &Costs,
    limit: u8,
    memo: &mut HashMap<u128, (u32, u8)>,
) -> (r: u32)
    requires
        bounded(s, limit),
        reaches(*bp, start_spec(), s, limit),
        memo_earliest_inv(old(memo)@, *bp, limit),
    ensures
        memo_earliest_inv(final(memo)@, *bp, limit),
        best(*bp, s, limit) <= r as int,
        r as int <= best(*bp, start_spec(), limit),
    decreases limit - s.minute,
{
    proof {
        lemma_bounded_small(s, limit);
        lemma_key_range(s);
    }
    let key = pack_key_exec(&s);
    let mut stored_minute: u8 = 0;
    let mut have_entry = false;
    if let Some(entry) = memo.get(&key) {
        have_entry = true;
        stored_minute = entry.1;
        if s.minute >= entry.1 as u32 {
            let r = entry.0;
            proof {
                let s_ins = choose|t: SearchState|
                    {
                        &&& bounded(t, limit)
                        &&& #[trigger] pack_key(t) == key as int
                        &&& t.minute == memo@[key].1 as u32
                        &&& best(*bp, t, limit) <= memo@[key].0 as int
                        &&& memo@[key].0 as int <= best(*bp, start_spec(), limit)
                    };
                lemma_bounded_small(s_ins, limit);
                lemma_pack_key_injective(s_ins, s);
                lemma_best_minute(*bp, s_ins, s, limit);
            }
            return r;
        }
    }
    let mut result: u32;
    if s.minute >= limit as u32 {
        result = s.geode;
        proof {
            lemma_reaches_best(*bp, start_spec(), s, limit);
        }
    } else {
        proof {
            lemma_children_bounded(s, *bp, limit);
            lemma_child_reaches(*bp, s, limit);
        }
        let stepped = s.step(limit);
        result = search_memo_earliest(stepped, bp, limit, memo);
        if s.can_build_geode_robot(bp) {
            let c = search_memo_earliest(stepped.build_geode_robot(bp, limit), bp, limit, memo);
            if c > result {
                result = c;
            }
        }
        if s.can_build_obsidian_robot(bp) {
            let c = search_memo_earliest(stepped.build_obsidian_robot(bp, limit), bp, limit, memo);
            if c > result {
                result = c;
            }
        }
        if s.can_build_clay_robot(bp) {
            let c = search_memo_earliest(stepped.build_clay_robot(bp, limit), bp, limit, memo);
            if c > result {
                result = c;
            }
        }
        if s.can_build_ore_robot(bp) {
            let c = search_memo_earliest(stepped.build_ore_robot(bp, limit), bp, limit, memo);
            if c > result {
                result = c;
            }
        }
    }
    let mut keep_old = false;
    if let Some(entry) = memo.get(&key) {
        if entry.1 as u32 <= s.minute {
            keep_old = true;
        }
    }
    if !keep_old {
        let ghost pre = memo@;
        memo.insert(key, (result, s.minute as u8));
        proof {
            assert forall|k2: u128| #[trigger] memo@.contains_key(k2) implies exists|t: SearchState|
                {
                    &&& bounded(t, limit)
                    &&& #[trigger] pack_key(t) == k2 as int
                    &&& t.minute == memo@[k2].1 as u32
                    &&& best(*bp, t, limit) <= memo@[k2].0 as int
                    &&& memo@[k2].0 as int <= best(*bp, start_spec(), limit)
                } by {
                if k2 == key {
                    assert(bounded(s, limit) && pack_key(s) == k2 as int && s.minute == memo@[k2].1
                        as u32 && best(*bp, s, limit) <= memo@[k2].0 as int && memo@[k2].0 as int
                        <= best(*bp, start_spec(), limit));
                } else {
                    assert(pre.contains_key(k2));
                    let t = choose|t: SearchState|
                        {
                            &&& bounded(t, limit)
                            &&& #[trigger] pack_key(t) == k2 as int
                            &&& t.minute == pre[k2].1 as u32
                            &&& best(*bp, t, limit) <= pre[k2].0 as int
                            &&& pre[k2].0 as int <= best(*bp, start_spec(), limit)
                        };
                    assert(bounded(t, limit) && pack_key(t) == k2 as int && t.minute == memo@[k2].1
                        as u32 && best(*bp, t, limit) <= memo@[k2].0 as int && memo@[k2].0 as int
                        <= best(*bp, start_spec(), limit));
                }
            }
        }
    }
    result
}

/// Every child that the search recurses into is itself reachable from
/// the start.
pub proof fn lemma_child_reaches(bp: Costs, s: SearchState, limit: u8)
    requires
        reaches(bp, start_spec(), s, limit),
        s.minute < limit,
    ensures
        reaches(bp, start_spec(), step_spec(s), limit),
        can_build_geode_spec(s, bp) ==> reaches(
            bp,
            start_spec(),
            build_geode_spec(step_spec(s), bp),
            limit,
        ),
        can_build_obsidian_spec(s, bp) ==> reaches(
            bp,
            start_spec(),
            build_obsidian_spec(step_spec(s), bp),
            limit,
        ),
        can_build_clay_spec(s, bp) ==> reaches(
            bp,
            start_spec(),
            build_clay_spec(step_spec(s), bp),
            limit,
        ),
        can_build_ore_spec(s, bp) ==> reaches(
            bp,
            start_spec(),
            build_ore_spec(step_spec(s), bp),
            limit,
        ),
{
    let w = step_spec(s);
    assert(reaches(bp, w, w, limit));
    assert(reaches(bp, s, w, limit));
    lemma_reaches_trans(bp, start_spec(), s, w, limit);
    if can_build_geode_spec(s, bp) {
        let c = build_geode_spec(w, bp);
        assert(reaches(bp, c, c, limit));
        assert(reaches(bp, s, c, limit));
        lemma_reaches_trans(bp, start_spec(), s, c, limit);
    }
    if can_build_obsidian_spec(s, bp) {
        let c = build_obsidian_spec(w, bp);
        assert(reaches(bp, c, c, limit));
        assert(reaches(bp, s, c, limit));
        lemma_reaches_trans(bp, start_spec(), s, c, limit);
    }
    if can_build_clay_spec(s, bp) {
        let c = build_clay_spec(w, bp);
        assert(reaches(bp, c, c, limit));
        assert(reaches(bp, s, c, limit));
        lemma_reaches_trans(bp, start_spec(), s, c, limit);
    }
    if can_build_ore_spec(s, bp) {
        let c = build_ore_spec(w, bp);
        assert(reaches(bp, c, c, limit));
        assert(reaches(bp, s, c, limit));
        lemma_reaches_trans(bp, start_spec(), s, c, limit);
    }
}

/// Twice the triangular number, with no division.
proof fn lemma_tri_double(m: int)
    requires
        0 <= m,
    ensures
        2 * crate::search::tri(m) == m * (m + 1),
    decreases m,
{
    if m > 0 {
        lemma_tri_double(m - 1);
        assert(crate::search::tri(m) == m + crate::search::tri(m - 1));
        assert(2 * (m + crate::search::tri(m - 1)) == m * (m + 1)) by (nonlinear_arith)
            requires
                2 * crate::search::tri(m - 1) == (m - 1) * m,
        ;
    } else {
        assert(crate::search::tri(0) == 0);
        assert(m * (m + 1) == 0) by (nonlinear_arith)
            requires
                m == 0,
        ;
    }
}

/// An admissible bound on the future: the geodes in hand, what the
/// current geode robots will still gather, and the most that building
/// one more geode robot every remaining minute could add.
pub open spec fn yield_bound(s: SearchState, limit: u8) -> int {
    s.geode + (limit - s.minute) * s.geode_robot + crate::search::tri(limit - s.minute - 1)
}

/// No strategy beats the bound.
pub proof fn lemma_yield_bound(bp: Costs, s: SearchState, limit: u8)
    requires
        bounded(s, limit),
    ensures
        best(bp, s, limit) <= yield_bound(s, limit),
    decreases limit - s.minute,
{
    let rem = limit - s.minute;
    let g = s.geode_robot as int;
    if s.minute >= limit {
    } else {
        lemma_tri_small(s.minute as int);
        lemma_children_bounded(s, bp, limit);
        let w = step_spec(s);
        assert(rem * g == (rem - 1) * g + g) by (nonlinear_arith);
        assert((rem - 1) * (g + 1) == (rem - 1) * g + (rem - 1)) by (nonlinear_arith);
        lemma_yield_bound(bp, w, limit);
        if can_build_geode_spec(s, bp) {
            lemma_yield_bound(bp, build_geode_spec(w, bp), limit);
        }
        if can_build_obsidian_spec(s, bp) {
            lemma_yield_bound(bp, build_obsidian_spec(w, bp), limit);
        }
        if can_build_clay_spec(s, bp) {
            lemma_yield_bound(bp, build_clay_spec(w, bp), limit);
        }
        if can_build_ore_spec(s, bp) {
            lemma_yield_bound(bp, build_ore_spec(w, bp), limit);
        }
    }
}

/// The bounded memo table: an entry's value is exact for the state it
/// was recorded at unless that value was already beaten by the running
/// best, and no entry exceeds what the whole search can achieve.
#[verifier::opaque]
pub open spec fn memo_bb_inv(m: Map<u128, (u32, u8)>, bp: Costs, limit: u8, mr: u32) -> bool {
    forall|k: u128| #[trigger] m.contains_key(k) ==> exists|s: SearchState|
        {
            &&& bounded(s, limit)
            &&& #[trigger] pack_key(s) == k as int
            &&& s.minute == m[k].1 as u32
            &&& (best(bp, s, limit) <= m[k].0 as int || best(bp, s, limit) <= mr as int)
            &&& m[k].0 as int <= best(bp, start_spec(), limit)
        }
}

/// A larger running best keeps the table invariant.
proof fn lemma_bb_inv_grows(m: Map<u128, (u32, u8)>, bp: Costs, limit: u8, mr1: u32, mr2: u32)
    requires
        memo_bb_inv(m, bp, limit, mr1),
        mr1 <= mr2,
    ensures
        memo_bb_inv(m, bp, limit, mr2),
{
    reveal(memo_bb_inv);
    assert forall|k: u128| #[trigger] m.contains_key(k) implies exists|s: SearchState|
        {
            &&& bounded(s, limit)
            &&& #[trigger] pack_key(s) == k as int
            &&& s.minute == m[k].1 as u32
            &&& (best(bp, s, limit) <= m[k].0 as int || best(bp, s, limit) <= mr2 as int)
            &&& m[k].0 as int <= best(bp, start_spec(), limit)
        } by {
        let s = choose|s: SearchState|
            {
                &&& bounded(s, limit)
                &&& #[trigger] pack_key(s) == k as int
                &&& s.minute == m[k].1 as u32
                &&& (best(bp, s, limit) <= m[k].0 as int || best(bp, s, limit) <= mr1 as int)
                &&& m[k].0 as int <= best(bp, start_spec(), limit)
            };
        assert(bounded(s, limit) && pack_key(s) == k as int && s.minute == m[k].1 as u32 && (best(
            bp,
            s,
            limit,
        ) <= m[k].0 as int || best(bp, s, limit) <= mr2 as int) && m[k].0 as int <= best(
            bp,
            start_spec(),
            limit,
        ));
    }
}

/// Record `(r, minute)` for `s` unless an entry from an earlier minute
/// is already there, preserving the table invariant.
fn bb_insert(
    memo: &mut HashMap<u128, (u32, u8)>,
    s: SearchState,
    r: u32,
    Ghost(bp): Ghost<Costs>,
    limit: u8,
    Ghost(mr): Ghost<u32>,
)
    requires
        bounded(s, limit),
        memo_bb_inv(old(memo)@, bp, limit, mr),
        best(bp, s, limit) <= r as int || best(bp, s, limit) <= mr as int,
        r as int <= best(bp, start_spec(), limit),
    ensures
        memo_bb_inv(final(memo)@, bp, limit, mr),
{
    proof {
        reveal(memo_bb_inv);
        lemma_bounded_small(s, limit);
        lemma_key_range(s);
    }
    let key = pack_key_exec(&s);
    let mut keep_old = false;
    if let Some(entry) = memo.get(&key) {
        if entry.1 as u32 <= s.minute {
            keep_old = true;
        }
    }
    if !keep_old {
        let ghost pre = memo@;
        memo.insert(key, (r, s.minute as u8));
        proof {
            assert forall|k2: u128| #[trigger] memo@.contains_key(k2) implies exists|
                t: SearchState,
            |
                {
                    &&& bounded(t, limit)
                    &&& #[trigger] pack_key(t) == k2 as int
                    &&& t.minute == memo@[k2].1 as u32
                    &&& (best(bp, t, limit) <= memo@[k2].0 as int || best(bp, t, limit) <= mr as int)
                    &&& memo@[k2].0 as int <= best(bp, start_spec(), limit)
                } by {
                if k2 == key {
                    assert(bounded(s, limit) && pack_key(s) == k2 as int && s.minute == memo@[k2].1
                        as u32 && (best(bp, s, limit) <= memo@[k2].0 as int || best(bp, s, limit)
                        <= mr as int) && memo@[k2].0 as int <= best(bp, start_spec(), limit));
                } else {
                    assert(pre.contains_key(k2));
                    let t = choose|t: SearchState|
                        {
                            &&& bounded(t, limit)
                            &&& #[trigger] pack_key(t) == k2 as int
                            &&& t.minute == pre[k2].1 as u32
                            &&& (best(bp, t, limit) <= pre[k2].0 as int || best(bp, t, limit) <= mr
                                as int)
                            &&& pre[k2].0 as int <= best(bp, start_spec(), limit)
                        };
                    assert(bounded(t, limit) && pack_key(t) == k2 as int && t.minute == memo@[k2].1
                        as u32 && (best(bp, t, limit) <= memo@[k2].0 as int || best(bp, t, limit)
                        <= mr as int) && memo@[k2].0 as int <= best(bp, start_spec(), limit));
                }
            }
        }
    }
}

/// The branch-and-bound search: the earliest-minute table plus a
/// running best that prunes branches whose bound cannot beat it. The
/// top-level result is still exact.
/// The branch-and-bound search: the earliest-minute table plus a
/// running best that prunes branches whose bound cannot beat it. The
/// top-level result is still exact.
#[verifier::rlimit(100)]
#[verifier::spinoff_prover]
pub fn search_bounded(
    s: SearchState,
    bp: &Costs,
    limit: u8,
    memo: &mut HashMap<u128, (u32, u8)>,
    max_result: &mut u32,
) -> (r: u32)
    requires
        bounded(s, limit),
        reaches(*bp, start_spec(), s, limit),
        memo_bb_inv(old(memo)@, *bp, limit, *old(max_result)),
        *old(max_result) as int <= best(*bp, start_spec(), limit),
    ensures
        memo_bb_inv(final(memo)@, *bp, limit, *final(max_result)),
        *final(max_result) as int == max2(*old(max_result) as int, r as int),
        best(*bp, s, limit) <= max2(r as int, *old(max_result) as int),
        r as int <= best(*bp, start_spec(), limit),
        *final(max_result) as int <= best(*bp, start_spec(), limit),
    decreases limit - s.minute, 1int,
{
    proof {
        lemma_bounded_small(s, limit);
        lemma_key_range(s);
        lemma_reaches_best(*bp, start_spec(), s, limit);
        lemma_best_ge_geode(*bp, s, limit);
    }
    let key = pack_key_exec(&s);
    if let Some(entry) = memo.get(&key) {
        if s.minute >= entry.1 as u32 {
            let r = entry.0;
            proof {
                reveal(memo_bb_inv);
                let s_ins = choose|t: SearchState|
                    {
                        &&& bounded(t, limit)
                        &&& #[trigger] pack_key(t) == key as int
                        &&& t.minute == memo@[key].1 as u32
                        &&& (best(*bp, t, limit) <= memo@[key].0 as int || best(*bp, t, limit)
                            <= *max_result as int)
                        &&& memo@[key].0 as int <= best(*bp, start_spec(), limit)
                    };
                lemma_bounded_small(s_ins, limit);
                lemma_pack_key_injective(s_ins, s);
                lemma_best_minute(*bp, s_ins, s, limit);
            }
            let ghost mr0 = *max_result;
            if r > *max_result {
                *max_result = r;
            }
            proof {
                lemma_bb_inv_grows(memo@, *bp, limit, mr0, *max_result);
            }
            return r;
        }
    }

    if s.minute >= limit as u32 {
        let result = s.geode;
        let ghost mr0 = *max_result;
        bb_insert(memo, s, result, Ghost(*bp), limit, Ghost(mr0));
        if result > *max_result {
            *max_result = result;
        }
        proof {
            lemma_bb_inv_grows(memo@, *bp, limit, mr0, *max_result);
        }
        return result;
    }

    let remaining = limit as u32 - s.minute;
    proof {
        lemma_tri_double(remaining - 1);
        lemma_tri_small(s.minute as int);
        assert((2 * crate::search::tri(remaining - 1)) / 2 == crate::search::tri(remaining - 1));
        assert(remaining * (remaining - 1) == 2 * crate::search::tri(remaining - 1))
            by (nonlinear_arith)
            requires
                2 * crate::search::tri(remaining - 1) == (remaining - 1) * remaining,
        ;
        assert(remaining * (remaining - 1) / 2 == crate::search::tri(remaining - 1));
        assert(remaining * s.geode_robot <= 255 * 255) by (nonlinear_arith)
            requires
                remaining <= 255,
                s.geode_robot <= 255,
        ;
        assert(remaining * (remaining - 1) <= 255 * 255) by (nonlinear_arith)
            requires
                1 <= remaining <= 255,
        ;
    }
    let max_yield = remaining * s.geode_robot + remaining * (remaining - 1) / 2;
    if s.geode + max_yield <= *max_result {
        proof {
            lemma_yield_bound(*bp, s, limit);
            assert(remaining * (remaining - 1) / 2 == crate::search::tri(remaining - 1));
        }
        bb_insert(memo, s, 0, Ghost(*bp), limit, Ghost(*max_result));
        return 0;
    }

    search_bounded_children(s, bp, limit, memo, max_result)
}

/// Explore the children of a live state under the branch-and-bound
/// regime and record the result.
#[verifier::rlimit(100)]
#[verifier::spinoff_prover]
fn search_bounded_children(
    s: SearchState,
    bp: &Costs,
    limit: u8,
    memo: &mut HashMap<u128, (u32, u8)>,
    max_result: &mut u32,
) -> (r: u32)
    requires
        bounded(s, limit),
        s.minute < limit,
        reaches(*bp, start_spec(), s, limit),
        memo_bb_inv(old(memo)@, *bp, limit, *old(max_result)),
        *old(max_result) as int <= best(*bp, start_spec(), limit),
    ensures
        memo_bb_inv(final(memo)@, *bp, limit, *final(max_result)),
        *final(max_result) as int == max2(*old(max_result) as int, r as int),
        best(*bp, s, limit) <= max2(r as int, *old(max_result) as int),
        r as int <= best(*bp, start_spec(), limit),
        *final(max_result) as int <= best(*bp, start_spec(), limit),
    decreases limit - s.minute, 0int,
{
    proof {
        lemma_children_bounded(s, *bp, limit);
        lemma_child_reaches(*bp, s, limit);
        crate::search::lemma_best_unfold(*bp, s, limit);
    }
    let ghost mr0 = *max_result;
    let stepped = s.step(limit);

    let mut result = search_bounded(stepped, bp, limit, memo, max_result);
    proof {
        assert(best(*bp, step_spec(s), limit) <= max2(result as int, mr0 as int));
        assert(*max_result as int <= max2(result as int, mr0 as int));
        assert(result as int <= *max_result as int);
    }

    if s.can_build_geode_robot(bp) {
        let c = search_bounded(stepped.build_geode_robot(bp, limit), bp, limit, memo, max_result);
        if c > result {
            result = c;
        }
        proof {
            assert(best(*bp, build_geode_spec(step_spec(s), *bp), limit) <= max2(
                result as int,
                mr0 as int,
            ));
            assert(best(*bp, step_spec(s), limit) <= max2(result as int, mr0 as int));
            assert(*max_result as int <= max2(result as int, mr0 as int));
            assert(result as int <= *max_result as int);
        }
    }
    if s.can_build_obsidian_robot(bp) {
        let c = search_bounded(
            stepped.build_obsidian_robot(bp, limit),
            bp,
            limit,
            memo,
            max_result,
        );
        if c > result {
            result = c;
        }
        proof {
            assert(best(*bp, build_obsidian_spec(step_spec(s), *bp), limit) <= max2(
                result as int,
                mr0 as int,
            ));
            assert(best(*bp, step_spec(s), limit) <= max2(result as int, mr0 as int));
            assert(*max_result as int <= max2(result as int, mr0 as int));
            assert(result as int <= *max_result as int);
        }
    }
    if s.can_build_clay_robot(bp) {
        let c = search_bounded(stepped.build_clay_robot(bp, limit), bp, limit, memo, max_result);
        if c > result {
            result = c;
        }
        proof {
            assert(best(*bp, build_clay_spec(step_spec(s), *bp), limit) <= max2(
                result as int,
                mr0 as int,
            ));
            assert(best(*bp, step_spec(s), limit) <= max2(result as int, mr0 as int));
            assert(*max_result as int <= max2(result as int, mr0 as int));
            assert(result as int <= *max_result as int);
        }
    }
    if s.can_build_ore_robot(bp) {
        let c = search_bounded(stepped.build_ore_robot(bp, limit), bp, limit, memo, max_result);
        if c > result {
            result = c;
        }
        proof {
            assert(best(*bp, build_ore_spec(step_spec(s), *bp), limit) <= max2(
                result as int,
                mr0 as int,
            ));
            assert(best(*bp, step_spec(s), limit) <= max2(result as int, mr0 as int));
            assert(*max_result as int <= max2(result as int, mr0 as int));
            assert(result as int <= *max_result as int);
        }
    }
    proof {
        assert(best(*bp, s, limit) <= max2(result as int, mr0 as int));
        assert(*max_result as int == max2(mr0 as int, result as int));
    }
    bb_insert(memo, s, result, Ghost(*bp), limit, Ghost(*max_result));
    result
}

/// The optimal value of any bounded state is itself small.
pub proof fn lemma_best_le_bound(bp: Costs, s: SearchState, limit: u8)
    requires
        bounded(s, limit),
    ensures
        0 <= best(bp, s, limit) <= 0x40000,
{
    lemma_yield_bound(bp, s, limit);
    lemma_best_ge_geode(bp, s, limit);
    lemma_tri_small(s.minute as int);
    crate::search::lemma_tri_mono(limit - s.minute - 1, 255);
    lemma_tri_small(255);
    let rem = limit - s.minute;
    assert(rem * s.geode_robot <= 255 * 255) by (nonlinear_arith)
        requires
            0 <= rem <= 255,
            0 <= s.geode_robot <= 255,
    ;
}

} // verus!
