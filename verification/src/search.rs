//! The shared model of the robot-factory search: one state type, one
//! cost table, the optimal-value function `best`, and the lemmas the
//! solver variants are verified against.
//!
//! Every minute the factory gathers one unit per robot of each kind and
//! may finish building at most one robot, paid for before gathering.
//! The value of a state is the largest geode count reachable by the
//! time limit.

use vstd::prelude::*;

verus! {

/// What each robot costs. A cost table is fixed for a whole search.
#[derive(Clone, Copy, Debug)]
pub struct Costs {
    pub ore_robot_ore: u32,
    pub clay_robot_ore: u32,
    pub obsidian_robot_ore: u32,
    pub obsidian_robot_clay: u32,
    pub geode_robot_ore: u32,
    pub geode_robot_obsidian: u32,
}

/// One search state: the elapsed minutes, the robots built, and the
/// resources on hand.
#[derive(Clone, Copy, Debug)]
pub struct SearchState {
    pub minute: u32,
    pub ore_robot: u32,
    pub clay_robot: u32,
    pub obsidian_robot: u32,
    pub geode_robot: u32,
    pub ore: u32,
    pub clay: u32,
    pub obsidian: u32,
    pub geode: u32,
}

/// The sum 1 + 2 + ... + m: what a resource can have accumulated after
/// `m` minutes, since at most one robot is added per minute.
pub open spec fn tri(m: int) -> int
    decreases m,
{
    if m <= 0 {
        0
    } else {
        m + tri(m - 1)
    }
}

/// `tri` grows with its argument.
pub proof fn lemma_tri_mono(a: int, b: int)
    requires
        a <= b,
    ensures
        tri(a) <= tri(b),
    decreases b - a,
{
    if a < b {
        lemma_tri_mono(a, b - 1);
    }
}

/// `tri(m)` is at most `m * m` for nonnegative `m`.
pub proof fn lemma_tri_sq(m: int)
    requires
        0 <= m,
    ensures
        0 <= tri(m) <= m * m,
    decreases m,
{
    if m > 0 {
        lemma_tri_sq(m - 1);
        assert(m + (m - 1) * (m - 1) <= m * m) by (nonlinear_arith)
            requires
                m >= 1,
        ;
    }
}

/// Over a 255-minute search every resource stays below 65026.
pub proof fn lemma_tri_small(m: int)
    requires
        0 <= m <= 255,
    ensures
        0 <= tri(m) <= 255 * 255,
{
    lemma_tri_sq(m);
    assert(m * m <= 255 * 255) by (nonlinear_arith)
        requires
            0 <= m <= 255,
    ;
}

/// Every quantity a reachable state can hold is bounded by the elapsed
/// time, which keeps all the arithmetic far from overflow.
pub open spec fn bounded(s: SearchState, limit: u8) -> bool {
    &&& s.minute <= limit
    &&& s.ore_robot <= 1 + s.minute
    &&& s.clay_robot <= s.minute
    &&& s.obsidian_robot <= s.minute
    &&& s.geode_robot <= s.minute
    &&& s.ore <= tri(s.minute as int)
    &&& s.clay <= tri(s.minute as int)
    &&& s.obsidian <= tri(s.minute as int)
    &&& s.geode <= tri(s.minute as int)
}

/// The state a search starts from: one ore robot, nothing else.
pub open spec fn start_spec() -> SearchState {
    SearchState {
        minute: 0,
        ore_robot: 1,
        clay_robot: 0,
        obsidian_robot: 0,
        geode_robot: 0,
        ore: 0,
        clay: 0,
        obsidian: 0,
        geode: 0,
    }
}

pub open spec fn can_build_ore_spec(s: SearchState, bp: Costs) -> bool {
    s.ore >= bp.ore_robot_ore
}

pub open spec fn can_build_clay_spec(s: SearchState, bp: Costs) -> bool {
    s.ore >= bp.clay_robot_ore
}

pub open spec fn can_build_obsidian_spec(s: SearchState, bp: Costs) -> bool {
    s.ore >= bp.obsidian_robot_ore && s.clay >= bp.obsidian_robot_clay
}

pub open spec fn can_build_geode_spec(s: SearchState, bp: Costs) -> bool {
    s.ore >= bp.geode_robot_ore && s.obsidian >= bp.geode_robot_obsidian
}

/// One minute passes: every robot gathers one unit of its resource.
pub open spec fn step_spec(s: SearchState) -> SearchState {
    SearchState {
        minute: (s.minute + 1) as u32,
        ore: (s.ore + s.ore_robot) as u32,
        clay: (s.clay + s.clay_robot) as u32,
        obsidian: (s.obsidian + s.obsidian_robot) as u32,
        geode: (s.geode + s.geode_robot) as u32,
        ..s
    }
}

pub open spec fn build_ore_spec(s: SearchState, bp: Costs) -> SearchState {
    SearchState {
        ore: (s.ore - bp.ore_robot_ore) as u32,
        ore_robot: (s.ore_robot + 1) as u32,
        ..s
    }
}

pub open spec fn build_clay_spec(s: SearchState, bp: Costs) -> SearchState {
    SearchState {
        ore: (s.ore - bp.clay_robot_ore) as u32,
        clay_robot: (s.clay_robot + 1) as u32,
        ..s
    }
}

pub open spec fn build_obsidian_spec(s: SearchState, bp: Costs) -> SearchState {
    SearchState {
        ore: (s.ore - bp.obsidian_robot_ore) as u32,
        clay: (s.clay - bp.obsidian_robot_clay) as u32,
        obsidian_robot: (s.obsidian_robot + 1) as u32,
        ..s
    }
}

pub open spec fn build_geode_spec(s: SearchState, bp: Costs) -> SearchState {
    SearchState {
        ore: (s.ore - bp.geode_robot_ore) as u32,
        obsidian: (s.obsidian - bp.geode_robot_obsidian) as u32,
        geode_robot: (s.geode_robot + 1) as u32,
        ..s
    }
}

pub open spec fn max2(a: int, b: int) -> int {
    if a >= b {
        a
    } else {
        b
    }
}

/// The largest geode count reachable from `s` by minute `limit`,
/// choosing each minute whether to build one affordable robot (paid
/// before gathering) or only wait.
pub open spec fn best(bp: Costs, s: SearchState, limit: u8) -> int
    decreases limit - s.minute,
{
    if s.minute >= limit {
        s.geode as int
    } else {
        let wait = best(bp, step_spec(s), limit);
        let w1 = if can_build_geode_spec(s, bp) {
            max2(wait, best(bp, build_geode_spec(step_spec(s), bp), limit))
        } else {
            wait
        };
        let w2 = if can_build_obsidian_spec(s, bp) {
            max2(w1, best(bp, build_obsidian_spec(step_spec(s), bp), limit))
        } else {
            w1
        };
        let w3 = if can_build_clay_spec(s, bp) {
            max2(w2, best(bp, build_clay_spec(step_spec(s), bp), limit))
        } else {
            w2
        };
        if can_build_ore_spec(s, bp) {
            max2(w3, best(bp, build_ore_spec(step_spec(s), bp), limit))
        } else {
            w3
        }
    }
}

/// How `best` decomposes at a state with time left: every child is a
/// lower bound, and one of them attains the value.
pub proof fn lemma_best_unfold(bp: Costs, s: SearchState, limit: u8)
    requires
        s.minute < limit,
    ensures
        best(bp, step_spec(s), limit) <= best(bp, s, limit),
        can_build_geode_spec(s, bp) ==> best(bp, build_geode_spec(step_spec(s), bp), limit) <= best(
            bp,
            s,
            limit,
        ),
        can_build_obsidian_spec(s, bp) ==> best(bp, build_obsidian_spec(step_spec(s), bp), limit)
            <= best(bp, s, limit),
        can_build_clay_spec(s, bp) ==> best(bp, build_clay_spec(step_spec(s), bp), limit) <= best(
            bp,
            s,
            limit,
        ),
        can_build_ore_spec(s, bp) ==> best(bp, build_ore_spec(step_spec(s), bp), limit) <= best(
            bp,
            s,
            limit,
        ),
        best(bp, s, limit) == best(bp, step_spec(s), limit) || (can_build_geode_spec(s, bp) && best(
            bp,
            s,
            limit,
        ) == best(bp, build_geode_spec(step_spec(s), bp), limit)) || (can_build_obsidian_spec(
            s,
            bp,
        ) && best(bp, s, limit) == best(bp, build_obsidian_spec(step_spec(s), bp), limit)) || (
        can_build_clay_spec(s, bp) && best(bp, s, limit) == best(
            bp,
            build_clay_spec(step_spec(s), bp),
            limit,
        )) || (can_build_ore_spec(s, bp) && best(bp, s, limit) == best(
            bp,
            build_ore_spec(step_spec(s), bp),
            limit,
        )),
{
}

/// Every child state that `best` considers — waiting, or building one
/// affordable robot right after the wait — is bounded again.
pub proof fn lemma_children_bounded(s: SearchState, bp: Costs, limit: u8)
    requires
        bounded(s, limit),
        s.minute < limit,
    ensures
        bounded(step_spec(s), limit),
        can_build_ore_spec(s, bp) ==> bounded(build_ore_spec(step_spec(s), bp), limit),
        can_build_clay_spec(s, bp) ==> bounded(build_clay_spec(step_spec(s), bp), limit),
        can_build_obsidian_spec(s, bp) ==> bounded(build_obsidian_spec(step_spec(s), bp), limit),
        can_build_geode_spec(s, bp) ==> bounded(build_geode_spec(step_spec(s), bp), limit),
{
    lemma_tri_small(s.minute as int);
    lemma_tri_small(s.minute + 1);
}

impl SearchState {
    /// The state a search starts from.
    pub fn new() -> (s: SearchState)
        ensures
            s == start_spec(),
    {
        SearchState {
            minute: 0,
            ore_robot: 1,
            clay_robot: 0,
            obsidian_robot: 0,
            geode_robot: 0,
            ore: 0,
            clay: 0,
            obsidian: 0,
            geode: 0,
        }
    }

    pub fn can_build_ore_robot(&self, bp: &Costs) -> (r: bool)
        ensures
            r == can_build_ore_spec(*self, *bp),
    {
        self.ore >= bp.ore_robot_ore
    }

    pub fn can_build_clay_robot(&self, bp: &Costs) -> (r: bool)
        ensures
            r == can_build_clay_spec(*self, *bp),
    {
        self.ore >= bp.clay_robot_ore
    }

    pub fn can_build_obsidian_robot(&self, bp: &Costs) -> (r: bool)
        ensures
            r == can_build_obsidian_spec(*self, *bp),
    {
        self.ore >= bp.obsidian_robot_ore && self.clay >= bp.obsidian_robot_clay
    }

    pub fn can_build_geode_robot(&self, bp: &Costs) -> (r: bool)
        ensures
            r == can_build_geode_spec(*self, *bp),
    {
        self.ore >= bp.geode_robot_ore && self.obsidian >= bp.geode_robot_obsidian
    }

    /// One minute passes and every robot gathers.
    pub fn step(self, limit: u8) -> (r: SearchState)
        requires
            bounded(self, limit),
            self.minute < limit,
        ensures
            r == step_spec(self),
            bounded(r, limit),
            r.minute == self.minute + 1,
            r.ore >= self.ore,
            r.clay >= self.clay,
            r.obsidian >= self.obsidian,
            r.ore_robot == self.ore_robot,
            r.clay_robot == self.clay_robot,
            r.obsidian_robot == self.obsidian_robot,
            r.geode_robot == self.geode_robot,
    {
        proof {
            lemma_tri_small(self.minute as int);
            lemma_tri_small(self.minute + 1);
        }
        let mut this = self;
        this.minute = this.minute + 1;
        this.ore = this.ore + this.ore_robot;
        this.clay = this.clay + this.clay_robot;
        this.obsidian = this.obsidian + this.obsidian_robot;
        this.geode = this.geode + this.geode_robot;
        this
    }

    pub fn build_ore_robot(self, bp: &Costs, limit: u8) -> (r: SearchState)
        requires
            bounded(self, limit),
            self.ore_robot <= self.minute,
            self.ore >= bp.ore_robot_ore,
        ensures
            r == build_ore_spec(self, *bp),
            bounded(r, limit),
    {
        let mut r = self;
        r.ore = r.ore - bp.ore_robot_ore;
        r.ore_robot = r.ore_robot + 1;
        r
    }

    pub fn build_clay_robot(self, bp: &Costs, limit: u8) -> (r: SearchState)
        requires
            bounded(self, limit),
            self.clay_robot < self.minute,
            self.ore >= bp.clay_robot_ore,
        ensures
            r == build_clay_spec(self, *bp),
            bounded(r, limit),
    {
        let mut r = self;
        r.ore = r.ore - bp.clay_robot_ore;
        r.clay_robot = r.clay_robot + 1;
        r
    }

    pub fn build_obsidian_robot(self, bp: &Costs, limit: u8) -> (r: SearchState)
        requires
            bounded(self, limit),
            self.obsidian_robot < self.minute,
            self.ore >= bp.obsidian_robot_ore,
            self.clay >= bp.obsidian_robot_clay,
        ensures
            r == build_obsidian_spec(self, *bp),
            bounded(r, limit),
    {
        let mut r = self;
        r.ore = r.ore - bp.obsidian_robot_ore;
        r.clay = r.clay - bp.obsidian_robot_clay;
        r.obsidian_robot = r.obsidian_robot + 1;
        r
    }

    pub fn build_geode_robot(self, bp: &Costs, limit: u8) -> (r: SearchState)
        requires
            bounded(self, limit),
            self.geode_robot < self.minute,
            self.ore >= bp.geode_robot_ore,
            self.obsidian >= bp.geode_robot_obsidian,
        ensures
            r == build_geode_spec(self, *bp),
            bounded(r, limit),
    {
        let mut r = self;
        r.ore = r.ore - bp.geode_robot_ore;
        r.obsidian = r.obsidian - bp.geode_robot_obsidian;
        r.geode_robot = r.geode_robot + 1;
        r
    }
}

/// The exhaustive search engine: mirrors `best` branch for branch.
pub fn search_plain(s: SearchState, bp: &Costs, limit: u8) -> (r: u32)
    requires
        bounded(s, limit),
    ensures
        r as int == best(*bp, s, limit),
    decreases limit - s.minute,
{
    if s.minute >= limit as u32 {
        return s.geode;
    }
    let stepped = s.step(limit);

    let mut result = search_plain(stepped, bp, limit);

    if s.can_build_geode_robot(bp) {
        let c = search_plain(stepped.build_geode_robot(bp, limit), bp, limit);
        if c > result {
            result = c;
        }
    }
    if s.can_build_obsidian_robot(bp) {
        let c = search_plain(stepped.build_obsidian_robot(bp, limit), bp, limit);
        if c > result {
            result = c;
        }
    }
    if s.can_build_clay_robot(bp) {
        let c = search_plain(stepped.build_clay_robot(bp, limit), bp, limit);
        if c > result {
            result = c;
        }
    }
    if s.can_build_ore_robot(bp) {
        let c = search_plain(stepped.build_ore_robot(bp, limit), bp, limit);
        if c > result {
            result = c;
        }
    }
    result
}

/// The greedy policy: each minute, build the most advanced robot that
/// is affordable, else wait.
pub open spec fn greedy_step_spec(bp: Costs, s: SearchState) -> SearchState {
    if can_build_geode_spec(s, bp) {
        build_geode_spec(step_spec(s), bp)
    } else if can_build_obsidian_spec(s, bp) {
        build_obsidian_spec(step_spec(s), bp)
    } else if can_build_clay_spec(s, bp) {
        build_clay_spec(step_spec(s), bp)
    } else if can_build_ore_spec(s, bp) {
        build_ore_spec(step_spec(s), bp)
    } else {
        step_spec(s)
    }
}

/// The state the greedy policy reaches after `k` minutes.
pub open spec fn greedy_run_spec(bp: Costs, s: SearchState, k: nat) -> SearchState
    decreases k,
{
    if k == 0 {
        s
    } else {
        greedy_step_spec(bp, greedy_run_spec(bp, s, (k - 1) as nat))
    }
}

/// The greedy engine: run the policy for `limit` minutes and report
/// the geodes gathered.
pub fn search_greedy(bp: &Costs, limit: u8) -> (r: u32)
    ensures
        r == greedy_run_spec(*bp, start_spec(), limit as nat).geode,
{
    let mut state = SearchState::new();
    let mut i: u8 = 0;
    while i < limit
        invariant
            i <= limit,
            state == greedy_run_spec(*bp, start_spec(), i as nat),
            bounded(state, limit),
            state.minute == i,
        decreases limit - i,
    {
        let stepped = state.step(limit);
        if state.can_build_geode_robot(bp) {
            state = stepped.build_geode_robot(bp, limit);
        } else if state.can_build_obsidian_robot(bp) {
            state = stepped.build_obsidian_robot(bp, limit);
        } else if state.can_build_clay_robot(bp) {
            state = stepped.build_clay_robot(bp, limit);
        } else if state.can_build_ore_robot(bp) {
            state = stepped.build_ore_robot(bp, limit);
        } else {
            state = stepped;
        }
        proof {
            assert(state == greedy_step_spec(*bp, greedy_run_spec(*bp, start_spec(), i as nat)));
            assert(state == greedy_run_spec(*bp, start_spec(), (i + 1) as nat));
        }
        i = i + 1;
    }
    state.geode
}

} // verus!
