//! Pulling the numbers out of blueprint descriptions.
//!
//! A description is ASCII text, one blueprint per line, whose numbers
//! appear as maximal runs of decimal digits. The runs are located by a
//! regular expression; everything from the located runs to `u32`
//! values is verified code.

use vstd::prelude::*;
use vstd::string::StringSliceAdditionalSpecFns;

verus! {

/// An ASCII decimal digit.
pub open spec fn is_digit(b: u8) -> bool {
    48 <= b <= 57
}

/// The first position at or after `i` that is not a digit.
pub open spec fn run_end(s: Seq<u8>, i: int) -> int
    decreases s.len() - i,
{
    if !(0 <= i < s.len()) {
        i
    } else if is_digit(s[i]) {
        run_end(s, i + 1)
    } else {
        i
    }
}

/// `run_end` stays within `[i, s.len()]` and everything before it,
/// from `i`, is a digit.
pub proof fn lemma_run_end(s: Seq<u8>, i: int)
    requires
        0 <= i <= s.len(),
    ensures
        i <= run_end(s, i) <= s.len(),
        forall|p: int| i <= p < run_end(s, i) ==> is_digit(s[p]),
        run_end(s, i) < s.len() ==> !is_digit(s[run_end(s, i)]),
        i < s.len() && is_digit(s[i]) ==> run_end(s, i) > i,
    decreases s.len() - i,
{
    if 0 <= i < s.len() && is_digit(s[i]) {
        lemma_run_end(s, i + 1);
    }
}

/// The maximal digit runs of `s` at or after position `i`, in order,
/// as half-open `(start, end)` ranges.
pub open spec fn digit_runs_from(s: Seq<u8>, i: int) -> Seq<(int, int)>
    decreases s.len() - i,
    via digit_runs_from_dec
{
    if !(0 <= i < s.len()) {
        Seq::empty()
    } else if is_digit(s[i]) {
        seq![(i, run_end(s, i))] + digit_runs_from(s, run_end(s, i))
    } else {
        digit_runs_from(s, i + 1)
    }
}

#[via_fn]
proof fn digit_runs_from_dec(s: Seq<u8>, i: int) {
    if 0 <= i < s.len() && is_digit(s[i]) {
        lemma_run_end(s, i);
    }
}

/// All the maximal digit runs of `s`, in order.
pub open spec fn digit_runs(s: Seq<u8>) -> Seq<(int, int)> {
    digit_runs_from(s, 0)
}

/// The number a digit run denotes.
pub open spec fn run_value(s: Seq<u8>, a: int, b: int) -> int
    decreases b - a,
{
    if b <= a {
        0
    } else {
        run_value(s, a, b - 1) * 10 + (s[b - 1] - 48)
    }
}

/// Digit-run values are nonnegative and grow along the run.
pub proof fn lemma_run_value_mono(s: Seq<u8>, a: int, i: int, b: int)
    requires
        a <= i <= b,
        forall|p: int| a <= p < b ==> 0 <= s[p] - 48,
    ensures
        0 <= run_value(s, a, i) <= run_value(s, a, b),
    decreases b - i,
{
    if i == b {
        lemma_run_value_nonneg(s, a, i);
    } else {
        lemma_run_value_mono(s, a, i, b - 1);
        lemma_run_value_nonneg(s, a, b - 1);
    }
}

/// A digit-run value is nonnegative.
pub proof fn lemma_run_value_nonneg(s: Seq<u8>, a: int, b: int)
    requires
        forall|p: int| a <= p < b ==> 0 <= s[p] - 48,
    ensures
        0 <= run_value(s, a, b),
    decreases b - a,
{
    if b > a {
        lemma_run_value_nonneg(s, a, b - 1);
    }
}

/// The number of line breaks strictly before position `p`.
pub open spec fn newlines_before(s: Seq<u8>, p: int) -> int
    decreases p,
{
    if p <= 0 {
        0
    } else {
        newlines_before(s, p - 1) + if s[p - 1] == 10 {
            1int
        } else {
            0int
        }
    }
}

/// How many lines the text has, counting as `str::lines` does: a final
/// line break does not open a further line.
pub open spec fn line_count(s: Seq<u8>) -> int {
    if s.len() == 0 {
        0
    } else if s[s.len() - 1] == 10 {
        newlines_before(s, s.len() as int)
    } else {
        newlines_before(s, s.len() as int) + 1
    }
}

/// Every line holds exactly `per_line` digit runs: the runs split
/// evenly, and run number `j` lies on line `j / per_line`.
pub open spec fn evenly_lined(s: Seq<u8>, per_line: int) -> bool {
    let runs = digit_runs(s);
    &&& runs.len() == per_line * line_count(s)
    &&& forall|j: int|
        0 <= j < runs.len() ==> newlines_before(s, #[trigger] runs[j].0) == j / per_line
}

/// Every digit-run value of `s` stays within `bound`.
pub open spec fn values_bounded(s: Seq<u8>, bound: int) -> bool {
    forall|j: int|
        0 <= j < digit_runs(s).len() ==> run_value(
            s,
            (#[trigger] digit_runs(s)[j]).0,
            digit_runs(s)[j].1,
        ) <= bound
}

/// Relies on `regex`: `Regex::new(r"\d+")` builds the digit-run
/// pattern (infallibly, as the pattern is valid), and `find_iter`
/// yields the successive non-overlapping, leftmost and greedy — hence
/// maximal — matches, in order. On ASCII text `\d` matches exactly the
/// ASCII digits and byte offsets coincide with character offsets.
#[verifier::external_body]
fn find_digit_runs(input: &str) -> (runs: Vec<(usize, usize)>)
    requires
        input.is_ascii(),
    ensures
        runs@.len() == digit_runs(input.spec_bytes()).len(),
        forall|j: int|
            0 <= j < runs@.len() ==> (#[trigger] runs@[j]).0 == digit_runs(input.spec_bytes())[j].0
                && runs@[j].1 == digit_runs(input.spec_bytes())[j].1,
{
    let re = regex::Regex::new(r"\d+").unwrap();
    re.find_iter(input).map(|m| (m.start(), m.end())).collect()
}

/// Read the number a digit run denotes.
fn read_run(bytes: &[u8], a: usize, b: usize, Ghost(bound): Ghost<int>) -> (v: u32)
    requires
        a <= b <= bytes@.len(),
        forall|p: int| a <= p < b ==> is_digit(bytes@[p]),
        run_value(bytes@, a as int, b as int) <= bound,
        bound <= u32::MAX,
    ensures
        v == run_value(bytes@, a as int, b as int),
{
    let mut v: u32 = 0;
    let mut i: usize = a;
    while i < b
        invariant
            a <= i <= b <= bytes@.len(),
            forall|p: int| a <= p < b ==> is_digit(bytes@[p]),
            run_value(bytes@, a as int, b as int) <= bound <= u32::MAX,
            v == run_value(bytes@, a as int, i as int),
        decreases b - i,
    {
        proof {
            lemma_run_value_mono(bytes@, a as int, i + 1, b as int);
        }
        v = v * 10 + (bytes[i] - 48) as u32;
        i = i + 1;
    }
    v
}

/// Extract every digit-run value of the text, in order.
///
/// The text must be ASCII with every value within `bound`; a text
/// whose numbers overflow the target type is a caller error, mirrored
/// here as a precondition.
pub fn scan_values(input: &str, Ghost(bound): Ghost<int>) -> (values: Vec<u32>)
    requires
        input.is_ascii(),
        values_bounded(input.spec_bytes(), bound),
        bound <= u32::MAX,
    ensures
        values@.len() == digit_runs(input.spec_bytes()).len(),
        forall|j: int|
            0 <= j < values@.len() ==> #[trigger] values@[j] == run_value(
                input.spec_bytes(),
                digit_runs(input.spec_bytes())[j].0,
                digit_runs(input.spec_bytes())[j].1,
            ),
{
    let ghost s = input.spec_bytes();
    let runs = find_digit_runs(input);
    let bytes = input.as_bytes();
    proof {
        lemma_digit_runs_in_range(s, 0);
    }
    let mut values: Vec<u32> = Vec::new();
    let mut j: usize = 0;
    while j < runs.len()
        invariant
            s == input.spec_bytes(),
            bytes@ == s,
            values_bounded(s, bound),
            bound <= u32::MAX,
            j <= runs@.len(),
            runs@.len() == digit_runs(s).len(),
            forall|t: int|
                0 <= t < runs@.len() ==> (#[trigger] runs@[t]).0 == digit_runs(s)[t].0
                    && runs@[t].1 == digit_runs(s)[t].1,
            values@.len() == j,
            forall|t: int|
                0 <= t < j ==> #[trigger] values@[t] == run_value(
                    s,
                    digit_runs(s)[t].0,
                    digit_runs(s)[t].1,
                ),
        decreases runs@.len() - j,
    {
        let (a, b) = runs[j];
        proof {
            lemma_digit_runs_in_range(s, 0);
            assert(0 <= j < digit_runs(s).len());
            assert(digit_runs(s)[j as int].0 == a as int && digit_runs(s)[j as int].1 == b as int);
        }
        let v = read_run(bytes, a, b, Ghost(bound));
        values.push(v);
        j = j + 1;
    }
    values
}

/// Every run returned by `digit_runs_from` lies within the text, holds
/// only digits, and is maximal.
pub proof fn lemma_digit_runs_in_range(s: Seq<u8>, i: int)
    requires
        0 <= i <= s.len(),
    ensures
        forall|j: int|
            0 <= j < digit_runs_from(s, i).len() ==> {
                let r = #[trigger] digit_runs_from(s, i)[j];
                &&& i <= r.0 < r.1 <= s.len()
                &&& forall|p: int| r.0 <= p < r.1 ==> #[trigger] is_digit(s[p])
                &&& (r.1 < s.len() ==> !is_digit(s[r.1]))
            },
    decreases s.len() - i,
{
    if !(0 <= i < s.len()) {
    } else if is_digit(s[i]) {
        lemma_run_end(s, i);
        let e = run_end(s, i);
        lemma_digit_runs_in_range(s, e);
        assert forall|j: int| 0 <= j < digit_runs_from(s, i).len() implies {
            let r = #[trigger] digit_runs_from(s, i)[j];
            &&& i <= r.0 < r.1 <= s.len()
            &&& forall|p: int| r.0 <= p < r.1 ==> #[trigger] is_digit(s[p])
            &&& (r.1 < s.len() ==> !is_digit(s[r.1]))
        } by {
            if j == 0 {
                assert(digit_runs_from(s, i)[0] == (i, e));
            } else {
                assert(digit_runs_from(s, i)[j] == digit_runs_from(s, e)[j - 1]);
            }
        }
    } else {
        lemma_digit_runs_in_range(s, i + 1);
        assert(digit_runs_from(s, i) == digit_runs_from(s, i + 1));
    }
}

} // verus!
