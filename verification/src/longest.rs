//! Small string-selection helpers.

use vstd::prelude::*;
use vstd::string::StringSliceAdditionalSpecFns;

verus! {

/// The longer of the two strings, by byte length; ties go to the
/// second.
pub fn longest<'a>(s1: &'a str, s2: &'a str) -> (r: &'a str)
    requires
        s1.spec_bytes().len() <= usize::MAX,
        s2.spec_bytes().len() <= usize::MAX,
    ensures
        r@ == if s1.spec_bytes().len() > s2.spec_bytes().len() {
            s1@
        } else {
            s2@
        },
{
    if s1.len() > s2.len() {
        s1
    } else {
        s2
    }
}

/// As `longest`, with the inputs' lifetimes independent of each other
/// and of the result's.
pub fn longest2<'s1, 's2, 'out>(s1: &'s1 str, s2: &'s2 str) -> (r: &'out str) where
    's1: 'out,
    's2: 'out,

    requires
        s1.spec_bytes().len() <= usize::MAX,
        s2.spec_bytes().len() <= usize::MAX,
    ensures
        r@ == if s1.spec_bytes().len() > s2.spec_bytes().len() {
            s1@
        } else {
            s2@
        },
{
    if s1.len() > s2.len() {
        s1
    } else {
        s2
    }
}

/// Exchange two borrowed strings, keeping each lifetime with its
/// value.
pub fn swap<'a, 'b>(a: &'a str, b: &'b str) -> (r: (&'b str, &'a str))
    ensures
        r.0@ == b@,
        r.1@ == a@,
{
    (b, a)
}

} // verus!
