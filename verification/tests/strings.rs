//! The string-selection helpers.

use stack_vs_reg::longest::{longest, longest2, swap};

#[test]
fn longest_picks_longer() {
    assert_eq!(longest("hello", "hi"), "hello");
    assert_eq!(longest("hi", "hello"), "hello");
}

#[test]
fn longest_tie_goes_to_second() {
    assert_eq!(longest("abc", "xyz"), "xyz");
    assert_eq!(longest("", ""), "");
}

#[test]
fn longest2_matches_longest() {
    let a = String::from("a longer sentence");
    let b = String::from("short");
    assert_eq!(longest2(&a, &b), longest(&a, &b));
}

#[test]
fn swap_exchanges() {
    let (x, y) = swap("first", "second");
    assert_eq!(x, "second");
    assert_eq!(y, "first");
}
