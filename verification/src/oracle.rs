//! Scalar reference implementations of the benchmark algorithms.
//!
//! These are the equivalence oracle: plain arithmetic, no bytecode.
//! Their spec functions are the mathematical yardstick the machine
//! programs are proved against.

use vstd::prelude::*;

use crate::cell::{wadd, wmul, wsub};

verus! {

/// The rolling Fibonacci pair after `n` steps, with wrapping addition:
/// starts at (0, 1), each step maps (a, b) to (b, a + b).
pub open spec fn fib_pair(n: nat) -> (i64, i64)
    decreases n,
{
    if n == 0 {
        (0i64, 1i64)
    } else {
        let (a, b) = fib_pair((n - 1) as nat);
        (b, wadd(a, b))
    }
}

/// The `n`-th Fibonacci number in cell arithmetic.
pub open spec fn fib_value(n: nat) -> i64 {
    fib_pair(n).0
}

/// Reference Fibonacci: `n` rounds of the rolling-pair recurrence.
pub fn fib(n: u32) -> (r: i64)
    ensures
        r == fib_value(n as nat),
{
    let mut a: i64 = 0;
    let mut b: i64 = 1;
    let mut i: u32 = 0;
    while i < n
        invariant
            i <= n,
            (a, b) == fib_pair(i as nat),
        decreases n - i,
    {
        let t = a.wrapping_add(b);
        a = b;
        b = t;
        i = i + 1;
    }
    a
}

/// How many escape-time iterations the point survives, starting the
/// orbit at `(x, y)` with at most `rem` iterations left. The orbit is
/// `x <- x*x - y*y + x0`, `y <- x*y*2 + y0`, iterated while
/// `x*x + y*y <= 4`, in cell arithmetic.
pub open spec fn mandel_steps(x0: i64, y0: i64, x: i64, y: i64, rem: nat) -> nat
    decreases rem,
{
    if wadd(wmul(x, x), wmul(y, y)) > 4 || rem == 0 {
        0
    } else {
        let xt = wadd(wsub(wmul(x, x), wmul(y, y)), x0);
        let yn = wadd(wmul(wmul(x, y), 2), y0);
        1 + mandel_steps(x0, y0, xt, yn, (rem - 1) as nat)
    }
}

/// The iteration count never exceeds the budget.
pub proof fn lemma_mandel_steps_le(x0: i64, y0: i64, x: i64, y: i64, rem: nat)
    ensures
        mandel_steps(x0, y0, x, y, rem) <= rem,
    decreases rem,
{
    if wadd(wmul(x, x), wmul(y, y)) > 4 || rem == 0 {
    } else {
        let xt = wadd(wsub(wmul(x, x), wmul(y, y)), x0);
        let yn = wadd(wmul(wmul(x, y), 2), y0);
        lemma_mandel_steps_le(x0, y0, xt, yn, (rem - 1) as nat);
    }
}

/// Reference Mandelbrot escape count for the point `(x0, y0)` with
/// iteration cap `limit`.
pub fn mandel(x0: i64, y0: i64, limit: u32) -> (r: u32)
    ensures
        r as nat == mandel_steps(x0, y0, 0, 0, limit as nat),
{
    let mut x: i64 = 0;
    let mut y: i64 = 0;
    let mut i: u32 = 0;
    proof {
        lemma_mandel_steps_le(x0, y0, 0, 0, limit as nat);
    }
    loop
        invariant
            i <= limit,
            mandel_steps(x0, y0, 0, 0, limit as nat) == i + mandel_steps(
                x0,
                y0,
                x,
                y,
                (limit - i) as nat,
            ),
        decreases limit - i,
    {
        let xx = x.wrapping_mul(x);
        let yy = y.wrapping_mul(y);
        if !(xx.wrapping_add(yy) <= 4 && i < limit) {
            proof {
                assert(mandel_steps(x0, y0, x, y, (limit - i) as nat) == 0);
            }
            return i;
        }
        let xt = xx.wrapping_sub(yy).wrapping_add(x0);
        y = x.wrapping_mul(y).wrapping_mul(2).wrapping_add(y0);
        x = xt;
        i = i + 1;
    }
}

} // verus!
