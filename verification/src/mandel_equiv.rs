//! The Mandelbrot programs compute the reference escape count: the
//! register encoding and every stack encoding return exactly
//! `mandel_steps` for every integer coordinate pair and counter-sized
//! iteration cap, so all of them agree.

use vstd::prelude::*;

use crate::cell::{lemma_low32_small, low32, wadd, wmul, wsub};
use crate::oracle::{lemma_mandel_steps_le, mandel_steps};
use crate::reg;
use crate::stack;

verus! {

/// The value the machines return once the loop is over: the iteration
/// cap value minus what is left of the counter.
pub open spec fn mandel_result(m: i64, c: u32, x0: i64, y0: i64, x: i64, y: i64) -> i64 {
    wsub(m, ((c - mandel_steps(x0, y0, x, y, c as nat)) as u32) as i64)
}

/// One loop entry of this Mandelbrot encoding: from the escape test
/// with counter `c` and the orbit `(x, y)` in its slots, execution
/// returns the machine's iteration count for the cap value `m`.
#[verifier::rlimit(100)]
#[verifier::spinoff_prover]
proof fn lemma_stack_mandel_smart_loop(s: stack::State, c: u32, x0: i64, y0: i64, m: i64, x: i64, y: i64)
    requires
        s.pc == 21,
        s.counter == c,
        s.stack == seq![x0, y0, m, x, y],
    ensures
        exists|n: nat|
            stack::run_to(stack::mandel_smart_code(), s, n) == stack::Outcome::Returned(
                mandel_result(m, c, x0, y0, x, y),
            ),
    decreases c,
{
    let code = stack::mandel_smart_code();
    assert(stack::run_to(code, s, 0) == stack::Outcome::Pending(s));
    assert((s.stack.push(s.stack[3])) =~= seq![x0, y0, m, x, y, x]);
    let a1 = stack::State { pc: 22int, stack: seq![x0, y0, m, x, y, x], ..s };
    assert(stack::step(code, s) == stack::Step::Going(a1));
    stack::lemma_run_to_step(code, s, 0, s);
    assert((a1.stack.push(a1.stack[5])) =~= seq![x0, y0, m, x, y, x, x]);
    let a2 = stack::State { pc: 23int, stack: seq![x0, y0, m, x, y, x, x], ..a1 };
    assert(stack::step(code, a1) == stack::Step::Going(a2));
    stack::lemma_run_to_step(code, s, 1, a1);
    assert((a2.stack.update(5, wmul(a2.stack[5], a2.stack[6])).subrange(0, 6)) =~= seq![x0, y0, m, x, y, wmul(x, x)]);
    let a3 = stack::State { pc: 24int, stack: seq![x0, y0, m, x, y, wmul(x, x)], ..a2 };
    assert(stack::step(code, a2) == stack::Step::Going(a3));
    stack::lemma_run_to_step(code, s, 2, a2);
    assert((a3.stack.push(a3.stack[4])) =~= seq![x0, y0, m, x, y, wmul(x, x), y]);
    let a4 = stack::State { pc: 25int, stack: seq![x0, y0, m, x, y, wmul(x, x), y], ..a3 };
    assert(stack::step(code, a3) == stack::Step::Going(a4));
    stack::lemma_run_to_step(code, s, 3, a3);
    assert((a4.stack.push(a4.stack[6])) =~= seq![x0, y0, m, x, y, wmul(x, x), y, y]);
    let a5 = stack::State { pc: 26int, stack: seq![x0, y0, m, x, y, wmul(x, x), y, y], ..a4 };
    assert(stack::step(code, a4) == stack::Step::Going(a5));
    stack::lemma_run_to_step(code, s, 4, a4);
    assert((a5.stack.update(6, wmul(a5.stack[6], a5.stack[7])).subrange(0, 7)) =~= seq![x0, y0, m, x, y, wmul(x, x), wmul(y, y)]);
    let a6 = stack::State { pc: 27int, stack: seq![x0, y0, m, x, y, wmul(x, x), wmul(y, y)], ..a5 };
    assert(stack::step(code, a5) == stack::Step::Going(a6));
    stack::lemma_run_to_step(code, s, 5, a5);
    assert((a6.stack.update(5, wadd(a6.stack[5], a6.stack[6])).subrange(0, 6)) =~= seq![x0, y0, m, x, y, wadd(wmul(x, x), wmul(y, y))]);
    let a7 = stack::State { pc: 28int, stack: seq![x0, y0, m, x, y, wadd(wmul(x, x), wmul(y, y))], ..a6 };
    assert(stack::step(code, a6) == stack::Step::Going(a7));
    stack::lemma_run_to_step(code, s, 6, a6);
    assert((a7.stack.push(4i64)) =~= seq![x0, y0, m, x, y, wadd(wmul(x, x), wmul(y, y)), 4i64]);
    let a8 = stack::State { pc: 29int, stack: seq![x0, y0, m, x, y, wadd(wmul(x, x), wmul(y, y)), 4i64], ..a7 };
    assert(stack::step(code, a7) == stack::Step::Going(a8));
    stack::lemma_run_to_step(code, s, 7, a7);

    let cond = wadd(wmul(x, x), wmul(y, y)) <= 4i64 && c > 0;
    if !cond {
        let f0 = stack::State { pc: 30int, stack: seq![x0, y0, m, x, y], ..a8 };
        assert((a8.stack.subrange(0, 5)) =~= seq![x0, y0, m, x, y]);
        assert(stack::step(code, a8) == stack::Step::Going(f0));
        stack::lemma_run_to_step(code, s, 8, a8);
    assert((f0.stack.push(f0.stack[2])) =~= seq![x0, y0, m, x, y, m]);
    let f1 = stack::State { pc: 31int, stack: seq![x0, y0, m, x, y, m], ..f0 };
    assert(stack::step(code, f0) == stack::Step::Going(f1));
    stack::lemma_run_to_step(code, s, 9, f0);
    assert((f1.stack.push(f1.counter as i64)) =~= seq![x0, y0, m, x, y, m, f1.counter as i64]);
    let f2 = stack::State { pc: 32int, stack: seq![x0, y0, m, x, y, m, f1.counter as i64], ..f1 };
    assert(stack::step(code, f1) == stack::Step::Going(f2));
    stack::lemma_run_to_step(code, s, 10, f1);
    assert((f2.stack.update(5, wsub(f2.stack[5], f2.stack[6])).subrange(0, 6)) =~= seq![x0, y0, m, x, y, wsub(m, f1.counter as i64)]);
    let f3 = stack::State { pc: 33int, stack: seq![x0, y0, m, x, y, wsub(m, f1.counter as i64)], ..f2 };
    assert(stack::step(code, f2) == stack::Step::Going(f3));
    stack::lemma_run_to_step(code, s, 11, f2);
    assert(stack::step(code, f3) == stack::Step::Done(wsub(m, f1.counter as i64)));
    stack::lemma_run_to_step(code, s, 12, f3);
    assert(mandel_steps(x0, y0, x, y, c as nat) == 0);
    assert(mandel_result(m, c, x0, y0, x, y) == wsub(m, f1.counter as i64));
    assert(stack::run_to(code, s, 13) == stack::Outcome::Returned(
        mandel_result(m, c, x0, y0, x, y),
    ));
    } else {
        let g0 = stack::State {
            pc: 5int,
            counter: (c - 1) as u32,
            stack: seq![x0, y0, m, x, y],
        };
        assert((a8.stack.subrange(0, 5)) =~= seq![x0, y0, m, x, y]);
        assert(stack::step(code, a8) == stack::Step::Going(g0));
        stack::lemma_run_to_step(code, s, 8, a8);
    assert((g0.stack.push(g0.stack[3])) =~= seq![x0, y0, m, x, y, x]);
    let g1 = stack::State { pc: 6int, stack: seq![x0, y0, m, x, y, x], ..g0 };
    assert(stack::step(code, g0) == stack::Step::Going(g1));
    stack::lemma_run_to_step(code, s, 9, g0);
    assert((g1.stack.push(g1.stack[5])) =~= seq![x0, y0, m, x, y, x, x]);
    let g2 = stack::State { pc: 7int, stack: seq![x0, y0, m, x, y, x, x], ..g1 };
    assert(stack::step(code, g1) == stack::Step::Going(g2));
    stack::lemma_run_to_step(code, s, 10, g1);
    assert((g2.stack.update(5, wmul(g2.stack[5], g2.stack[6])).subrange(0, 6)) =~= seq![x0, y0, m, x, y, wmul(x, x)]);
    let g3 = stack::State { pc: 8int, stack: seq![x0, y0, m, x, y, wmul(x, x)], ..g2 };
    assert(stack::step(code, g2) == stack::Step::Going(g3));
    stack::lemma_run_to_step(code, s, 11, g2);
    assert((g3.stack.push(g3.stack[4])) =~= seq![x0, y0, m, x, y, wmul(x, x), y]);
    let g4 = stack::State { pc: 9int, stack: seq![x0, y0, m, x, y, wmul(x, x), y], ..g3 };
    assert(stack::step(code, g3) == stack::Step::Going(g4));
    stack::lemma_run_to_step(code, s, 12, g3);
    assert((g4.stack.push(g4.stack[6])) =~= seq![x0, y0, m, x, y, wmul(x, x), y, y]);
    let g5 = stack::State { pc: 10int, stack: seq![x0, y0, m, x, y, wmul(x, x), y, y], ..g4 };
    assert(stack::step(code, g4) == stack::Step::Going(g5));
    stack::lemma_run_to_step(code, s, 13, g4);
    assert((g5.stack.update(6, wmul(g5.stack[6], g5.stack[7])).subrange(0, 7)) =~= seq![x0, y0, m, x, y, wmul(x, x), wmul(y, y)]);
    let g6 = stack::State { pc: 11int, stack: seq![x0, y0, m, x, y, wmul(x, x), wmul(y, y)], ..g5 };
    assert(stack::step(code, g5) == stack::Step::Going(g6));
    stack::lemma_run_to_step(code, s, 14, g5);
    assert((g6.stack.update(5, wsub(g6.stack[5], g6.stack[6])).subrange(0, 6)) =~= seq![x0, y0, m, x, y, wsub(wmul(x, x), wmul(y, y))]);
    let g7 = stack::State { pc: 12int, stack: seq![x0, y0, m, x, y, wsub(wmul(x, x), wmul(y, y))], ..g6 };
    assert(stack::step(code, g6) == stack::Step::Going(g7));
    stack::lemma_run_to_step(code, s, 15, g6);
    assert((g7.stack.push(g7.stack[0])) =~= seq![x0, y0, m, x, y, wsub(wmul(x, x), wmul(y, y)), x0]);
    let g8 = stack::State { pc: 13int, stack: seq![x0, y0, m, x, y, wsub(wmul(x, x), wmul(y, y)), x0], ..g7 };
    assert(stack::step(code, g7) == stack::Step::Going(g8));
    stack::lemma_run_to_step(code, s, 16, g7);
    assert((g8.stack.update(5, wadd(g8.stack[5], g8.stack[6])).subrange(0, 6)) =~= seq![x0, y0, m, x, y, wadd(wsub(wmul(x, x), wmul(y, y)), x0)]);
    let g9 = stack::State { pc: 14int, stack: seq![x0, y0, m, x, y, wadd(wsub(wmul(x, x), wmul(y, y)), x0)], ..g8 };
    assert(stack::step(code, g8) == stack::Step::Going(g9));
    stack::lemma_run_to_step(code, s, 17, g8);
    assert((g9.stack.update(4, g9.stack[5]).update(5, g9.stack[4])) =~= seq![x0, y0, m, x, wadd(wsub(wmul(x, x), wmul(y, y)), x0), y]);
    let g10 = stack::State { pc: 15int, stack: seq![x0, y0, m, x, wadd(wsub(wmul(x, x), wmul(y, y)), x0), y], ..g9 };
    assert(stack::step(code, g9) == stack::Step::Going(g10));
    stack::lemma_run_to_step(code, s, 18, g9);
    assert((g10.stack.update(3, g10.stack[4]).update(4, g10.stack[5]).update(5, g10.stack[3])) =~= seq![x0, y0, m, wadd(wsub(wmul(x, x), wmul(y, y)), x0), y, x]);
    let g11 = stack::State { pc: 16int, stack: seq![x0, y0, m, wadd(wsub(wmul(x, x), wmul(y, y)), x0), y, x], ..g10 };
    assert(stack::step(code, g10) == stack::Step::Going(g11));
    stack::lemma_run_to_step(code, s, 19, g10);
    assert((g11.stack.update(4, wmul(g11.stack[4], g11.stack[5])).subrange(0, 5)) =~= seq![x0, y0, m, wadd(wsub(wmul(x, x), wmul(y, y)), x0), wmul(y, x)]);
    let g12 = stack::State { pc: 17int, stack: seq![x0, y0, m, wadd(wsub(wmul(x, x), wmul(y, y)), x0), wmul(y, x)], ..g11 };
    assert(stack::step(code, g11) == stack::Step::Going(g12));
    stack::lemma_run_to_step(code, s, 20, g11);
    assert((g12.stack.push(2i64)) =~= seq![x0, y0, m, wadd(wsub(wmul(x, x), wmul(y, y)), x0), wmul(y, x), 2i64]);
    let g13 = stack::State { pc: 18int, stack: seq![x0, y0, m, wadd(wsub(wmul(x, x), wmul(y, y)), x0), wmul(y, x), 2i64], ..g12 };
    assert(stack::step(code, g12) == stack::Step::Going(g13));
    stack::lemma_run_to_step(code, s, 21, g12);
    assert((g13.stack.update(4, wmul(g13.stack[4], g13.stack[5])).subrange(0, 5)) =~= seq![x0, y0, m, wadd(wsub(wmul(x, x), wmul(y, y)), x0), wmul(wmul(y, x), 2i64)]);
    let g14 = stack::State { pc: 19int, stack: seq![x0, y0, m, wadd(wsub(wmul(x, x), wmul(y, y)), x0), wmul(wmul(y, x), 2i64)], ..g13 };
    assert(stack::step(code, g13) == stack::Step::Going(g14));
    stack::lemma_run_to_step(code, s, 22, g13);
    assert((g14.stack.push(g14.stack[1])) =~= seq![x0, y0, m, wadd(wsub(wmul(x, x), wmul(y, y)), x0), wmul(wmul(y, x), 2i64), y0]);
    let g15 = stack::State { pc: 20int, stack: seq![x0, y0, m, wadd(wsub(wmul(x, x), wmul(y, y)), x0), wmul(wmul(y, x), 2i64), y0], ..g14 };
    assert(stack::step(code, g14) == stack::Step::Going(g15));
    stack::lemma_run_to_step(code, s, 23, g14);
    assert((g15.stack.update(4, wadd(g15.stack[4], g15.stack[5])).subrange(0, 5)) =~= seq![x0, y0, m, wadd(wsub(wmul(x, x), wmul(y, y)), x0), wadd(wmul(wmul(y, x), 2i64), y0)]);
    let g16 = stack::State { pc: 21int, stack: seq![x0, y0, m, wadd(wsub(wmul(x, x), wmul(y, y)), x0), wadd(wmul(wmul(y, x), 2i64), y0)], ..g15 };
    assert(stack::step(code, g15) == stack::Step::Going(g16));
    stack::lemma_run_to_step(code, s, 24, g15);

    assert(wmul(y, x) == wmul(x, y)) by (nonlinear_arith);
    assert(wadd(wsub(wmul(x, x), wmul(y, y)), x0) == wadd(wsub(wmul(x, x), wmul(y, y)), x0));
    assert(wadd(wmul(wmul(y, x), 2i64), y0) == wadd(wmul(wmul(x, y), 2), y0));
    lemma_mandel_steps_le(x0, y0, wadd(wsub(wmul(x, x), wmul(y, y)), x0), wadd(wmul(wmul(x, y), 2), y0), (c - 1) as nat);
    assert(mandel_steps(x0, y0, x, y, c as nat) == 1 + mandel_steps(
        x0,
        y0,
        wadd(wsub(wmul(x, x), wmul(y, y)), x0),
        wadd(wmul(wmul(x, y), 2), y0),
        (c - 1) as nat,
    ));
    lemma_stack_mandel_smart_loop(g16, (c - 1) as u32, x0, y0, m, wadd(wsub(wmul(x, x), wmul(y, y)), x0), wadd(wmul(wmul(y, x), 2i64), y0));
    let rest = mandel_result(m, (c - 1) as u32, x0, y0, wadd(wsub(wmul(x, x), wmul(y, y)), x0), wadd(wmul(wmul(y, x), 2i64), y0));
    let n = choose|n: nat| stack::run_to(code, g16, n) == stack::Outcome::Returned(rest);
    stack::lemma_run_to_add(code, s, 25, n, g16);
    assert(rest == mandel_result(m, c, x0, y0, x, y));
    assert(stack::run_to(code, s, 25 + n) == stack::Outcome::Returned(
        mandel_result(m, c, x0, y0, x, y),
    ));
    }
}

/// This Mandelbrot encoding returns the reference escape count for
/// every coordinate pair and every iteration cap that fits the loop
/// counter.
pub proof fn stack_mandel_smart_produces(x0: i64, y0: i64, n: i64)
    requires
        0 <= n <= u32::MAX,
    ensures
        stack::produces(
            stack::mandel_smart_code(),
            seq![x0, y0, n],
            mandel_steps(x0, y0, 0, 0, n as nat) as i64,
        ),
        stack::completes(stack::mandel_smart_code(), seq![x0, y0, n]),
{
    let code = stack::mandel_smart_code();
    let args: Seq<i64> = seq![x0, y0, n];
    let s0 = stack::init_state(args);
    lemma_low32_small(n);
    assert(stack::run_to(code, s0, 0) == stack::Outcome::Pending(s0));
    assert((s0.stack.push(s0.stack[2])) =~= seq![x0, y0, n, n]);
    let p0 = stack::State { pc: 1int, stack: seq![x0, y0, n, n], ..s0 };
    assert(stack::step(code, s0) == stack::Step::Going(p0));
    stack::lemma_run_to_step(code, s0, 0, s0);
    assert((p0.stack.subrange(0, 3)) =~= seq![x0, y0, n]);
    let p1 = stack::State { pc: 2int, counter: low32(n), stack: seq![x0, y0, n] };
    assert(stack::step(code, p0) == stack::Step::Going(p1));
    stack::lemma_run_to_step(code, s0, 1, p0);
    assert((p1.stack.push(0i64)) =~= seq![x0, y0, n, 0i64]);
    let p2 = stack::State { pc: 3int, stack: seq![x0, y0, n, 0i64], ..p1 };
    assert(stack::step(code, p1) == stack::Step::Going(p2));
    stack::lemma_run_to_step(code, s0, 2, p1);
    assert((p2.stack.push(0i64)) =~= seq![x0, y0, n, 0i64, 0i64]);
    let p3 = stack::State { pc: 4int, stack: seq![x0, y0, n, 0i64, 0i64], ..p2 };
    assert(stack::step(code, p2) == stack::Step::Going(p3));
    stack::lemma_run_to_step(code, s0, 3, p2);
    let pj = stack::State { pc: 21int, ..p3 };
    assert(stack::step(code, p3) == stack::Step::Going(pj));
    stack::lemma_run_to_step(code, s0, 4, p3);
    lemma_stack_mandel_smart_loop(pj, n as u32, x0, y0, n, 0i64, 0i64);
    let value = mandel_result(n, n as u32, x0, y0, 0i64, 0i64);
    let nn = choose|t: nat| stack::run_to(code, pj, t) == stack::Outcome::Returned(value);
    stack::lemma_run_to_add(code, s0, 5, nn, pj);
    lemma_mandel_steps_le(x0, y0, 0i64, 0i64, n as nat);
    assert(value == mandel_steps(x0, y0, 0, 0, n as nat) as i64);
    assert(stack::run_to(code, s0, 5 + nn) == stack::Outcome::Returned(
        mandel_steps(x0, y0, 0, 0, n as nat) as i64,
    ));
    assert(stack::produces(code, args, mandel_steps(x0, y0, 0, 0, n as nat) as i64));
}

/// One loop entry of this Mandelbrot encoding: from the escape test
/// with counter `c` and the orbit `(x, y)` in its slots, execution
/// returns the machine's iteration count for the cap value `m`.
#[verifier::rlimit(100)]
#[verifier::spinoff_prover]
proof fn lemma_stack_mandel_naive_loop(s: stack::State, c: u32, x0: i64, y0: i64, m: i64, x: i64, y: i64, w: i64)
    requires
        s.pc == 26,
        s.counter == c,
        s.stack == seq![x0, y0, m, x, y, w],
    ensures
        exists|n: nat|
            stack::run_to(stack::mandel_naive_code(), s, n) == stack::Outcome::Returned(
                mandel_result(m, c, x0, y0, x, y),
            ),
    decreases c,
{
    let code = stack::mandel_naive_code();
    assert(stack::run_to(code, s, 0) == stack::Outcome::Pending(s));
    assert((s.stack.push(s.stack[3])) =~= seq![x0, y0, m, x, y, w, x]);
    let a1 = stack::State { pc: 27int, stack: seq![x0, y0, m, x, y, w, x], ..s };
    assert(stack::step(code, s) == stack::Step::Going(a1));
    stack::lemma_run_to_step(code, s, 0, s);
    assert((a1.stack.push(a1.stack[3])) =~= seq![x0, y0, m, x, y, w, x, x]);
    let a2 = stack::State { pc: 28int, stack: seq![x0, y0, m, x, y, w, x, x], ..a1 };
    assert(stack::step(code, a1) == stack::Step::Going(a2));
    stack::lemma_run_to_step(code, s, 1, a1);
    assert((a2.stack.update(6, wmul(a2.stack[6], a2.stack[7])).subrange(0, 7)) =~= seq![x0, y0, m, x, y, w, wmul(x, x)]);
    let a3 = stack::State { pc: 29int, stack: seq![x0, y0, m, x, y, w, wmul(x, x)], ..a2 };
    assert(stack::step(code, a2) == stack::Step::Going(a3));
    stack::lemma_run_to_step(code, s, 2, a2);
    assert((a3.stack.push(a3.stack[4])) =~= seq![x0, y0, m, x, y, w, wmul(x, x), y]);
    let a4 = stack::State { pc: 30int, stack: seq![x0, y0, m, x, y, w, wmul(x, x), y], ..a3 };
    assert(stack::step(code, a3) == stack::Step::Going(a4));
    stack::lemma_run_to_step(code, s, 3, a3);
    assert((a4.stack.push(a4.stack[4])) =~= seq![x0, y0, m, x, y, w, wmul(x, x), y, y]);
    let a5 = stack::State { pc: 31int, stack: seq![x0, y0, m, x, y, w, wmul(x, x), y, y], ..a4 };
    assert(stack::step(code, a4) == stack::Step::Going(a5));
    stack::lemma_run_to_step(code, s, 4, a4);
    assert((a5.stack.update(7, wmul(a5.stack[7], a5.stack[8])).subrange(0, 8)) =~= seq![x0, y0, m, x, y, w, wmul(x, x), wmul(y, y)]);
    let a6 = stack::State { pc: 32int, stack: seq![x0, y0, m, x, y, w, wmul(x, x), wmul(y, y)], ..a5 };
    assert(stack::step(code, a5) == stack::Step::Going(a6));
    stack::lemma_run_to_step(code, s, 5, a5);
    assert((a6.stack.update(6, wadd(a6.stack[6], a6.stack[7])).subrange(0, 7)) =~= seq![x0, y0, m, x, y, w, wadd(wmul(x, x), wmul(y, y))]);
    let a7 = stack::State { pc: 33int, stack: seq![x0, y0, m, x, y, w, wadd(wmul(x, x), wmul(y, y))], ..a6 };
    assert(stack::step(code, a6) == stack::Step::Going(a7));
    stack::lemma_run_to_step(code, s, 6, a6);
    assert((a7.stack.push(4i64)) =~= seq![x0, y0, m, x, y, w, wadd(wmul(x, x), wmul(y, y)), 4i64]);
    let a8 = stack::State { pc: 34int, stack: seq![x0, y0, m, x, y, w, wadd(wmul(x, x), wmul(y, y)), 4i64], ..a7 };
    assert(stack::step(code, a7) == stack::Step::Going(a8));
    stack::lemma_run_to_step(code, s, 7, a7);

    let cond = wadd(wmul(x, x), wmul(y, y)) <= 4i64 && c > 0;
    if !cond {
        let f0 = stack::State { pc: 35int, stack: seq![x0, y0, m, x, y, w], ..a8 };
        assert((a8.stack.subrange(0, 6)) =~= seq![x0, y0, m, x, y, w]);
        assert(stack::step(code, a8) == stack::Step::Going(f0));
        stack::lemma_run_to_step(code, s, 8, a8);
    assert((f0.stack.push(f0.stack[2])) =~= seq![x0, y0, m, x, y, w, m]);
    let f1 = stack::State { pc: 36int, stack: seq![x0, y0, m, x, y, w, m], ..f0 };
    assert(stack::step(code, f0) == stack::Step::Going(f1));
    stack::lemma_run_to_step(code, s, 9, f0);
    assert((f1.stack.push(f1.counter as i64)) =~= seq![x0, y0, m, x, y, w, m, f1.counter as i64]);
    let f2 = stack::State { pc: 37int, stack: seq![x0, y0, m, x, y, w, m, f1.counter as i64], ..f1 };
    assert(stack::step(code, f1) == stack::Step::Going(f2));
    stack::lemma_run_to_step(code, s, 10, f1);
    assert((f2.stack.update(6, wsub(f2.stack[6], f2.stack[7])).subrange(0, 7)) =~= seq![x0, y0, m, x, y, w, wsub(m, f1.counter as i64)]);
    let f3 = stack::State { pc: 38int, stack: seq![x0, y0, m, x, y, w, wsub(m, f1.counter as i64)], ..f2 };
    assert(stack::step(code, f2) == stack::Step::Going(f3));
    stack::lemma_run_to_step(code, s, 11, f2);
    assert(stack::step(code, f3) == stack::Step::Done(wsub(m, f1.counter as i64)));
    stack::lemma_run_to_step(code, s, 12, f3);
    assert(mandel_steps(x0, y0, x, y, c as nat) == 0);
    assert(mandel_result(m, c, x0, y0, x, y) == wsub(m, f1.counter as i64));
    assert(stack::run_to(code, s, 13) == stack::Outcome::Returned(
        mandel_result(m, c, x0, y0, x, y),
    ));
    } else {
        let g0 = stack::State {
            pc: 6int,
            counter: (c - 1) as u32,
            stack: seq![x0, y0, m, x, y, w],
        };
        assert((a8.stack.subrange(0, 6)) =~= seq![x0, y0, m, x, y, w]);
        assert(stack::step(code, a8) == stack::Step::Going(g0));
        stack::lemma_run_to_step(code, s, 8, a8);
    assert((g0.stack.push(g0.stack[3])) =~= seq![x0, y0, m, x, y, w, x]);
    let g1 = stack::State { pc: 7int, stack: seq![x0, y0, m, x, y, w, x], ..g0 };
    assert(stack::step(code, g0) == stack::Step::Going(g1));
    stack::lemma_run_to_step(code, s, 9, g0);
    assert((g1.stack.push(g1.stack[3])) =~= seq![x0, y0, m, x, y, w, x, x]);
    let g2 = stack::State { pc: 8int, stack: seq![x0, y0, m, x, y, w, x, x], ..g1 };
    assert(stack::step(code, g1) == stack::Step::Going(g2));
    stack::lemma_run_to_step(code, s, 10, g1);
    assert((g2.stack.update(6, wmul(g2.stack[6], g2.stack[7])).subrange(0, 7)) =~= seq![x0, y0, m, x, y, w, wmul(x, x)]);
    let g3 = stack::State { pc: 9int, stack: seq![x0, y0, m, x, y, w, wmul(x, x)], ..g2 };
    assert(stack::step(code, g2) == stack::Step::Going(g3));
    stack::lemma_run_to_step(code, s, 11, g2);
    assert((g3.stack.push(g3.stack[4])) =~= seq![x0, y0, m, x, y, w, wmul(x, x), y]);
    let g4 = stack::State { pc: 10int, stack: seq![x0, y0, m, x, y, w, wmul(x, x), y], ..g3 };
    assert(stack::step(code, g3) == stack::Step::Going(g4));
    stack::lemma_run_to_step(code, s, 12, g3);
    assert((g4.stack.push(g4.stack[4])) =~= seq![x0, y0, m, x, y, w, wmul(x, x), y, y]);
    let g5 = stack::State { pc: 11int, stack: seq![x0, y0, m, x, y, w, wmul(x, x), y, y], ..g4 };
    assert(stack::step(code, g4) == stack::Step::Going(g5));
    stack::lemma_run_to_step(code, s, 13, g4);
    assert((g5.stack.update(7, wmul(g5.stack[7], g5.stack[8])).subrange(0, 8)) =~= seq![x0, y0, m, x, y, w, wmul(x, x), wmul(y, y)]);
    let g6 = stack::State { pc: 12int, stack: seq![x0, y0, m, x, y, w, wmul(x, x), wmul(y, y)], ..g5 };
    assert(stack::step(code, g5) == stack::Step::Going(g6));
    stack::lemma_run_to_step(code, s, 14, g5);
    assert((g6.stack.update(6, wsub(g6.stack[6], g6.stack[7])).subrange(0, 7)) =~= seq![x0, y0, m, x, y, w, wsub(wmul(x, x), wmul(y, y))]);
    let g7 = stack::State { pc: 13int, stack: seq![x0, y0, m, x, y, w, wsub(wmul(x, x), wmul(y, y))], ..g6 };
    assert(stack::step(code, g6) == stack::Step::Going(g7));
    stack::lemma_run_to_step(code, s, 15, g6);
    assert((g7.stack.push(g7.stack[0])) =~= seq![x0, y0, m, x, y, w, wsub(wmul(x, x), wmul(y, y)), x0]);
    let g8 = stack::State { pc: 14int, stack: seq![x0, y0, m, x, y, w, wsub(wmul(x, x), wmul(y, y)), x0], ..g7 };
    assert(stack::step(code, g7) == stack::Step::Going(g8));
    stack::lemma_run_to_step(code, s, 16, g7);
    assert((g8.stack.update(6, wadd(g8.stack[6], g8.stack[7])).subrange(0, 7)) =~= seq![x0, y0, m, x, y, w, wadd(wsub(wmul(x, x), wmul(y, y)), x0)]);
    let g9 = stack::State { pc: 15int, stack: seq![x0, y0, m, x, y, w, wadd(wsub(wmul(x, x), wmul(y, y)), x0)], ..g8 };
    assert(stack::step(code, g8) == stack::Step::Going(g9));
    stack::lemma_run_to_step(code, s, 17, g8);
    assert((g9.stack.subrange(0, 6).update(5, g9.stack[6])) =~= seq![x0, y0, m, x, y, wadd(wsub(wmul(x, x), wmul(y, y)), x0)]);
    let g10 = stack::State { pc: 16int, stack: seq![x0, y0, m, x, y, wadd(wsub(wmul(x, x), wmul(y, y)), x0)], ..g9 };
    assert(stack::step(code, g9) == stack::Step::Going(g10));
    stack::lemma_run_to_step(code, s, 18, g9);
    assert((g10.stack.push(g10.stack[3])) =~= seq![x0, y0, m, x, y, wadd(wsub(wmul(x, x), wmul(y, y)), x0), x]);
    let g11 = stack::State { pc: 17int, stack: seq![x0, y0, m, x, y, wadd(wsub(wmul(x, x), wmul(y, y)), x0), x], ..g10 };
    assert(stack::step(code, g10) == stack::Step::Going(g11));
    stack::lemma_run_to_step(code, s, 19, g10);
    assert((g11.stack.push(g11.stack[4])) =~= seq![x0, y0, m, x, y, wadd(wsub(wmul(x, x), wmul(y, y)), x0), x, y]);
    let g12 = stack::State { pc: 18int, stack: seq![x0, y0, m, x, y, wadd(wsub(wmul(x, x), wmul(y, y)), x0), x, y], ..g11 };
    assert(stack::step(code, g11) == stack::Step::Going(g12));
    stack::lemma_run_to_step(code, s, 20, g11);
    assert((g12.stack.update(6, wmul(g12.stack[6], g12.stack[7])).subrange(0, 7)) =~= seq![x0, y0, m, x, y, wadd(wsub(wmul(x, x), wmul(y, y)), x0), wmul(x, y)]);
    let g13 = stack::State { pc: 19int, stack: seq![x0, y0, m, x, y, wadd(wsub(wmul(x, x), wmul(y, y)), x0), wmul(x, y)], ..g12 };
    assert(stack::step(code, g12) == stack::Step::Going(g13));
    stack::lemma_run_to_step(code, s, 21, g12);
    assert((g13.stack.push(2i64)) =~= seq![x0, y0, m, x, y, wadd(wsub(wmul(x, x), wmul(y, y)), x0), wmul(x, y), 2i64]);
    let g14 = stack::State { pc: 20int, stack: seq![x0, y0, m, x, y, wadd(wsub(wmul(x, x), wmul(y, y)), x0), wmul(x, y), 2i64], ..g13 };
    assert(stack::step(code, g13) == stack::Step::Going(g14));
    stack::lemma_run_to_step(code, s, 22, g13);
    assert((g14.stack.update(6, wmul(g14.stack[6], g14.stack[7])).subrange(0, 7)) =~= seq![x0, y0, m, x, y, wadd(wsub(wmul(x, x), wmul(y, y)), x0), wmul(wmul(x, y), 2i64)]);
    let g15 = stack::State { pc: 21int, stack: seq![x0, y0, m, x, y, wadd(wsub(wmul(x, x), wmul(y, y)), x0), wmul(wmul(x, y), 2i64)], ..g14 };
    assert(stack::step(code, g14) == stack::Step::Going(g15));
    stack::lemma_run_to_step(code, s, 23, g14);
    assert((g15.stack.push(g15.stack[1])) =~= seq![x0, y0, m, x, y, wadd(wsub(wmul(x, x), wmul(y, y)), x0), wmul(wmul(x, y), 2i64), y0]);
    let g16 = stack::State { pc: 22int, stack: seq![x0, y0, m, x, y, wadd(wsub(wmul(x, x), wmul(y, y)), x0), wmul(wmul(x, y), 2i64), y0], ..g15 };
    assert(stack::step(code, g15) == stack::Step::Going(g16));
    stack::lemma_run_to_step(code, s, 24, g15);
    assert((g16.stack.update(6, wadd(g16.stack[6], g16.stack[7])).subrange(0, 7)) =~= seq![x0, y0, m, x, y, wadd(wsub(wmul(x, x), wmul(y, y)), x0), wadd(wmul(wmul(x, y), 2i64), y0)]);
    let g17 = stack::State { pc: 23int, stack: seq![x0, y0, m, x, y, wadd(wsub(wmul(x, x), wmul(y, y)), x0), wadd(wmul(wmul(x, y), 2i64), y0)], ..g16 };
    assert(stack::step(code, g16) == stack::Step::Going(g17));
    stack::lemma_run_to_step(code, s, 25, g16);
    assert((g17.stack.subrange(0, 6).update(4, g17.stack[6])) =~= seq![x0, y0, m, x, wadd(wmul(wmul(x, y), 2i64), y0), wadd(wsub(wmul(x, x), wmul(y, y)), x0)]);
    let g18 = stack::State { pc: 24int, stack: seq![x0, y0, m, x, wadd(wmul(wmul(x, y), 2i64), y0), wadd(wsub(wmul(x, x), wmul(y, y)), x0)], ..g17 };
    assert(stack::step(code, g17) == stack::Step::Going(g18));
    stack::lemma_run_to_step(code, s, 26, g17);
    assert((g18.stack.push(g18.stack[5])) =~= seq![x0, y0, m, x, wadd(wmul(wmul(x, y), 2i64), y0), wadd(wsub(wmul(x, x), wmul(y, y)), x0), wadd(wsub(wmul(x, x), wmul(y, y)), x0)]);
    let g19 = stack::State { pc: 25int, stack: seq![x0, y0, m, x, wadd(wmul(wmul(x, y), 2i64), y0), wadd(wsub(wmul(x, x), wmul(y, y)), x0), wadd(wsub(wmul(x, x), wmul(y, y)), x0)], ..g18 };
    assert(stack::step(code, g18) == stack::Step::Going(g19));
    stack::lemma_run_to_step(code, s, 27, g18);
    assert((g19.stack.subrange(0, 6).update(3, g19.stack[6])) =~= seq![x0, y0, m, wadd(wsub(wmul(x, x), wmul(y, y)), x0), wadd(wmul(wmul(x, y), 2i64), y0), wadd(wsub(wmul(x, x), wmul(y, y)), x0)]);
    let g20 = stack::State { pc: 26int, stack: seq![x0, y0, m, wadd(wsub(wmul(x, x), wmul(y, y)), x0), wadd(wmul(wmul(x, y), 2i64), y0), wadd(wsub(wmul(x, x), wmul(y, y)), x0)], ..g19 };
    assert(stack::step(code, g19) == stack::Step::Going(g20));
    stack::lemma_run_to_step(code, s, 28, g19);

    assert(wmul(y, x) == wmul(x, y)) by (nonlinear_arith);
    assert(wadd(wsub(wmul(x, x), wmul(y, y)), x0) == wadd(wsub(wmul(x, x), wmul(y, y)), x0));
    assert(wadd(wmul(wmul(x, y), 2i64), y0) == wadd(wmul(wmul(x, y), 2), y0));
    lemma_mandel_steps_le(x0, y0, wadd(wsub(wmul(x, x), wmul(y, y)), x0), wadd(wmul(wmul(x, y), 2), y0), (c - 1) as nat);
    assert(mandel_steps(x0, y0, x, y, c as nat) == 1 + mandel_steps(
        x0,
        y0,
        wadd(wsub(wmul(x, x), wmul(y, y)), x0),
        wadd(wmul(wmul(x, y), 2), y0),
        (c - 1) as nat,
    ));
    lemma_stack_mandel_naive_loop(g20, (c - 1) as u32, x0, y0, m, wadd(wsub(wmul(x, x), wmul(y, y)), x0), wadd(wmul(wmul(x, y), 2i64), y0), wadd(wsub(wmul(x, x), wmul(y, y)), x0));
    let rest = mandel_result(m, (c - 1) as u32, x0, y0, wadd(wsub(wmul(x, x), wmul(y, y)), x0), wadd(wmul(wmul(x, y), 2i64), y0));
    let n = choose|n: nat| stack::run_to(code, g20, n) == stack::Outcome::Returned(rest);
    stack::lemma_run_to_add(code, s, 29, n, g20);
    assert(rest == mandel_result(m, c, x0, y0, x, y));
    assert(stack::run_to(code, s, 29 + n) == stack::Outcome::Returned(
        mandel_result(m, c, x0, y0, x, y),
    ));
    }
}

/// This Mandelbrot encoding returns the reference escape count for
/// every coordinate pair and every iteration cap that fits the loop
/// counter.
pub proof fn stack_mandel_naive_produces(x0: i64, y0: i64, n: i64)
    requires
        0 <= n <= u32::MAX,
    ensures
        stack::produces(
            stack::mandel_naive_code(),
            seq![x0, y0, n],
            mandel_steps(x0, y0, 0, 0, n as nat) as i64,
        ),
        stack::completes(stack::mandel_naive_code(), seq![x0, y0, n]),
{
    let code = stack::mandel_naive_code();
    let args: Seq<i64> = seq![x0, y0, n];
    let s0 = stack::init_state(args);
    lemma_low32_small(n);
    assert(stack::run_to(code, s0, 0) == stack::Outcome::Pending(s0));
    assert((s0.stack.push(s0.stack[2])) =~= seq![x0, y0, n, n]);
    let p0 = stack::State { pc: 1int, stack: seq![x0, y0, n, n], ..s0 };
    assert(stack::step(code, s0) == stack::Step::Going(p0));
    stack::lemma_run_to_step(code, s0, 0, s0);
    assert((p0.stack.subrange(0, 3)) =~= seq![x0, y0, n]);
    let p1 = stack::State { pc: 2int, counter: low32(n), stack: seq![x0, y0, n] };
    assert(stack::step(code, p0) == stack::Step::Going(p1));
    stack::lemma_run_to_step(code, s0, 1, p0);
    assert((p1.stack.push(0i64)) =~= seq![x0, y0, n, 0i64]);
    let p2 = stack::State { pc: 3int, stack: seq![x0, y0, n, 0i64], ..p1 };
    assert(stack::step(code, p1) == stack::Step::Going(p2));
    stack::lemma_run_to_step(code, s0, 2, p1);
    assert((p2.stack.push(0i64)) =~= seq![x0, y0, n, 0i64, 0i64]);
    let p3 = stack::State { pc: 4int, stack: seq![x0, y0, n, 0i64, 0i64], ..p2 };
    assert(stack::step(code, p2) == stack::Step::Going(p3));
    stack::lemma_run_to_step(code, s0, 3, p2);
    assert((p3.stack.push(0i64)) =~= seq![x0, y0, n, 0i64, 0i64, 0i64]);
    let p4 = stack::State { pc: 5int, stack: seq![x0, y0, n, 0i64, 0i64, 0i64], ..p3 };
    assert(stack::step(code, p3) == stack::Step::Going(p4));
    stack::lemma_run_to_step(code, s0, 4, p3);
    let pj = stack::State { pc: 26int, ..p4 };
    assert(stack::step(code, p4) == stack::Step::Going(pj));
    stack::lemma_run_to_step(code, s0, 5, p4);
    lemma_stack_mandel_naive_loop(pj, n as u32, x0, y0, n, 0i64, 0i64, 0i64);
    let value = mandel_result(n, n as u32, x0, y0, 0i64, 0i64);
    let nn = choose|t: nat| stack::run_to(code, pj, t) == stack::Outcome::Returned(value);
    stack::lemma_run_to_add(code, s0, 6, nn, pj);
    lemma_mandel_steps_le(x0, y0, 0i64, 0i64, n as nat);
    assert(value == mandel_steps(x0, y0, 0, 0, n as nat) as i64);
    assert(stack::run_to(code, s0, 6 + nn) == stack::Outcome::Returned(
        mandel_steps(x0, y0, 0, 0, n as nat) as i64,
    ));
    assert(stack::produces(code, args, mandel_steps(x0, y0, 0, 0, n as nat) as i64));
}

/// One loop entry of this Mandelbrot encoding: from the escape test
/// with counter `c` and the orbit `(x, y)` in its slots, execution
/// returns the machine's iteration count for the cap value `m`.
#[verifier::rlimit(100)]
#[verifier::spinoff_prover]
proof fn lemma_stack_mandel_smart_nops_slow_loop(s: stack::State, c: u32, x0: i64, y0: i64, m: i64, x: i64, y: i64)
    requires
        s.pc == 24,
        s.counter == c,
        s.stack == seq![x0, y0, m, x, y],
    ensures
        exists|n: nat|
            stack::run_to(stack::mandel_smart_nops_slow_code(), s, n) == stack::Outcome::Returned(
                mandel_result(m, c, x0, y0, x, y),
            ),
    decreases c,
{
    let code = stack::mandel_smart_nops_slow_code();
    assert(stack::run_to(code, s, 0) == stack::Outcome::Pending(s));
    assert((s.stack.push(s.stack[3])) =~= seq![x0, y0, m, x, y, x]);
    let a1 = stack::State { pc: 25int, stack: seq![x0, y0, m, x, y, x], ..s };
    assert(stack::step(code, s) == stack::Step::Going(a1));
    stack::lemma_run_to_step(code, s, 0, s);
    assert((a1.stack.push(a1.stack[5])) =~= seq![x0, y0, m, x, y, x, x]);
    let a2 = stack::State { pc: 26int, stack: seq![x0, y0, m, x, y, x, x], ..a1 };
    assert(stack::step(code, a1) == stack::Step::Going(a2));
    stack::lemma_run_to_step(code, s, 1, a1);
    assert((a2.stack.update(5, wmul(a2.stack[5], a2.stack[6])).subrange(0, 6)) =~= seq![x0, y0, m, x, y, wmul(x, x)]);
    let a3 = stack::State { pc: 27int, stack: seq![x0, y0, m, x, y, wmul(x, x)], ..a2 };
    assert(stack::step(code, a2) == stack::Step::Going(a3));
    stack::lemma_run_to_step(code, s, 2, a2);
    assert((a3.stack.push(a3.stack[4])) =~= seq![x0, y0, m, x, y, wmul(x, x), y]);
    let a4 = stack::State { pc: 28int, stack: seq![x0, y0, m, x, y, wmul(x, x), y], ..a3 };
    assert(stack::step(code, a3) == stack::Step::Going(a4));
    stack::lemma_run_to_step(code, s, 3, a3);
    assert((a4.stack.push(a4.stack[6])) =~= seq![x0, y0, m, x, y, wmul(x, x), y, y]);
    let a5 = stack::State { pc: 29int, stack: seq![x0, y0, m, x, y, wmul(x, x), y, y], ..a4 };
    assert(stack::step(code, a4) == stack::Step::Going(a5));
    stack::lemma_run_to_step(code, s, 4, a4);
    assert((a5.stack.update(6, wmul(a5.stack[6], a5.stack[7])).subrange(0, 7)) =~= seq![x0, y0, m, x, y, wmul(x, x), wmul(y, y)]);
    let a6 = stack::State { pc: 30int, stack: seq![x0, y0, m, x, y, wmul(x, x), wmul(y, y)], ..a5 };
    assert(stack::step(code, a5) == stack::Step::Going(a6));
    stack::lemma_run_to_step(code, s, 5, a5);
    assert((a6.stack.update(5, wadd(a6.stack[5], a6.stack[6])).subrange(0, 6)) =~= seq![x0, y0, m, x, y, wadd(wmul(x, x), wmul(y, y))]);
    let a7 = stack::State { pc: 31int, stack: seq![x0, y0, m, x, y, wadd(wmul(x, x), wmul(y, y))], ..a6 };
    assert(stack::step(code, a6) == stack::Step::Going(a7));
    stack::lemma_run_to_step(code, s, 6, a6);
    assert((a7.stack.push(4i64)) =~= seq![x0, y0, m, x, y, wadd(wmul(x, x), wmul(y, y)), 4i64]);
    let a8 = stack::State { pc: 32int, stack: seq![x0, y0, m, x, y, wadd(wmul(x, x), wmul(y, y)), 4i64], ..a7 };
    assert(stack::step(code, a7) == stack::Step::Going(a8));
    stack::lemma_run_to_step(code, s, 7, a7);

    let cond = wadd(wmul(x, x), wmul(y, y)) <= 4i64 && c > 0;
    if !cond {
        let f0 = stack::State { pc: 33int, stack: seq![x0, y0, m, x, y], ..a8 };
        assert((a8.stack.subrange(0, 5)) =~= seq![x0, y0, m, x, y]);
        assert(stack::step(code, a8) == stack::Step::Going(f0));
        stack::lemma_run_to_step(code, s, 8, a8);
    assert((f0.stack.push(f0.stack[2])) =~= seq![x0, y0, m, x, y, m]);
    let f1 = stack::State { pc: 34int, stack: seq![x0, y0, m, x, y, m], ..f0 };
    assert(stack::step(code, f0) == stack::Step::Going(f1));
    stack::lemma_run_to_step(code, s, 9, f0);
    assert((f1.stack.push(f1.counter as i64)) =~= seq![x0, y0, m, x, y, m, f1.counter as i64]);
    let f2 = stack::State { pc: 35int, stack: seq![x0, y0, m, x, y, m, f1.counter as i64], ..f1 };
    assert(stack::step(code, f1) == stack::Step::Going(f2));
    stack::lemma_run_to_step(code, s, 10, f1);
    assert((f2.stack.update(5, wsub(f2.stack[5], f2.stack[6])).subrange(0, 6)) =~= seq![x0, y0, m, x, y, wsub(m, f1.counter as i64)]);
    let f3 = stack::State { pc: 36int, stack: seq![x0, y0, m, x, y, wsub(m, f1.counter as i64)], ..f2 };
    assert(stack::step(code, f2) == stack::Step::Going(f3));
    stack::lemma_run_to_step(code, s, 11, f2);
    assert(stack::step(code, f3) == stack::Step::Done(wsub(m, f1.counter as i64)));
    stack::lemma_run_to_step(code, s, 12, f3);
    assert(mandel_steps(x0, y0, x, y, c as nat) == 0);
    assert(mandel_result(m, c, x0, y0, x, y) == wsub(m, f1.counter as i64));
    assert(stack::run_to(code, s, 13) == stack::Outcome::Returned(
        mandel_result(m, c, x0, y0, x, y),
    ));
    } else {
        let g0 = stack::State {
            pc: 5int,
            counter: (c - 1) as u32,
            stack: seq![x0, y0, m, x, y],
        };
        assert((a8.stack.subrange(0, 5)) =~= seq![x0, y0, m, x, y]);
        assert(stack::step(code, a8) == stack::Step::Going(g0));
        stack::lemma_run_to_step(code, s, 8, a8);
    assert((g0.stack.push(g0.stack[3])) =~= seq![x0, y0, m, x, y, x]);
    let g1 = stack::State { pc: 6int, stack: seq![x0, y0, m, x, y, x], ..g0 };
    assert(stack::step(code, g0) == stack::Step::Going(g1));
    stack::lemma_run_to_step(code, s, 9, g0);
    assert((g1.stack.push(g1.stack[5])) =~= seq![x0, y0, m, x, y, x, x]);
    let g2 = stack::State { pc: 7int, stack: seq![x0, y0, m, x, y, x, x], ..g1 };
    assert(stack::step(code, g1) == stack::Step::Going(g2));
    stack::lemma_run_to_step(code, s, 10, g1);
    assert((g2.stack.update(5, wmul(g2.stack[5], g2.stack[6])).subrange(0, 6)) =~= seq![x0, y0, m, x, y, wmul(x, x)]);
    let g3 = stack::State { pc: 8int, stack: seq![x0, y0, m, x, y, wmul(x, x)], ..g2 };
    assert(stack::step(code, g2) == stack::Step::Going(g3));
    stack::lemma_run_to_step(code, s, 11, g2);
    assert((g3.stack.push(g3.stack[4])) =~= seq![x0, y0, m, x, y, wmul(x, x), y]);
    let g4 = stack::State { pc: 9int, stack: seq![x0, y0, m, x, y, wmul(x, x), y], ..g3 };
    assert(stack::step(code, g3) == stack::Step::Going(g4));
    stack::lemma_run_to_step(code, s, 12, g3);
    let g5 = stack::State { pc: 10int, ..g4 };
    assert(stack::step(code, g4) == stack::Step::Going(g5));
    stack::lemma_run_to_step(code, s, 13, g4);
    let g6 = stack::State { pc: 11int, ..g5 };
    assert(stack::step(code, g5) == stack::Step::Going(g6));
    stack::lemma_run_to_step(code, s, 14, g5);
    let g7 = stack::State { pc: 12int, ..g6 };
    assert(stack::step(code, g6) == stack::Step::Going(g7));
    stack::lemma_run_to_step(code, s, 15, g6);
    assert((g7.stack.push(g7.stack[6])) =~= seq![x0, y0, m, x, y, wmul(x, x), y, y]);
    let g8 = stack::State { pc: 13int, stack: seq![x0, y0, m, x, y, wmul(x, x), y, y], ..g7 };
    assert(stack::step(code, g7) == stack::Step::Going(g8));
    stack::lemma_run_to_step(code, s, 16, g7);
    assert((g8.stack.update(6, wmul(g8.stack[6], g8.stack[7])).subrange(0, 7)) =~= seq![x0, y0, m, x, y, wmul(x, x), wmul(y, y)]);
    let g9 = stack::State { pc: 14int, stack: seq![x0, y0, m, x, y, wmul(x, x), wmul(y, y)], ..g8 };
    assert(stack::step(code, g8) == stack::Step::Going(g9));
    stack::lemma_run_to_step(code, s, 17, g8);
    assert((g9.stack.update(5, wsub(g9.stack[5], g9.stack[6])).subrange(0, 6)) =~= seq![x0, y0, m, x, y, wsub(wmul(x, x), wmul(y, y))]);
    let g10 = stack::State { pc: 15int, stack: seq![x0, y0, m, x, y, wsub(wmul(x, x), wmul(y, y))], ..g9 };
    assert(stack::step(code, g9) == stack::Step::Going(g10));
    stack::lemma_run_to_step(code, s, 18, g9);
    assert((g10.stack.push(g10.stack[0])) =~= seq![x0, y0, m, x, y, wsub(wmul(x, x), wmul(y, y)), x0]);
    let g11 = stack::State { pc: 16int, stack: seq![x0, y0, m, x, y, wsub(wmul(x, x), wmul(y, y)), x0], ..g10 };
    assert(stack::step(code, g10) == stack::Step::Going(g11));
    stack::lemma_run_to_step(code, s, 19, g10);
    assert((g11.stack.update(5, wadd(g11.stack[5], g11.stack[6])).subrange(0, 6)) =~= seq![x0, y0, m, x, y, wadd(wsub(wmul(x, x), wmul(y, y)), x0)]);
    let g12 = stack::State { pc: 17int, stack: seq![x0, y0, m, x, y, wadd(wsub(wmul(x, x), wmul(y, y)), x0)], ..g11 };
    assert(stack::step(code, g11) == stack::Step::Going(g12));
    stack::lemma_run_to_step(code, s, 20, g11);
    assert((g12.stack.update(4, g12.stack[5]).update(5, g12.stack[4])) =~= seq![x0, y0, m, x, wadd(wsub(wmul(x, x), wmul(y, y)), x0), y]);
    let g13 = stack::State { pc: 18int, stack: seq![x0, y0, m, x, wadd(wsub(wmul(x, x), wmul(y, y)), x0), y], ..g12 };
    assert(stack::step(code, g12) == stack::Step::Going(g13));
    stack::lemma_run_to_step(code, s, 21, g12);
    assert((g13.stack.update(3, g13.stack[4]).update(4, g13.stack[5]).update(5, g13.stack[3])) =~= seq![x0, y0, m, wadd(wsub(wmul(x, x), wmul(y, y)), x0), y, x]);
    let g14 = stack::State { pc: 19int, stack: seq![x0, y0, m, wadd(wsub(wmul(x, x), wmul(y, y)), x0), y, x], ..g13 };
    assert(stack::step(code, g13) == stack::Step::Going(g14));
    stack::lemma_run_to_step(code, s, 22, g13);
    assert((g14.stack.update(4, wmul(g14.stack[4], g14.stack[5])).subrange(0, 5)) =~= seq![x0, y0, m, wadd(wsub(wmul(x, x), wmul(y, y)), x0), wmul(y, x)]);
    let g15 = stack::State { pc: 20int, stack: seq![x0, y0, m, wadd(wsub(wmul(x, x), wmul(y, y)), x0), wmul(y, x)], ..g14 };
    assert(stack::step(code, g14) == stack::Step::Going(g15));
    stack::lemma_run_to_step(code, s, 23, g14);
    assert((g15.stack.push(2i64)) =~= seq![x0, y0, m, wadd(wsub(wmul(x, x), wmul(y, y)), x0), wmul(y, x), 2i64]);
    let g16 = stack::State { pc: 21int, stack: seq![x0, y0, m, wadd(wsub(wmul(x, x), wmul(y, y)), x0), wmul(y, x), 2i64], ..g15 };
    assert(stack::step(code, g15) == stack::Step::Going(g16));
    stack::lemma_run_to_step(code, s, 24, g15);
    assert((g16.stack.update(4, wmul(g16.stack[4], g16.stack[5])).subrange(0, 5)) =~= seq![x0, y0, m, wadd(wsub(wmul(x, x), wmul(y, y)), x0), wmul(wmul(y, x), 2i64)]);
    let g17 = stack::State { pc: 22int, stack: seq![x0, y0, m, wadd(wsub(wmul(x, x), wmul(y, y)), x0), wmul(wmul(y, x), 2i64)], ..g16 };
    assert(stack::step(code, g16) == stack::Step::Going(g17));
    stack::lemma_run_to_step(code, s, 25, g16);
    assert((g17.stack.push(g17.stack[1])) =~= seq![x0, y0, m, wadd(wsub(wmul(x, x), wmul(y, y)), x0), wmul(wmul(y, x), 2i64), y0]);
    let g18 = stack::State { pc: 23int, stack: seq![x0, y0, m, wadd(wsub(wmul(x, x), wmul(y, y)), x0), wmul(wmul(y, x), 2i64), y0], ..g17 };
    assert(stack::step(code, g17) == stack::Step::Going(g18));
    stack::lemma_run_to_step(code, s, 26, g17);
    assert((g18.stack.update(4, wadd(g18.stack[4], g18.stack[5])).subrange(0, 5)) =~= seq![x0, y0, m, wadd(wsub(wmul(x, x), wmul(y, y)), x0), wadd(wmul(wmul(y, x), 2i64), y0)]);
    let g19 = stack::State { pc: 24int, stack: seq![x0, y0, m, wadd(wsub(wmul(x, x), wmul(y, y)), x0), wadd(wmul(wmul(y, x), 2i64), y0)], ..g18 };
    assert(stack::step(code, g18) == stack::Step::Going(g19));
    stack::lemma_run_to_step(code, s, 27, g18);

    assert(wmul(y, x) == wmul(x, y)) by (nonlinear_arith);
    assert(wadd(wsub(wmul(x, x), wmul(y, y)), x0) == wadd(wsub(wmul(x, x), wmul(y, y)), x0));
    assert(wadd(wmul(wmul(y, x), 2i64), y0) == wadd(wmul(wmul(x, y), 2), y0));
    lemma_mandel_steps_le(x0, y0, wadd(wsub(wmul(x, x), wmul(y, y)), x0), wadd(wmul(wmul(x, y), 2), y0), (c - 1) as nat);
    assert(mandel_steps(x0, y0, x, y, c as nat) == 1 + mandel_steps(
        x0,
        y0,
        wadd(wsub(wmul(x, x), wmul(y, y)), x0),
        wadd(wmul(wmul(x, y), 2), y0),
        (c - 1) as nat,
    ));
    lemma_stack_mandel_smart_nops_slow_loop(g19, (c - 1) as u32, x0, y0, m, wadd(wsub(wmul(x, x), wmul(y, y)), x0), wadd(wmul(wmul(y, x), 2i64), y0));
    let rest = mandel_result(m, (c - 1) as u32, x0, y0, wadd(wsub(wmul(x, x), wmul(y, y)), x0), wadd(wmul(wmul(y, x), 2i64), y0));
    let n = choose|n: nat| stack::run_to(code, g19, n) == stack::Outcome::Returned(rest);
    stack::lemma_run_to_add(code, s, 28, n, g19);
    assert(rest == mandel_result(m, c, x0, y0, x, y));
    assert(stack::run_to(code, s, 28 + n) == stack::Outcome::Returned(
        mandel_result(m, c, x0, y0, x, y),
    ));
    }
}

/// This Mandelbrot encoding returns the reference escape count for
/// every coordinate pair and every iteration cap that fits the loop
/// counter.
pub proof fn stack_mandel_smart_nops_slow_produces(x0: i64, y0: i64, n: i64)
    requires
        0 <= n <= u32::MAX,
    ensures
        stack::produces(
            stack::mandel_smart_nops_slow_code(),
            seq![x0, y0, n],
            mandel_steps(x0, y0, 0, 0, n as nat) as i64,
        ),
        stack::completes(stack::mandel_smart_nops_slow_code(), seq![x0, y0, n]),
{
    let code = stack::mandel_smart_nops_slow_code();
    let args: Seq<i64> = seq![x0, y0, n];
    let s0 = stack::init_state(args);
    lemma_low32_small(n);
    assert(stack::run_to(code, s0, 0) == stack::Outcome::Pending(s0));
    assert((s0.stack.push(s0.stack[2])) =~= seq![x0, y0, n, n]);
    let p0 = stack::State { pc: 1int, stack: seq![x0, y0, n, n], ..s0 };
    assert(stack::step(code, s0) == stack::Step::Going(p0));
    stack::lemma_run_to_step(code, s0, 0, s0);
    assert((p0.stack.subrange(0, 3)) =~= seq![x0, y0, n]);
    let p1 = stack::State { pc: 2int, counter: low32(n), stack: seq![x0, y0, n] };
    assert(stack::step(code, p0) == stack::Step::Going(p1));
    stack::lemma_run_to_step(code, s0, 1, p0);
    assert((p1.stack.push(0i64)) =~= seq![x0, y0, n, 0i64]);
    let p2 = stack::State { pc: 3int, stack: seq![x0, y0, n, 0i64], ..p1 };
    assert(stack::step(code, p1) == stack::Step::Going(p2));
    stack::lemma_run_to_step(code, s0, 2, p1);
    assert((p2.stack.push(0i64)) =~= seq![x0, y0, n, 0i64, 0i64]);
    let p3 = stack::State { pc: 4int, stack: seq![x0, y0, n, 0i64, 0i64], ..p2 };
    assert(stack::step(code, p2) == stack::Step::Going(p3));
    stack::lemma_run_to_step(code, s0, 3, p2);
    let pj = stack::State { pc: 24int, ..p3 };
    assert(stack::step(code, p3) == stack::Step::Going(pj));
    stack::lemma_run_to_step(code, s0, 4, p3);
    lemma_stack_mandel_smart_nops_slow_loop(pj, n as u32, x0, y0, n, 0i64, 0i64);
    let value = mandel_result(n, n as u32, x0, y0, 0i64, 0i64);
    let nn = choose|t: nat| stack::run_to(code, pj, t) == stack::Outcome::Returned(value);
    stack::lemma_run_to_add(code, s0, 5, nn, pj);
    lemma_mandel_steps_le(x0, y0, 0i64, 0i64, n as nat);
    assert(value == mandel_steps(x0, y0, 0, 0, n as nat) as i64);
    assert(stack::run_to(code, s0, 5 + nn) == stack::Outcome::Returned(
        mandel_steps(x0, y0, 0, 0, n as nat) as i64,
    ));
    assert(stack::produces(code, args, mandel_steps(x0, y0, 0, 0, n as nat) as i64));
}

/// The hot block of this encoding, one pass: from the body entry the
/// orbit advances one iteration and control returns to the escape test.
#[verifier::rlimit(100)]
#[verifier::spinoff_prover]
proof fn lemma_stack_mandel_smart_nops_same_body(
    g0: stack::State,
    x0: i64,
    y0: i64,
    m: i64,
    x: i64,
    y: i64,
)
    requires
        g0.pc == 5,
        g0.stack == seq![x0, y0, m, x, y],
    ensures
        stack::run_to(stack::mandel_smart_nops_same_code(), g0, 19) == stack::Outcome::Pending(
            stack::State {
                pc: 24int,
                counter: g0.counter,
                stack: seq![x0, y0, m, wadd(wsub(wmul(x, x), wmul(y, y)), x0), wadd(wmul(wmul(y, x), 2i64), y0)],
            },
        ),
{
    let code = stack::mandel_smart_nops_same_code();
    assert(stack::run_to(code, g0, 0) == stack::Outcome::Pending(g0));
    assert((g0.stack.push(g0.stack[3])) =~= seq![x0, y0, m, x, y, x]);
    let g1 = stack::State { pc: 6int, stack: seq![x0, y0, m, x, y, x], ..g0 };
    assert(stack::step(code, g0) == stack::Step::Going(g1));
    stack::lemma_run_to_step(code, g0, 0, g0);
    assert((g1.stack.push(g1.stack[5])) =~= seq![x0, y0, m, x, y, x, x]);
    let g2 = stack::State { pc: 7int, stack: seq![x0, y0, m, x, y, x, x], ..g1 };
    assert(stack::step(code, g1) == stack::Step::Going(g2));
    stack::lemma_run_to_step(code, g0, 1, g1);
    assert((g2.stack.update(5, wmul(g2.stack[5], g2.stack[6])).subrange(0, 6)) =~= seq![x0, y0, m, x, y, wmul(x, x)]);
    let g3 = stack::State { pc: 8int, stack: seq![x0, y0, m, x, y, wmul(x, x)], ..g2 };
    assert(stack::step(code, g2) == stack::Step::Going(g3));
    stack::lemma_run_to_step(code, g0, 2, g2);
    assert((g3.stack.push(g3.stack[4])) =~= seq![x0, y0, m, x, y, wmul(x, x), y]);
    let g4 = stack::State { pc: 9int, stack: seq![x0, y0, m, x, y, wmul(x, x), y], ..g3 };
    assert(stack::step(code, g3) == stack::Step::Going(g4));
    stack::lemma_run_to_step(code, g0, 3, g3);
    assert((g4.stack.push(g4.stack[6])) =~= seq![x0, y0, m, x, y, wmul(x, x), y, y]);
    let g5 = stack::State { pc: 10int, stack: seq![x0, y0, m, x, y, wmul(x, x), y, y], ..g4 };
    assert(stack::step(code, g4) == stack::Step::Going(g5));
    stack::lemma_run_to_step(code, g0, 4, g4);
    assert((g5.stack.update(6, wmul(g5.stack[6], g5.stack[7])).subrange(0, 7)) =~= seq![x0, y0, m, x, y, wmul(x, x), wmul(y, y)]);
    let g6 = stack::State { pc: 11int, stack: seq![x0, y0, m, x, y, wmul(x, x), wmul(y, y)], ..g5 };
    assert(stack::step(code, g5) == stack::Step::Going(g6));
    stack::lemma_run_to_step(code, g0, 5, g5);
    assert((g6.stack.update(5, wsub(g6.stack[5], g6.stack[6])).subrange(0, 6)) =~= seq![x0, y0, m, x, y, wsub(wmul(x, x), wmul(y, y))]);
    let g7 = stack::State { pc: 12int, stack: seq![x0, y0, m, x, y, wsub(wmul(x, x), wmul(y, y))], ..g6 };
    assert(stack::step(code, g6) == stack::Step::Going(g7));
    stack::lemma_run_to_step(code, g0, 6, g6);
    assert((g7.stack.push(g7.stack[0])) =~= seq![x0, y0, m, x, y, wsub(wmul(x, x), wmul(y, y)), x0]);
    let g8 = stack::State { pc: 13int, stack: seq![x0, y0, m, x, y, wsub(wmul(x, x), wmul(y, y)), x0], ..g7 };
    assert(stack::step(code, g7) == stack::Step::Going(g8));
    stack::lemma_run_to_step(code, g0, 7, g7);
    assert((g8.stack.update(5, wadd(g8.stack[5], g8.stack[6])).subrange(0, 6)) =~= seq![x0, y0, m, x, y, wadd(wsub(wmul(x, x), wmul(y, y)), x0)]);
    let g9 = stack::State { pc: 14int, stack: seq![x0, y0, m, x, y, wadd(wsub(wmul(x, x), wmul(y, y)), x0)], ..g8 };
    assert(stack::step(code, g8) == stack::Step::Going(g9));
    stack::lemma_run_to_step(code, g0, 8, g8);
    assert((g9.stack.update(4, g9.stack[5]).update(5, g9.stack[4])) =~= seq![x0, y0, m, x, wadd(wsub(wmul(x, x), wmul(y, y)), x0), y]);
    let g10 = stack::State { pc: 15int, stack: seq![x0, y0, m, x, wadd(wsub(wmul(x, x), wmul(y, y)), x0), y], ..g9 };
    assert(stack::step(code, g9) == stack::Step::Going(g10));
    stack::lemma_run_to_step(code, g0, 9, g9);
    assert((g10.stack.update(3, g10.stack[4]).update(4, g10.stack[5]).update(5, g10.stack[3])) =~= seq![x0, y0, m, wadd(wsub(wmul(x, x), wmul(y, y)), x0), y, x]);
    let g11 = stack::State { pc: 16int, stack: seq![x0, y0, m, wadd(wsub(wmul(x, x), wmul(y, y)), x0), y, x], ..g10 };
    assert(stack::step(code, g10) == stack::Step::Going(g11));
    stack::lemma_run_to_step(code, g0, 10, g10);
    let g12 = stack::State { pc: 17int, ..g11 };
    assert(stack::step(code, g11) == stack::Step::Going(g12));
    stack::lemma_run_to_step(code, g0, 11, g11);
    let g13 = stack::State { pc: 18int, ..g12 };
    assert(stack::step(code, g12) == stack::Step::Going(g13));
    stack::lemma_run_to_step(code, g0, 12, g12);
    let g14 = stack::State { pc: 19int, ..g13 };
    assert(stack::step(code, g13) == stack::Step::Going(g14));
    stack::lemma_run_to_step(code, g0, 13, g13);
    assert((g14.stack.update(4, wmul(g14.stack[4], g14.stack[5])).subrange(0, 5)) =~= seq![x0, y0, m, wadd(wsub(wmul(x, x), wmul(y, y)), x0), wmul(y, x)]);
    let g15 = stack::State { pc: 20int, stack: seq![x0, y0, m, wadd(wsub(wmul(x, x), wmul(y, y)), x0), wmul(y, x)], ..g14 };
    assert(stack::step(code, g14) == stack::Step::Going(g15));
    stack::lemma_run_to_step(code, g0, 14, g14);
    assert((g15.stack.push(2i64)) =~= seq![x0, y0, m, wadd(wsub(wmul(x, x), wmul(y, y)), x0), wmul(y, x), 2i64]);
    let g16 = stack::State { pc: 21int, stack: seq![x0, y0, m, wadd(wsub(wmul(x, x), wmul(y, y)), x0), wmul(y, x), 2i64], ..g15 };
    assert(stack::step(code, g15) == stack::Step::Going(g16));
    stack::lemma_run_to_step(code, g0, 15, g15);
    assert((g16.stack.update(4, wmul(g16.stack[4], g16.stack[5])).subrange(0, 5)) =~= seq![x0, y0, m, wadd(wsub(wmul(x, x), wmul(y, y)), x0), wmul(wmul(y, x), 2i64)]);
    let g17 = stack::State { pc: 22int, stack: seq![x0, y0, m, wadd(wsub(wmul(x, x), wmul(y, y)), x0), wmul(wmul(y, x), 2i64)], ..g16 };
    assert(stack::step(code, g16) == stack::Step::Going(g17));
    stack::lemma_run_to_step(code, g0, 16, g16);
    assert((g17.stack.push(g17.stack[1])) =~= seq![x0, y0, m, wadd(wsub(wmul(x, x), wmul(y, y)), x0), wmul(wmul(y, x), 2i64), y0]);
    let g18 = stack::State { pc: 23int, stack: seq![x0, y0, m, wadd(wsub(wmul(x, x), wmul(y, y)), x0), wmul(wmul(y, x), 2i64), y0], ..g17 };
    assert(stack::step(code, g17) == stack::Step::Going(g18));
    stack::lemma_run_to_step(code, g0, 17, g17);
    assert((g18.stack.update(4, wadd(g18.stack[4], g18.stack[5])).subrange(0, 5)) =~= seq![x0, y0, m, wadd(wsub(wmul(x, x), wmul(y, y)), x0), wadd(wmul(wmul(y, x), 2i64), y0)]);
    let g19 = stack::State { pc: 24int, stack: seq![x0, y0, m, wadd(wsub(wmul(x, x), wmul(y, y)), x0), wadd(wmul(wmul(y, x), 2i64), y0)], ..g18 };
    assert(stack::step(code, g18) == stack::Step::Going(g19));
    stack::lemma_run_to_step(code, g0, 18, g18);
    assert(g19 == stack::State {
        pc: 24int,
        counter: g0.counter,
        stack: seq![x0, y0, m, wadd(wsub(wmul(x, x), wmul(y, y)), x0), wadd(wmul(wmul(y, x), 2i64), y0)],
    });
}

/// One loop entry of this Mandelbrot encoding: from the escape test
/// with counter `c` and the orbit `(x, y)` in its slots, execution
/// returns the machine's iteration count for the cap value `m`.
#[verifier::rlimit(100)]
#[verifier::spinoff_prover]
proof fn lemma_stack_mandel_smart_nops_same_loop(s: stack::State, c: u32, x0: i64, y0: i64, m: i64, x: i64, y: i64)
    requires
        s.pc == 24,
        s.counter == c,
        s.stack == seq![x0, y0, m, x, y],
    ensures
        exists|n: nat|
            stack::run_to(stack::mandel_smart_nops_same_code(), s, n) == stack::Outcome::Returned(
                mandel_result(m, c, x0, y0, x, y),
            ),
    decreases c,
{
    let code = stack::mandel_smart_nops_same_code();
    assert(stack::run_to(code, s, 0) == stack::Outcome::Pending(s));
    assert((s.stack.push(s.stack[3])) =~= seq![x0, y0, m, x, y, x]);
    let a1 = stack::State { pc: 25int, stack: seq![x0, y0, m, x, y, x], ..s };
    assert(stack::step(code, s) == stack::Step::Going(a1));
    stack::lemma_run_to_step(code, s, 0, s);
    assert((a1.stack.push(a1.stack[5])) =~= seq![x0, y0, m, x, y, x, x]);
    let a2 = stack::State { pc: 26int, stack: seq![x0, y0, m, x, y, x, x], ..a1 };
    assert(stack::step(code, a1) == stack::Step::Going(a2));
    stack::lemma_run_to_step(code, s, 1, a1);
    assert((a2.stack.update(5, wmul(a2.stack[5], a2.stack[6])).subrange(0, 6)) =~= seq![x0, y0, m, x, y, wmul(x, x)]);
    let a3 = stack::State { pc: 27int, stack: seq![x0, y0, m, x, y, wmul(x, x)], ..a2 };
    assert(stack::step(code, a2) == stack::Step::Going(a3));
    stack::lemma_run_to_step(code, s, 2, a2);
    assert((a3.stack.push(a3.stack[4])) =~= seq![x0, y0, m, x, y, wmul(x, x), y]);
    let a4 = stack::State { pc: 28int, stack: seq![x0, y0, m, x, y, wmul(x, x), y], ..a3 };
    assert(stack::step(code, a3) == stack::Step::Going(a4));
    stack::lemma_run_to_step(code, s, 3, a3);
    assert((a4.stack.push(a4.stack[6])) =~= seq![x0, y0, m, x, y, wmul(x, x), y, y]);
    let a5 = stack::State { pc: 29int, stack: seq![x0, y0, m, x, y, wmul(x, x), y, y], ..a4 };
    assert(stack::step(code, a4) == stack::Step::Going(a5));
    stack::lemma_run_to_step(code, s, 4, a4);
    assert((a5.stack.update(6, wmul(a5.stack[6], a5.stack[7])).subrange(0, 7)) =~= seq![x0, y0, m, x, y, wmul(x, x), wmul(y, y)]);
    let a6 = stack::State { pc: 30int, stack: seq![x0, y0, m, x, y, wmul(x, x), wmul(y, y)], ..a5 };
    assert(stack::step(code, a5) == stack::Step::Going(a6));
    stack::lemma_run_to_step(code, s, 5, a5);
    assert((a6.stack.update(5, wadd(a6.stack[5], a6.stack[6])).subrange(0, 6)) =~= seq![x0, y0, m, x, y, wadd(wmul(x, x), wmul(y, y))]);
    let a7 = stack::State { pc: 31int, stack: seq![x0, y0, m, x, y, wadd(wmul(x, x), wmul(y, y))], ..a6 };
    assert(stack::step(code, a6) == stack::Step::Going(a7));
    stack::lemma_run_to_step(code, s, 6, a6);
    assert((a7.stack.push(4i64)) =~= seq![x0, y0, m, x, y, wadd(wmul(x, x), wmul(y, y)), 4i64]);
    let a8 = stack::State { pc: 32int, stack: seq![x0, y0, m, x, y, wadd(wmul(x, x), wmul(y, y)), 4i64], ..a7 };
    assert(stack::step(code, a7) == stack::Step::Going(a8));
    stack::lemma_run_to_step(code, s, 7, a7);

    let cond = wadd(wmul(x, x), wmul(y, y)) <= 4i64 && c > 0;
    if !cond {
        let f0 = stack::State { pc: 33int, stack: seq![x0, y0, m, x, y], ..a8 };
        assert((a8.stack.subrange(0, 5)) =~= seq![x0, y0, m, x, y]);
        assert(stack::step(code, a8) == stack::Step::Going(f0));
        stack::lemma_run_to_step(code, s, 8, a8);
    assert((f0.stack.push(f0.stack[2])) =~= seq![x0, y0, m, x, y, m]);
    let f1 = stack::State { pc: 34int, stack: seq![x0, y0, m, x, y, m], ..f0 };
    assert(stack::step(code, f0) == stack::Step::Going(f1));
    stack::lemma_run_to_step(code, s, 9, f0);
    assert((f1.stack.push(f1.counter as i64)) =~= seq![x0, y0, m, x, y, m, f1.counter as i64]);
    let f2 = stack::State { pc: 35int, stack: seq![x0, y0, m, x, y, m, f1.counter as i64], ..f1 };
    assert(stack::step(code, f1) == stack::Step::Going(f2));
    stack::lemma_run_to_step(code, s, 10, f1);
    assert((f2.stack.update(5, wsub(f2.stack[5], f2.stack[6])).subrange(0, 6)) =~= seq![x0, y0, m, x, y, wsub(m, c as i64)]);
    let f3 = stack::State { pc: 36int, stack: seq![x0, y0, m, x, y, wsub(m, c as i64)], ..f2 };
    assert(stack::step(code, f2) == stack::Step::Going(f3));
    stack::lemma_run_to_step(code, s, 11, f2);
    assert(stack::step(code, f3) == stack::Step::Done(wsub(m, c as i64)));
    stack::lemma_run_to_step(code, s, 12, f3);
    assert(mandel_steps(x0, y0, x, y, c as nat) == 0);
    assert(mandel_result(m, c, x0, y0, x, y) == wsub(m, c as i64));
    assert(stack::run_to(code, s, 13) == stack::Outcome::Returned(
        mandel_result(m, c, x0, y0, x, y),
    ));
    } else {
        let g0 = stack::State {
            pc: 5int,
            counter: (c - 1) as u32,
            stack: seq![x0, y0, m, x, y],
        };
        assert((a8.stack.subrange(0, 5)) =~= seq![x0, y0, m, x, y]);
        assert(stack::step(code, a8) == stack::Step::Going(g0));
        stack::lemma_run_to_step(code, s, 8, a8);
        lemma_stack_mandel_smart_nops_same_body(g0, x0, y0, m, x, y);
        stack::lemma_run_to_add(code, s, 9, 19, g0);
        let gf = stack::State {
            pc: 24int,
            counter: (c - 1) as u32,
            stack: seq![x0, y0, m, wadd(wsub(wmul(x, x), wmul(y, y)), x0), wadd(wmul(wmul(y, x), 2i64), y0)],
        };
        assert(stack::run_to(code, s, 28) == stack::Outcome::Pending(gf));
        assert(wmul(y, x) == wmul(x, y)) by (nonlinear_arith);
        assert(wadd(wsub(wmul(x, x), wmul(y, y)), x0) == wadd(wsub(wmul(x, x), wmul(y, y)), x0));
        assert(wadd(wmul(wmul(y, x), 2i64), y0) == wadd(wmul(wmul(x, y), 2), y0));
        lemma_mandel_steps_le(x0, y0, wadd(wsub(wmul(x, x), wmul(y, y)), x0), wadd(wmul(wmul(x, y), 2), y0), (c - 1) as nat);
        assert(mandel_steps(x0, y0, x, y, c as nat) == 1 + mandel_steps(
            x0,
            y0,
            wadd(wsub(wmul(x, x), wmul(y, y)), x0),
            wadd(wmul(wmul(x, y), 2), y0),
            (c - 1) as nat,
        ));
        lemma_stack_mandel_smart_nops_same_loop(gf, (c - 1) as u32, x0, y0, m, wadd(wsub(wmul(x, x), wmul(y, y)), x0), wadd(wmul(wmul(y, x), 2i64), y0));
        let rest = mandel_result(m, (c - 1) as u32, x0, y0, wadd(wsub(wmul(x, x), wmul(y, y)), x0), wadd(wmul(wmul(y, x), 2i64), y0));
        let n = choose|n: nat| stack::run_to(code, gf, n) == stack::Outcome::Returned(rest);
        stack::lemma_run_to_add(code, s, 28, n, gf);
        assert(rest == mandel_result(m, c, x0, y0, x, y));
        assert(stack::run_to(code, s, 28 + n) == stack::Outcome::Returned(
            mandel_result(m, c, x0, y0, x, y),
        ));
    }
}

/// This Mandelbrot encoding returns the reference escape count for
/// every coordinate pair and every iteration cap that fits the loop
/// counter.
pub proof fn stack_mandel_smart_nops_same_produces(x0: i64, y0: i64, n: i64)
    requires
        0 <= n <= u32::MAX,
    ensures
        stack::produces(
            stack::mandel_smart_nops_same_code(),
            seq![x0, y0, n],
            mandel_steps(x0, y0, 0, 0, n as nat) as i64,
        ),
        stack::completes(stack::mandel_smart_nops_same_code(), seq![x0, y0, n]),
{
    let code = stack::mandel_smart_nops_same_code();
    let args: Seq<i64> = seq![x0, y0, n];
    let s0 = stack::init_state(args);
    lemma_low32_small(n);
    assert(stack::run_to(code, s0, 0) == stack::Outcome::Pending(s0));
    assert((s0.stack.push(s0.stack[2])) =~= seq![x0, y0, n, n]);
    let p0 = stack::State { pc: 1int, stack: seq![x0, y0, n, n], ..s0 };
    assert(stack::step(code, s0) == stack::Step::Going(p0));
    stack::lemma_run_to_step(code, s0, 0, s0);
    assert((p0.stack.subrange(0, 3)) =~= seq![x0, y0, n]);
    let p1 = stack::State { pc: 2int, counter: low32(n), stack: seq![x0, y0, n] };
    assert(stack::step(code, p0) == stack::Step::Going(p1));
    stack::lemma_run_to_step(code, s0, 1, p0);
    assert((p1.stack.push(0i64)) =~= seq![x0, y0, n, 0i64]);
    let p2 = stack::State { pc: 3int, stack: seq![x0, y0, n, 0i64], ..p1 };
    assert(stack::step(code, p1) == stack::Step::Going(p2));
    stack::lemma_run_to_step(code, s0, 2, p1);
    assert((p2.stack.push(0i64)) =~= seq![x0, y0, n, 0i64, 0i64]);
    let p3 = stack::State { pc: 4int, stack: seq![x0, y0, n, 0i64, 0i64], ..p2 };
    assert(stack::step(code, p2) == stack::Step::Going(p3));
    stack::lemma_run_to_step(code, s0, 3, p2);
    let pj = stack::State { pc: 24int, ..p3 };
    assert(stack::step(code, p3) == stack::Step::Going(pj));
    stack::lemma_run_to_step(code, s0, 4, p3);
    lemma_stack_mandel_smart_nops_same_loop(pj, n as u32, x0, y0, n, 0i64, 0i64);
    let value = mandel_result(n, n as u32, x0, y0, 0i64, 0i64);
    let nn = choose|t: nat| stack::run_to(code, pj, t) == stack::Outcome::Returned(value);
    stack::lemma_run_to_add(code, s0, 5, nn, pj);
    lemma_mandel_steps_le(x0, y0, 0i64, 0i64, n as nat);
    assert(value == mandel_steps(x0, y0, 0, 0, n as nat) as i64);
    assert(stack::run_to(code, s0, 5 + nn) == stack::Outcome::Returned(
        mandel_steps(x0, y0, 0, 0, n as nat) as i64,
    ));
    assert(stack::produces(code, args, mandel_steps(x0, y0, 0, 0, n as nat) as i64));
}

/// One loop entry of this Mandelbrot encoding: from the escape test
/// with counter `c` and the orbit `(x, y)` in its slots, execution
/// returns the machine's iteration count for the cap value `m`.
#[verifier::rlimit(100)]
#[verifier::spinoff_prover]
proof fn lemma_stack_mandel_smart_no_dup_loop(s: stack::State, c: u32, x0: i64, y0: i64, m: i64, x: i64, y: i64)
    requires
        s.pc == 21,
        s.counter == c,
        s.stack == seq![x0, y0, m, x, y],
    ensures
        exists|n: nat|
            stack::run_to(stack::mandel_smart_no_dup_code(), s, n) == stack::Outcome::Returned(
                mandel_result(m, c, x0, y0, x, y),
            ),
    decreases c,
{
    let code = stack::mandel_smart_no_dup_code();
    assert(stack::run_to(code, s, 0) == stack::Outcome::Pending(s));
    assert((s.stack.push(s.stack[3])) =~= seq![x0, y0, m, x, y, x]);
    let a1 = stack::State { pc: 22int, stack: seq![x0, y0, m, x, y, x], ..s };
    assert(stack::step(code, s) == stack::Step::Going(a1));
    stack::lemma_run_to_step(code, s, 0, s);
    assert((a1.stack.push(a1.stack[3])) =~= seq![x0, y0, m, x, y, x, x]);
    let a2 = stack::State { pc: 23int, stack: seq![x0, y0, m, x, y, x, x], ..a1 };
    assert(stack::step(code, a1) == stack::Step::Going(a2));
    stack::lemma_run_to_step(code, s, 1, a1);
    assert((a2.stack.update(5, wmul(a2.stack[5], a2.stack[6])).subrange(0, 6)) =~= seq![x0, y0, m, x, y, wmul(x, x)]);
    let a3 = stack::State { pc: 24int, stack: seq![x0, y0, m, x, y, wmul(x, x)], ..a2 };
    assert(stack::step(code, a2) == stack::Step::Going(a3));
    stack::lemma_run_to_step(code, s, 2, a2);
    assert((a3.stack.push(a3.stack[4])) =~= seq![x0, y0, m, x, y, wmul(x, x), y]);
    let a4 = stack::State { pc: 25int, stack: seq![x0, y0, m, x, y, wmul(x, x), y], ..a3 };
    assert(stack::step(code, a3) == stack::Step::Going(a4));
    stack::lemma_run_to_step(code, s, 3, a3);
    assert((a4.stack.push(a4.stack[4])) =~= seq![x0, y0, m, x, y, wmul(x, x), y, y]);
    let a5 = stack::State { pc: 26int, stack: seq![x0, y0, m, x, y, wmul(x, x), y, y], ..a4 };
    assert(stack::step(code, a4) == stack::Step::Going(a5));
    stack::lemma_run_to_step(code, s, 4, a4);
    assert((a5.stack.update(6, wmul(a5.stack[6], a5.stack[7])).subrange(0, 7)) =~= seq![x0, y0, m, x, y, wmul(x, x), wmul(y, y)]);
    let a6 = stack::State { pc: 27int, stack: seq![x0, y0, m, x, y, wmul(x, x), wmul(y, y)], ..a5 };
    assert(stack::step(code, a5) == stack::Step::Going(a6));
    stack::lemma_run_to_step(code, s, 5, a5);
    assert((a6.stack.update(5, wadd(a6.stack[5], a6.stack[6])).subrange(0, 6)) =~= seq![x0, y0, m, x, y, wadd(wmul(x, x), wmul(y, y))]);
    let a7 = stack::State { pc: 28int, stack: seq![x0, y0, m, x, y, wadd(wmul(x, x), wmul(y, y))], ..a6 };
    assert(stack::step(code, a6) == stack::Step::Going(a7));
    stack::lemma_run_to_step(code, s, 6, a6);
    assert((a7.stack.push(4i64)) =~= seq![x0, y0, m, x, y, wadd(wmul(x, x), wmul(y, y)), 4i64]);
    let a8 = stack::State { pc: 29int, stack: seq![x0, y0, m, x, y, wadd(wmul(x, x), wmul(y, y)), 4i64], ..a7 };
    assert(stack::step(code, a7) == stack::Step::Going(a8));
    stack::lemma_run_to_step(code, s, 7, a7);

    let cond = wadd(wmul(x, x), wmul(y, y)) <= 4i64 && c > 0;
    if !cond {
        let f0 = stack::State { pc: 30int, stack: seq![x0, y0, m, x, y], ..a8 };
        assert((a8.stack.subrange(0, 5)) =~= seq![x0, y0, m, x, y]);
        assert(stack::step(code, a8) == stack::Step::Going(f0));
        stack::lemma_run_to_step(code, s, 8, a8);
    assert((f0.stack.push(f0.stack[2])) =~= seq![x0, y0, m, x, y, m]);
    let f1 = stack::State { pc: 31int, stack: seq![x0, y0, m, x, y, m], ..f0 };
    assert(stack::step(code, f0) == stack::Step::Going(f1));
    stack::lemma_run_to_step(code, s, 9, f0);
    assert((f1.stack.push(f1.counter as i64)) =~= seq![x0, y0, m, x, y, m, f1.counter as i64]);
    let f2 = stack::State { pc: 32int, stack: seq![x0, y0, m, x, y, m, f1.counter as i64], ..f1 };
    assert(stack::step(code, f1) == stack::Step::Going(f2));
    stack::lemma_run_to_step(code, s, 10, f1);
    assert((f2.stack.update(5, wsub(f2.stack[5], f2.stack[6])).subrange(0, 6)) =~= seq![x0, y0, m, x, y, wsub(m, f1.counter as i64)]);
    let f3 = stack::State { pc: 33int, stack: seq![x0, y0, m, x, y, wsub(m, f1.counter as i64)], ..f2 };
    assert(stack::step(code, f2) == stack::Step::Going(f3));
    stack::lemma_run_to_step(code, s, 11, f2);
    assert(stack::step(code, f3) == stack::Step::Done(wsub(m, f1.counter as i64)));
    stack::lemma_run_to_step(code, s, 12, f3);
    assert(mandel_steps(x0, y0, x, y, c as nat) == 0);
    assert(mandel_result(m, c, x0, y0, x, y) == wsub(m, f1.counter as i64));
    assert(stack::run_to(code, s, 13) == stack::Outcome::Returned(
        mandel_result(m, c, x0, y0, x, y),
    ));
    } else {
        let g0 = stack::State {
            pc: 5int,
            counter: (c - 1) as u32,
            stack: seq![x0, y0, m, x, y],
        };
        assert((a8.stack.subrange(0, 5)) =~= seq![x0, y0, m, x, y]);
        assert(stack::step(code, a8) == stack::Step::Going(g0));
        stack::lemma_run_to_step(code, s, 8, a8);
    assert((g0.stack.push(g0.stack[3])) =~= seq![x0, y0, m, x, y, x]);
    let g1 = stack::State { pc: 6int, stack: seq![x0, y0, m, x, y, x], ..g0 };
    assert(stack::step(code, g0) == stack::Step::Going(g1));
    stack::lemma_run_to_step(code, s, 9, g0);
    assert((g1.stack.push(g1.stack[3])) =~= seq![x0, y0, m, x, y, x, x]);
    let g2 = stack::State { pc: 7int, stack: seq![x0, y0, m, x, y, x, x], ..g1 };
    assert(stack::step(code, g1) == stack::Step::Going(g2));
    stack::lemma_run_to_step(code, s, 10, g1);
    assert((g2.stack.update(5, wmul(g2.stack[5], g2.stack[6])).subrange(0, 6)) =~= seq![x0, y0, m, x, y, wmul(x, x)]);
    let g3 = stack::State { pc: 8int, stack: seq![x0, y0, m, x, y, wmul(x, x)], ..g2 };
    assert(stack::step(code, g2) == stack::Step::Going(g3));
    stack::lemma_run_to_step(code, s, 11, g2);
    assert((g3.stack.push(g3.stack[4])) =~= seq![x0, y0, m, x, y, wmul(x, x), y]);
    let g4 = stack::State { pc: 9int, stack: seq![x0, y0, m, x, y, wmul(x, x), y], ..g3 };
    assert(stack::step(code, g3) == stack::Step::Going(g4));
    stack::lemma_run_to_step(code, s, 12, g3);
    assert((g4.stack.push(g4.stack[4])) =~= seq![x0, y0, m, x, y, wmul(x, x), y, y]);
    let g5 = stack::State { pc: 10int, stack: seq![x0, y0, m, x, y, wmul(x, x), y, y], ..g4 };
    assert(stack::step(code, g4) == stack::Step::Going(g5));
    stack::lemma_run_to_step(code, s, 13, g4);
    assert((g5.stack.update(6, wmul(g5.stack[6], g5.stack[7])).subrange(0, 7)) =~= seq![x0, y0, m, x, y, wmul(x, x), wmul(y, y)]);
    let g6 = stack::State { pc: 11int, stack: seq![x0, y0, m, x, y, wmul(x, x), wmul(y, y)], ..g5 };
    assert(stack::step(code, g5) == stack::Step::Going(g6));
    stack::lemma_run_to_step(code, s, 14, g5);
    assert((g6.stack.update(5, wsub(g6.stack[5], g6.stack[6])).subrange(0, 6)) =~= seq![x0, y0, m, x, y, wsub(wmul(x, x), wmul(y, y))]);
    let g7 = stack::State { pc: 12int, stack: seq![x0, y0, m, x, y, wsub(wmul(x, x), wmul(y, y))], ..g6 };
    assert(stack::step(code, g6) == stack::Step::Going(g7));
    stack::lemma_run_to_step(code, s, 15, g6);
    assert((g7.stack.push(g7.stack[0])) =~= seq![x0, y0, m, x, y, wsub(wmul(x, x), wmul(y, y)), x0]);
    let g8 = stack::State { pc: 13int, stack: seq![x0, y0, m, x, y, wsub(wmul(x, x), wmul(y, y)), x0], ..g7 };
    assert(stack::step(code, g7) == stack::Step::Going(g8));
    stack::lemma_run_to_step(code, s, 16, g7);
    assert((g8.stack.update(5, wadd(g8.stack[5], g8.stack[6])).subrange(0, 6)) =~= seq![x0, y0, m, x, y, wadd(wsub(wmul(x, x), wmul(y, y)), x0)]);
    let g9 = stack::State { pc: 14int, stack: seq![x0, y0, m, x, y, wadd(wsub(wmul(x, x), wmul(y, y)), x0)], ..g8 };
    assert(stack::step(code, g8) == stack::Step::Going(g9));
    stack::lemma_run_to_step(code, s, 17, g8);
    assert((g9.stack.update(4, g9.stack[5]).update(5, g9.stack[4])) =~= seq![x0, y0, m, x, wadd(wsub(wmul(x, x), wmul(y, y)), x0), y]);
    let g10 = stack::State { pc: 15int, stack: seq![x0, y0, m, x, wadd(wsub(wmul(x, x), wmul(y, y)), x0), y], ..g9 };
    assert(stack::step(code, g9) == stack::Step::Going(g10));
    stack::lemma_run_to_step(code, s, 18, g9);
    assert((g10.stack.update(3, g10.stack[4]).update(4, g10.stack[5]).update(5, g10.stack[3])) =~= seq![x0, y0, m, wadd(wsub(wmul(x, x), wmul(y, y)), x0), y, x]);
    let g11 = stack::State { pc: 16int, stack: seq![x0, y0, m, wadd(wsub(wmul(x, x), wmul(y, y)), x0), y, x], ..g10 };
    assert(stack::step(code, g10) == stack::Step::Going(g11));
    stack::lemma_run_to_step(code, s, 19, g10);
    assert((g11.stack.update(4, wmul(g11.stack[4], g11.stack[5])).subrange(0, 5)) =~= seq![x0, y0, m, wadd(wsub(wmul(x, x), wmul(y, y)), x0), wmul(y, x)]);
    let g12 = stack::State { pc: 17int, stack: seq![x0, y0, m, wadd(wsub(wmul(x, x), wmul(y, y)), x0), wmul(y, x)], ..g11 };
    assert(stack::step(code, g11) == stack::Step::Going(g12));
    stack::lemma_run_to_step(code, s, 20, g11);
    assert((g12.stack.push(2i64)) =~= seq![x0, y0, m, wadd(wsub(wmul(x, x), wmul(y, y)), x0), wmul(y, x), 2i64]);
    let g13 = stack::State { pc: 18int, stack: seq![x0, y0, m, wadd(wsub(wmul(x, x), wmul(y, y)), x0), wmul(y, x), 2i64], ..g12 };
    assert(stack::step(code, g12) == stack::Step::Going(g13));
    stack::lemma_run_to_step(code, s, 21, g12);
    assert((g13.stack.update(4, wmul(g13.stack[4], g13.stack[5])).subrange(0, 5)) =~= seq![x0, y0, m, wadd(wsub(wmul(x, x), wmul(y, y)), x0), wmul(wmul(y, x), 2i64)]);
    let g14 = stack::State { pc: 19int, stack: seq![x0, y0, m, wadd(wsub(wmul(x, x), wmul(y, y)), x0), wmul(wmul(y, x), 2i64)], ..g13 };
    assert(stack::step(code, g13) == stack::Step::Going(g14));
    stack::lemma_run_to_step(code, s, 22, g13);
    assert((g14.stack.push(g14.stack[1])) =~= seq![x0, y0, m, wadd(wsub(wmul(x, x), wmul(y, y)), x0), wmul(wmul(y, x), 2i64), y0]);
    let g15 = stack::State { pc: 20int, stack: seq![x0, y0, m, wadd(wsub(wmul(x, x), wmul(y, y)), x0), wmul(wmul(y, x), 2i64), y0], ..g14 };
    assert(stack::step(code, g14) == stack::Step::Going(g15));
    stack::lemma_run_to_step(code, s, 23, g14);
    assert((g15.stack.update(4, wadd(g15.stack[4], g15.stack[5])).subrange(0, 5)) =~= seq![x0, y0, m, wadd(wsub(wmul(x, x), wmul(y, y)), x0), wadd(wmul(wmul(y, x), 2i64), y0)]);
    let g16 = stack::State { pc: 21int, stack: seq![x0, y0, m, wadd(wsub(wmul(x, x), wmul(y, y)), x0), wadd(wmul(wmul(y, x), 2i64), y0)], ..g15 };
    assert(stack::step(code, g15) == stack::Step::Going(g16));
    stack::lemma_run_to_step(code, s, 24, g15);

    assert(wmul(y, x) == wmul(x, y)) by (nonlinear_arith);
    assert(wadd(wsub(wmul(x, x), wmul(y, y)), x0) == wadd(wsub(wmul(x, x), wmul(y, y)), x0));
    assert(wadd(wmul(wmul(y, x), 2i64), y0) == wadd(wmul(wmul(x, y), 2), y0));
    lemma_mandel_steps_le(x0, y0, wadd(wsub(wmul(x, x), wmul(y, y)), x0), wadd(wmul(wmul(x, y), 2), y0), (c - 1) as nat);
    assert(mandel_steps(x0, y0, x, y, c as nat) == 1 + mandel_steps(
        x0,
        y0,
        wadd(wsub(wmul(x, x), wmul(y, y)), x0),
        wadd(wmul(wmul(x, y), 2), y0),
        (c - 1) as nat,
    ));
    lemma_stack_mandel_smart_no_dup_loop(g16, (c - 1) as u32, x0, y0, m, wadd(wsub(wmul(x, x), wmul(y, y)), x0), wadd(wmul(wmul(y, x), 2i64), y0));
    let rest = mandel_result(m, (c - 1) as u32, x0, y0, wadd(wsub(wmul(x, x), wmul(y, y)), x0), wadd(wmul(wmul(y, x), 2i64), y0));
    let n = choose|n: nat| stack::run_to(code, g16, n) == stack::Outcome::Returned(rest);
    stack::lemma_run_to_add(code, s, 25, n, g16);
    assert(rest == mandel_result(m, c, x0, y0, x, y));
    assert(stack::run_to(code, s, 25 + n) == stack::Outcome::Returned(
        mandel_result(m, c, x0, y0, x, y),
    ));
    }
}

/// This Mandelbrot encoding returns the reference escape count for
/// every coordinate pair and every iteration cap that fits the loop
/// counter.
pub proof fn stack_mandel_smart_no_dup_produces(x0: i64, y0: i64, n: i64)
    requires
        0 <= n <= u32::MAX,
    ensures
        stack::produces(
            stack::mandel_smart_no_dup_code(),
            seq![x0, y0, n],
            mandel_steps(x0, y0, 0, 0, n as nat) as i64,
        ),
        stack::completes(stack::mandel_smart_no_dup_code(), seq![x0, y0, n]),
{
    let code = stack::mandel_smart_no_dup_code();
    let args: Seq<i64> = seq![x0, y0, n];
    let s0 = stack::init_state(args);
    lemma_low32_small(n);
    assert(stack::run_to(code, s0, 0) == stack::Outcome::Pending(s0));
    assert((s0.stack.push(s0.stack[2])) =~= seq![x0, y0, n, n]);
    let p0 = stack::State { pc: 1int, stack: seq![x0, y0, n, n], ..s0 };
    assert(stack::step(code, s0) == stack::Step::Going(p0));
    stack::lemma_run_to_step(code, s0, 0, s0);
    assert((p0.stack.subrange(0, 3)) =~= seq![x0, y0, n]);
    let p1 = stack::State { pc: 2int, counter: low32(n), stack: seq![x0, y0, n] };
    assert(stack::step(code, p0) == stack::Step::Going(p1));
    stack::lemma_run_to_step(code, s0, 1, p0);
    assert((p1.stack.push(0i64)) =~= seq![x0, y0, n, 0i64]);
    let p2 = stack::State { pc: 3int, stack: seq![x0, y0, n, 0i64], ..p1 };
    assert(stack::step(code, p1) == stack::Step::Going(p2));
    stack::lemma_run_to_step(code, s0, 2, p1);
    assert((p2.stack.push(0i64)) =~= seq![x0, y0, n, 0i64, 0i64]);
    let p3 = stack::State { pc: 4int, stack: seq![x0, y0, n, 0i64, 0i64], ..p2 };
    assert(stack::step(code, p2) == stack::Step::Going(p3));
    stack::lemma_run_to_step(code, s0, 3, p2);
    let pj = stack::State { pc: 21int, ..p3 };
    assert(stack::step(code, p3) == stack::Step::Going(pj));
    stack::lemma_run_to_step(code, s0, 4, p3);
    lemma_stack_mandel_smart_no_dup_loop(pj, n as u32, x0, y0, n, 0i64, 0i64);
    let value = mandel_result(n, n as u32, x0, y0, 0i64, 0i64);
    let nn = choose|t: nat| stack::run_to(code, pj, t) == stack::Outcome::Returned(value);
    stack::lemma_run_to_add(code, s0, 5, nn, pj);
    lemma_mandel_steps_le(x0, y0, 0i64, 0i64, n as nat);
    assert(value == mandel_steps(x0, y0, 0, 0, n as nat) as i64);
    assert(stack::run_to(code, s0, 5 + nn) == stack::Outcome::Returned(
        mandel_steps(x0, y0, 0, 0, n as nat) as i64,
    ));
    assert(stack::produces(code, args, mandel_steps(x0, y0, 0, 0, n as nat) as i64));
}
/// One loop entry of the register Mandelbrot program: from the escape
/// test with counter `c` and the orbit in registers 3 and 4, execution
/// returns the machine's iteration count for the cap value `m`.
#[verifier::rlimit(100)]
#[verifier::spinoff_prover]
proof fn lemma_reg_mandel_loop(s: reg::State, c: u32, x0: i64, y0: i64, m: i64, x: i64, y: i64)
    requires
        s.pc == 13,
        s.counter == c,
        s.regs.len() == 256,
        s.regs[0] == x0,
        s.regs[1] == y0,
        s.regs[2] == m,
        s.regs[3] == x,
        s.regs[4] == y,
    ensures
        exists|n: nat|
            reg::run_to(reg::mandel_code(), s, n) == reg::Outcome::Returned(
                mandel_result(m, c, x0, y0, x, y),
            ),
    decreases c,
{
    let code = reg::mandel_code();
    let xx = wmul(x, x);
    let yy = wmul(y, y);
    let ss = wadd(xx, yy);
    let xt = wadd(wsub(xx, yy), x0);
    let yn = wadd(wmul(wmul(x, y), 2), y0);
    assert(reg::run_to(code, s, 0) == reg::Outcome::Pending(s));
    let a0 = reg::State { pc: 14, regs: s.regs.update(5, xx), ..s };
    assert(reg::step(code, s) == reg::Step::Going(a0));
    reg::lemma_run_to_step(code, s, 0, s);
    let a1 = reg::State { pc: 15, regs: a0.regs.update(6, yy), ..a0 };
    assert(reg::step(code, a0) == reg::Step::Going(a1));
    reg::lemma_run_to_step(code, s, 1, a0);
    let a2 = reg::State { pc: 16, regs: a1.regs.update(5, ss), ..a1 };
    assert(reg::step(code, a1) == reg::Step::Going(a2));
    reg::lemma_run_to_step(code, s, 2, a1);
    let a3 = reg::State { pc: 17, regs: a2.regs.update(6, 4i64), ..a2 };
    assert(reg::step(code, a2) == reg::Step::Going(a3));
    reg::lemma_run_to_step(code, s, 3, a2);
    let cond = ss <= 4i64 && c > 0;
    if !cond {
        let e0 = reg::State { pc: 18, ..a3 };
        assert(reg::step(code, a3) == reg::Step::Going(e0));
        reg::lemma_run_to_step(code, s, 4, a3);
        let e1 = reg::State { pc: 19, regs: e0.regs.update(6, c as i64), ..e0 };
        assert(reg::step(code, e0) == reg::Step::Going(e1));
        reg::lemma_run_to_step(code, s, 5, e0);
        let e2 = reg::State { pc: 20, regs: e1.regs.update(5, wsub(m, c as i64)), ..e1 };
        assert(reg::step(code, e1) == reg::Step::Going(e2));
        reg::lemma_run_to_step(code, s, 6, e1);
        assert(reg::step(code, e2) == reg::Step::Done(wsub(m, c as i64)));
        reg::lemma_run_to_step(code, s, 7, e2);
        assert(mandel_steps(x0, y0, x, y, c as nat) == 0);
        assert(mandel_result(m, c, x0, y0, x, y) == wsub(m, c as i64));
        assert(reg::run_to(code, s, 8) == reg::Outcome::Returned(
            mandel_result(m, c, x0, y0, x, y),
        ));
    } else {
        let b0 = reg::State { pc: 4, counter: (c - 1) as u32, ..a3 };
        assert(reg::step(code, a3) == reg::Step::Going(b0));
        reg::lemma_run_to_step(code, s, 4, a3);
        let b1 = reg::State { pc: 5, regs: b0.regs.update(5, xx), ..b0 };
        assert(reg::step(code, b0) == reg::Step::Going(b1));
        reg::lemma_run_to_step(code, s, 5, b0);
        let b2 = reg::State { pc: 6, regs: b1.regs.update(6, yy), ..b1 };
        assert(reg::step(code, b1) == reg::Step::Going(b2));
        reg::lemma_run_to_step(code, s, 6, b1);
        let b3 = reg::State { pc: 7, regs: b2.regs.update(5, wsub(xx, yy)), ..b2 };
        assert(reg::step(code, b2) == reg::Step::Going(b3));
        reg::lemma_run_to_step(code, s, 7, b2);
        let b4 = reg::State { pc: 8, regs: b3.regs.update(5, xt), ..b3 };
        assert(reg::step(code, b3) == reg::Step::Going(b4));
        reg::lemma_run_to_step(code, s, 8, b3);
        let b5 = reg::State { pc: 9, regs: b4.regs.update(4, wmul(x, y)), ..b4 };
        assert(reg::step(code, b4) == reg::Step::Going(b5));
        reg::lemma_run_to_step(code, s, 9, b4);
        let b6 = reg::State { pc: 10, regs: b5.regs.update(6, 2i64), ..b5 };
        assert(reg::step(code, b5) == reg::Step::Going(b6));
        reg::lemma_run_to_step(code, s, 10, b5);
        let b7 = reg::State { pc: 11, regs: b6.regs.update(4, wmul(wmul(x, y), 2i64)), ..b6 };
        assert(reg::step(code, b6) == reg::Step::Going(b7));
        reg::lemma_run_to_step(code, s, 11, b6);
        let b8 = reg::State { pc: 12, regs: b7.regs.update(4, yn), ..b7 };
        assert(reg::step(code, b7) == reg::Step::Going(b8));
        reg::lemma_run_to_step(code, s, 12, b7);
        let b9 = reg::State { pc: 13, regs: b8.regs.update(3, xt), ..b8 };
        assert(reg::step(code, b8) == reg::Step::Going(b9));
        reg::lemma_run_to_step(code, s, 13, b8);
        assert(b9.regs[0] == x0 && b9.regs[1] == y0 && b9.regs[2] == m && b9.regs[3] == xt
            && b9.regs[4] == yn);
        lemma_mandel_steps_le(x0, y0, xt, yn, (c - 1) as nat);
        assert(mandel_steps(x0, y0, x, y, c as nat) == 1 + mandel_steps(
            x0,
            y0,
            xt,
            yn,
            (c - 1) as nat,
        ));
        lemma_reg_mandel_loop(b9, (c - 1) as u32, x0, y0, m, xt, yn);
        let rest = mandel_result(m, (c - 1) as u32, x0, y0, xt, yn);
        let n = choose|n: nat| reg::run_to(code, b9, n) == reg::Outcome::Returned(rest);
        reg::lemma_run_to_add(code, s, 14, n, b9);
        assert(rest == mandel_result(m, c, x0, y0, x, y));
        assert(reg::run_to(code, s, 14 + n) == reg::Outcome::Returned(
            mandel_result(m, c, x0, y0, x, y),
        ));
    }
}

/// The register Mandelbrot program returns the reference escape count
/// for every coordinate pair and every iteration cap that fits the
/// loop counter.
pub proof fn reg_mandel_produces(x0: i64, y0: i64, n: i64)
    requires
        0 <= n <= u32::MAX,
    ensures
        reg::produces(
            reg::mandel_code(),
            seq![x0, y0, n],
            mandel_steps(x0, y0, 0, 0, n as nat) as i64,
        ),
        reg::completes(reg::mandel_code(), seq![x0, y0, n]),
{
    let code = reg::mandel_code();
    let args: Seq<i64> = seq![x0, y0, n];
    let s0 = reg::init_state(args);
    lemma_low32_small(n);
    assert(reg::run_to(code, s0, 0) == reg::Outcome::Pending(s0));
    let p0 = reg::State { pc: 1, regs: s0.regs.update(3, 0i64), ..s0 };
    assert(reg::step(code, s0) == reg::Step::Going(p0));
    reg::lemma_run_to_step(code, s0, 0, s0);
    let p1 = reg::State { pc: 2, regs: p0.regs.update(4, 0i64), ..p0 };
    assert(reg::step(code, p0) == reg::Step::Going(p1));
    reg::lemma_run_to_step(code, s0, 1, p0);
    let p2 = reg::State { pc: 3, counter: low32(n), ..p1 };
    assert(reg::step(code, p1) == reg::Step::Going(p2));
    reg::lemma_run_to_step(code, s0, 2, p1);
    let p3 = reg::State { pc: 13, ..p2 };
    assert(reg::step(code, p2) == reg::Step::Going(p3));
    reg::lemma_run_to_step(code, s0, 3, p2);
    lemma_reg_mandel_loop(p3, n as u32, x0, y0, n, 0i64, 0i64);
    let value = mandel_result(n, n as u32, x0, y0, 0i64, 0i64);
    let t = choose|t: nat| reg::run_to(code, p3, t) == reg::Outcome::Returned(value);
    reg::lemma_run_to_add(code, s0, 4, t, p3);
    lemma_mandel_steps_le(x0, y0, 0i64, 0i64, n as nat);
    assert(value == mandel_steps(x0, y0, 0, 0, n as nat) as i64);
    assert(reg::run_to(code, s0, 4 + t) == reg::Outcome::Returned(
        mandel_steps(x0, y0, 0, 0, n as nat) as i64,
    ));
    assert(reg::produces(code, args, mandel_steps(x0, y0, 0, 0, n as nat) as i64));
}

/// Every Mandelbrot encoding — the register program and all five stack
/// variants — returns the reference escape count for every integer
/// coordinate pair and every iteration cap that fits the loop counter;
/// with the machines' dispatch-independent contracts, all of them
/// agree under either dispatch strategy.
pub proof fn mandel_programs_agree(x0: i64, y0: i64, n: i64)
    requires
        0 <= n <= u32::MAX,
    ensures
        reg::produces(
            reg::mandel_code(),
            seq![x0, y0, n],
            mandel_steps(x0, y0, 0, 0, n as nat) as i64,
        ),
        stack::produces(
            stack::mandel_smart_code(),
            seq![x0, y0, n],
            mandel_steps(x0, y0, 0, 0, n as nat) as i64,
        ),
        stack::produces(
            stack::mandel_naive_code(),
            seq![x0, y0, n],
            mandel_steps(x0, y0, 0, 0, n as nat) as i64,
        ),
        stack::produces(
            stack::mandel_smart_nops_slow_code(),
            seq![x0, y0, n],
            mandel_steps(x0, y0, 0, 0, n as nat) as i64,
        ),
        stack::produces(
            stack::mandel_smart_nops_same_code(),
            seq![x0, y0, n],
            mandel_steps(x0, y0, 0, 0, n as nat) as i64,
        ),
        stack::produces(
            stack::mandel_smart_no_dup_code(),
            seq![x0, y0, n],
            mandel_steps(x0, y0, 0, 0, n as nat) as i64,
        ),
{
    reg_mandel_produces(x0, y0, n);
    stack_mandel_smart_produces(x0, y0, n);
    stack_mandel_naive_produces(x0, y0, n);
    stack_mandel_smart_nops_slow_produces(x0, y0, n);
    stack_mandel_smart_nops_same_produces(x0, y0, n);
    stack_mandel_smart_no_dup_produces(x0, y0, n);
}

} // verus!
