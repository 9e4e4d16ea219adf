//! The Fibonacci programs compute the reference value: the register
//! encoding and both stack encodings return exactly `fib_value(n)` for
//! every starting value, so all four agree.

use vstd::prelude::*;

use crate::cell::{lemma_low32_small, low32, wadd};
use crate::oracle::{fib_pair, fib_value};
use crate::reg;
use crate::stack;

verus! {

/// What the shared loop shape computes: `c` further rounds of the
/// rolling pair starting from `(a, b)`, yielding the first component.
pub open spec fn fib_from(c: nat, a: i64, b: i64) -> i64
    decreases c,
{
    if c == 0 {
        a
    } else {
        fib_from((c - 1) as nat, b, wadd(a, b))
    }
}

/// Rolling forward from the `k`-th pair for `c` rounds lands on the
/// `(k + c)`-th Fibonacci number.
proof fn lemma_fib_from_pair(c: nat, k: nat)
    ensures
        fib_from(c, fib_pair(k).0, fib_pair(k).1) == fib_value((k + c) as nat),
    decreases c,
{
    if c == 0 {
    } else {
        assert(fib_pair(k + 1) == (fib_pair(k).1, wadd(fib_pair(k).0, fib_pair(k).1)));
        lemma_fib_from_pair((c - 1) as nat, k + 1);
    }
}

/// One register-machine loop entry: from the loop check with counter
/// `c` and the rolling pair in registers 1 and 2, execution returns
/// `fib_from(c, a, b)`.
proof fn lemma_reg_fib_loop(s: reg::State, c: u32, a: i64, b: i64)
    requires
        s.pc == 7,
        s.counter == c,
        s.regs.len() == 256,
        s.regs[1] == a,
        s.regs[2] == b,
    ensures
        exists|n: nat|
            reg::run_to(reg::fib_code(), s, n) == reg::Outcome::Returned(
                fib_from(c as nat, a, b),
            ),
    decreases c,
{
    let code = reg::fib_code();
    if c == 0 {
        let s1 = reg::State { pc: 8, ..s };
        assert(reg::step(code, s) == reg::Step::Going(s1));
        assert(reg::step(code, s1) == reg::Step::Done(a));
        assert(reg::run_to(code, s, 2) == reg::Outcome::Returned(a)) by {
            reveal_with_fuel(reg::run_to, 3);
        };
    } else {
        let s1 = reg::State { pc: 4, counter: (c - 1) as u32, ..s };
        let s2 = reg::State { pc: 5, regs: s1.regs.update(3, wadd(a, b)), ..s1 };
        let s3 = reg::State { pc: 6, regs: s2.regs.update(1, b), ..s2 };
        let s4 = reg::State { pc: 7, regs: s3.regs.update(2, wadd(a, b)), ..s3 };
        assert(reg::step(code, s) == reg::Step::Going(s1));
        assert(reg::step(code, s1) == reg::Step::Going(s2));
        assert(reg::step(code, s2) == reg::Step::Going(s3));
        assert(reg::step(code, s3) == reg::Step::Going(s4));
        assert(reg::run_to(code, s, 4) == reg::Outcome::Pending(s4)) by {
            reveal_with_fuel(reg::run_to, 5);
        };
        lemma_reg_fib_loop(s4, (c - 1) as u32, b, wadd(a, b));
        let rest = fib_from((c - 1) as nat, b, wadd(a, b));
        let n = choose|n: nat| reg::run_to(code, s4, n) == reg::Outcome::Returned(rest);
        reg::lemma_run_to_add(code, s, 4, n, s4);
        assert(reg::run_to(code, s, 4 + n) == reg::Outcome::Returned(fib_from(c as nat, a, b)));
    }
}

/// The register machine's Fibonacci program returns the reference
/// value for every starting value that fits the loop counter.
pub proof fn reg_fib_produces(n: i64)
    requires
        0 <= n <= u32::MAX,
    ensures
        reg::produces(reg::fib_code(), seq![n], fib_value(n as nat)),
        reg::completes(reg::fib_code(), seq![n]),
{
    let code = reg::fib_code();
    let args: Seq<i64> = seq![n];
    let s0 = reg::init_state(args);
    lemma_low32_small(n);
    let s1 = reg::State { pc: 1, counter: low32(n), ..s0 };
    let s2 = reg::State { pc: 2, regs: s1.regs.update(1, 0i64), ..s1 };
    let s3 = reg::State { pc: 3, regs: s2.regs.update(2, 1i64), ..s2 };
    let s4 = reg::State { pc: 7, ..s3 };
    assert(reg::step(code, s0) == reg::Step::Going(s1));
    assert(reg::step(code, s1) == reg::Step::Going(s2));
    assert(reg::step(code, s2) == reg::Step::Going(s3));
    assert(reg::step(code, s3) == reg::Step::Going(s4));
    assert(reg::run_to(code, s0, 4) == reg::Outcome::Pending(s4)) by {
        reveal_with_fuel(reg::run_to, 5);
    };
    lemma_reg_fib_loop(s4, n as u32, 0i64, 1i64);
    let value = fib_from(n as nat, 0i64, 1i64);
    let m = choose|m: nat| reg::run_to(code, s4, m) == reg::Outcome::Returned(value);
    reg::lemma_run_to_add(code, s0, 4, m, s4);
    lemma_fib_from_pair(n as nat, 0);
    assert(reg::run_to(code, s0, 4 + m) == reg::Outcome::Returned(fib_value(n as nat)));
    assert(reg::produces(code, args, fib_value(n as nat)));
}

/// One stack-machine loop entry for the stack-resident encoding: from
/// the loop check with counter `c` and the pair on the stack, execution
/// returns `fib_from(c, a, b)`.
proof fn lemma_stack_fib_smart_loop(s: stack::State, c: u32, a: i64, b: i64)
    requires
        s.pc == 7,
        s.counter == c,
        s.stack == seq![a, b],
    ensures
        exists|n: nat|
            stack::run_to(stack::fib_smart_code(), s, n) == stack::Outcome::Returned(
                fib_from(c as nat, a, b),
            ),
    decreases c,
{
    let code = stack::fib_smart_code();
    if c == 0 {
        let s1 = stack::State { pc: 8, ..s };
        let t2 = s.stack.subrange(0, 1);
        let s2 = stack::State { pc: 9, stack: t2, ..s1 };
        assert(stack::step(code, s) == stack::Step::Going(s1));
        assert(stack::step(code, s1) == stack::Step::Going(s2));
        assert(t2[0] == a);
        assert(stack::step(code, s2) == stack::Step::Done(a));
        assert(stack::run_to(code, s, 3) == stack::Outcome::Returned(a)) by {
            reveal_with_fuel(stack::run_to, 4);
        };
    } else {
        let s1 = stack::State { pc: 4, counter: (c - 1) as u32, ..s };
        let t2 = s1.stack.push(b);
        let s2 = stack::State { pc: 5, stack: t2, ..s1 };
        let t3 = t2.update(0, t2[1]).update(1, t2[2]).update(2, t2[0]);
        let s3 = stack::State { pc: 6, stack: t3, ..s2 };
        let t4 = t3.update(1, wadd(t3[1], t3[2])).subrange(0, 2);
        let s4 = stack::State { pc: 7, stack: t4, ..s3 };
        assert(stack::step(code, s) == stack::Step::Going(s1));
        assert(stack::step(code, s1) == stack::Step::Going(s2));
        assert(stack::step(code, s2) == stack::Step::Going(s3));
        assert(stack::step(code, s3) == stack::Step::Going(s4));
        assert(stack::run_to(code, s, 4) == stack::Outcome::Pending(s4)) by {
            reveal_with_fuel(stack::run_to, 5);
        };
        assert(t4 =~= seq![b, wadd(a, b)]);
        lemma_stack_fib_smart_loop(s4, (c - 1) as u32, b, wadd(a, b));
        let rest = fib_from((c - 1) as nat, b, wadd(a, b));
        let n = choose|n: nat| stack::run_to(code, s4, n) == stack::Outcome::Returned(rest);
        stack::lemma_run_to_add(code, s, 4, n, s4);
        assert(stack::run_to(code, s, 4 + n) == stack::Outcome::Returned(
            fib_from(c as nat, a, b),
        ));
    }
}

/// The stack-resident Fibonacci program returns the reference value.
pub proof fn stack_fib_smart_produces(n: i64)
    requires
        0 <= n <= u32::MAX,
    ensures
        stack::produces(stack::fib_smart_code(), seq![n], fib_value(n as nat)),
        stack::completes(stack::fib_smart_code(), seq![n]),
{
    let code = stack::fib_smart_code();
    let args: Seq<i64> = seq![n];
    let s0 = stack::init_state(args);
    lemma_low32_small(n);
    let t1 = s0.stack.subrange(0, 0);
    let s1 = stack::State { pc: 1, counter: low32(n), stack: t1 };
    let t2 = t1.push(0i64);
    let s2 = stack::State { pc: 2, stack: t2, ..s1 };
    let t3 = t2.push(1i64);
    let s3 = stack::State { pc: 3, stack: t3, ..s2 };
    let s4 = stack::State { pc: 7, ..s3 };
    assert(stack::step(code, s0) == stack::Step::Going(s1));
    assert(stack::step(code, s1) == stack::Step::Going(s2));
    assert(stack::step(code, s2) == stack::Step::Going(s3));
    assert(stack::step(code, s3) == stack::Step::Going(s4));
    assert(stack::run_to(code, s0, 4) == stack::Outcome::Pending(s4)) by {
        reveal_with_fuel(stack::run_to, 5);
    };
    assert(s4.stack =~= seq![0i64, 1i64]);
    lemma_stack_fib_smart_loop(s4, n as u32, 0i64, 1i64);
    let value = fib_from(n as nat, 0i64, 1i64);
    let m = choose|m: nat| stack::run_to(code, s4, m) == stack::Outcome::Returned(value);
    stack::lemma_run_to_add(code, s0, 4, m, s4);
    lemma_fib_from_pair(n as nat, 0);
    assert(stack::run_to(code, s0, 4 + m) == stack::Outcome::Returned(fib_value(n as nat)));
    assert(stack::produces(code, args, fib_value(n as nat)));
}

/// One stack-machine loop entry for the slot-based encoding.
proof fn lemma_stack_fib_naive_loop(s: stack::State, c: u32, a: i64, b: i64)
    requires
        s.pc == 10,
        s.counter == c,
        s.stack == seq![a, b],
    ensures
        exists|n: nat|
            stack::run_to(stack::fib_naive_code(), s, n) == stack::Outcome::Returned(
                fib_from(c as nat, a, b),
            ),
    decreases c,
{
    let code = stack::fib_naive_code();
    if c == 0 {
        let s1 = stack::State { pc: 11, ..s };
        let t2 = s.stack.subrange(0, 1);
        let s2 = stack::State { pc: 12, stack: t2, ..s1 };
        assert(stack::step(code, s) == stack::Step::Going(s1));
        assert(stack::step(code, s1) == stack::Step::Going(s2));
        assert(t2[0] == a);
        assert(stack::step(code, s2) == stack::Step::Done(a));
        assert(stack::run_to(code, s, 3) == stack::Outcome::Returned(a)) by {
            reveal_with_fuel(stack::run_to, 4);
        };
    } else {
        let s1 = stack::State { pc: 4, counter: (c - 1) as u32, ..s };
        let t2 = s1.stack.push(s1.stack[0]);
        let s2 = stack::State { pc: 5, stack: t2, ..s1 };
        let t3 = t2.push(t2[1]);
        let s3 = stack::State { pc: 6, stack: t3, ..s2 };
        let t4 = t3.update(2, wadd(t3[2], t3[3])).subrange(0, 3);
        let s4 = stack::State { pc: 7, stack: t4, ..s3 };
        let t5 = t4.push(t4[1]);
        let s5 = stack::State { pc: 8, stack: t5, ..s4 };
        let t6 = t5.subrange(0, 3).update(0, t5[3]);
        let s6 = stack::State { pc: 9, stack: t6, ..s5 };
        let t7 = t6.subrange(0, 2).update(1, t6[2]);
        let s7 = stack::State { pc: 10, stack: t7, ..s6 };
        assert(stack::step(code, s) == stack::Step::Going(s1));
        assert(stack::step(code, s1) == stack::Step::Going(s2));
        assert(stack::step(code, s2) == stack::Step::Going(s3));
        assert(stack::step(code, s3) == stack::Step::Going(s4));
        assert(stack::step(code, s4) == stack::Step::Going(s5));
        assert(stack::step(code, s5) == stack::Step::Going(s6));
        assert(stack::step(code, s6) == stack::Step::Going(s7));
        assert(stack::run_to(code, s, 7) == stack::Outcome::Pending(s7)) by {
            reveal_with_fuel(stack::run_to, 8);
        };
        assert(t7 =~= seq![b, wadd(a, b)]);
        lemma_stack_fib_naive_loop(s7, (c - 1) as u32, b, wadd(a, b));
        let rest = fib_from((c - 1) as nat, b, wadd(a, b));
        let n = choose|n: nat| stack::run_to(code, s7, n) == stack::Outcome::Returned(rest);
        stack::lemma_run_to_add(code, s, 7, n, s7);
        assert(stack::run_to(code, s, 7 + n) == stack::Outcome::Returned(
            fib_from(c as nat, a, b),
        ));
    }
}

/// The slot-based Fibonacci program returns the reference value.
pub proof fn stack_fib_naive_produces(n: i64)
    requires
        0 <= n <= u32::MAX,
    ensures
        stack::produces(stack::fib_naive_code(), seq![n], fib_value(n as nat)),
        stack::completes(stack::fib_naive_code(), seq![n]),
{
    let code = stack::fib_naive_code();
    let args: Seq<i64> = seq![n];
    let s0 = stack::init_state(args);
    lemma_low32_small(n);
    let t1 = s0.stack.subrange(0, 0);
    let s1 = stack::State { pc: 1, counter: low32(n), stack: t1 };
    let t2 = t1.push(0i64);
    let s2 = stack::State { pc: 2, stack: t2, ..s1 };
    let t3 = t2.push(1i64);
    let s3 = stack::State { pc: 3, stack: t3, ..s2 };
    let s4 = stack::State { pc: 10, ..s3 };
    assert(stack::step(code, s0) == stack::Step::Going(s1));
    assert(stack::step(code, s1) == stack::Step::Going(s2));
    assert(stack::step(code, s2) == stack::Step::Going(s3));
    assert(stack::step(code, s3) == stack::Step::Going(s4));
    assert(stack::run_to(code, s0, 4) == stack::Outcome::Pending(s4)) by {
        reveal_with_fuel(stack::run_to, 5);
    };
    assert(s4.stack =~= seq![0i64, 1i64]);
    lemma_stack_fib_naive_loop(s4, n as u32, 0i64, 1i64);
    let value = fib_from(n as nat, 0i64, 1i64);
    let m = choose|m: nat| stack::run_to(code, s4, m) == stack::Outcome::Returned(value);
    stack::lemma_run_to_add(code, s0, 4, m, s4);
    lemma_fib_from_pair(n as nat, 0);
    assert(stack::run_to(code, s0, 4 + m) == stack::Outcome::Returned(fib_value(n as nat)));
    assert(stack::produces(code, args, fib_value(n as nat)));
}

/// For every starting value in the test domain, the register machine's
/// Fibonacci program and both stack encodings return exactly the
/// reference value, so all of them agree with each other.
pub proof fn fib_programs_agree(n: i64)
    requires
        0 <= n < 1000,
    ensures
        reg::produces(reg::fib_code(), seq![n], fib_value(n as nat)),
        stack::produces(stack::fib_smart_code(), seq![n], fib_value(n as nat)),
        stack::produces(stack::fib_naive_code(), seq![n], fib_value(n as nat)),
{
    reg_fib_produces(n);
    stack_fib_smart_produces(n);
    stack_fib_naive_produces(n);
}

} // verus!
