//! Machine-level laws: facts that hold of every program, and the
//! equivalence of the two summation encodings.

use vstd::prelude::*;

use crate::cell::{lemma_norm64_absorb, lemma_norm64_absorb_both, lemma_norm64_id, lemma_wadd_norm, norm64, wadd};
use crate::reg;
use crate::stack;

verus! {

/// A register-machine loop instruction with the counter already at zero
/// never jumps: execution falls through to the next instruction, and
/// the registers and counter are untouched.
pub proof fn reg_loop_at_zero_falls_through(code: Seq<reg::Instruction>, s: reg::State)
    requires
        0 <= s.pc < code.len(),
        s.counter == 0,
        code[s.pc] is Loop || code[s.pc] is LoopLe,
    ensures
        reg::step(code, s) == reg::Step::Going(reg::State { pc: s.pc + 1, ..s }),
{
}

/// A stack-machine loop instruction with the counter already at zero
/// never jumps. `LoopLe` still consumes its two comparison operands.
pub proof fn stack_loop_at_zero_falls_through(code: Seq<stack::Instruction>, s: stack::State)
    requires
        0 <= s.pc < code.len(),
        s.counter == 0,
        code[s.pc] is Loop || code[s.pc] is LoopLe,
        code[s.pc] is LoopLe ==> s.stack.len() >= 2,
    ensures
        code[s.pc] is Loop ==> stack::step(code, s) == stack::Step::Going(
            stack::State { pc: s.pc + 1, ..s },
        ),
        code[s.pc] is LoopLe ==> stack::step(code, s) == stack::Step::Going(
            stack::State {
                pc: s.pc + 1,
                counter: s.counter,
                stack: s.stack.subrange(0, s.stack.len() - 2),
            },
        ),
{
}

/// Dispatch-strategy invariance for the register machine: `run`
/// promises, under either strategy, a result satisfying `produces`;
/// the machine is deterministic, so the checked and direct strategies
/// return the same value for every well-formed program and input.
pub proof fn reg_dispatch_invariance(
    code: Seq<reg::Instruction>,
    args: Seq<i64>,
    r_checked: i64,
    r_direct: i64,
)
    requires
        reg::produces(code, args, r_checked),
        reg::produces(code, args, r_direct),
    ensures
        r_checked == r_direct,
{
    reg::lemma_deterministic(code, args, r_checked, r_direct);
}

/// Dispatch-strategy invariance for the stack machine.
pub proof fn stack_dispatch_invariance(
    code: Seq<stack::Instruction>,
    args: Seq<i64>,
    r_checked: i64,
    r_direct: i64,
)
    requires
        stack::produces(code, args, r_checked),
        stack::produces(code, args, r_direct),
    ensures
        r_checked == r_direct,
{
    stack::lemma_deterministic(code, args, r_checked, r_direct);
}

/// State isolation for the register machine: `run` starts from and
/// returns to a zeroed register file, and its result satisfies
/// `produces`, which mentions only the program and the arguments. So a
/// run that follows any number of earlier runs returns exactly what a
/// fresh machine returns.
pub proof fn reg_state_isolation(
    code: Seq<reg::Instruction>,
    args: Seq<i64>,
    r_after_earlier_runs: i64,
    r_fresh: i64,
)
    requires
        reg::produces(code, args, r_after_earlier_runs),
        reg::produces(code, args, r_fresh),
    ensures
        r_after_earlier_runs == r_fresh,
{
    reg::lemma_deterministic(code, args, r_after_earlier_runs, r_fresh);
}

/// State isolation for the stack machine: `run` starts from and returns
/// to an empty stack, and its result depends on the program and the
/// arguments alone.
pub proof fn stack_state_isolation(
    code: Seq<stack::Instruction>,
    args: Seq<i64>,
    r_after_earlier_runs: i64,
    r_fresh: i64,
)
    requires
        stack::produces(code, args, r_after_earlier_runs),
        stack::produces(code, args, r_fresh),
    ensures
        r_after_earlier_runs == r_fresh,
{
    stack::lemma_deterministic(code, args, r_after_earlier_runs, r_fresh);
}

/// The exact (unbounded) sum of `args[lo..hi]`.
pub open spec fn range_sum(args: Seq<i64>, lo: int, hi: int) -> int
    decreases hi - lo,
{
    if hi <= lo {
        0
    } else {
        range_sum(args, lo, hi - 1) + args[hi - 1]
    }
}

/// After the first `j` additions of the sequential summation program,
/// register 0 holds the reduced sum of the first `j + 1` arguments and
/// every other register still holds its argument.
proof fn lemma_add_chain_partial(args: Seq<i64>, j: nat)
    requires
        args.len() == 16,
        j <= 15,
    ensures
        reg::run_to(reg::add_chain_code(), reg::init_state(args), j) == reg::Outcome::Pending(
            reg::State {
                pc: j as int,
                counter: 0u32,
                regs: reg::init_state(args).regs.update(0, norm64(range_sum(args, 0, j as int + 1))),
            },
        ),
    decreases j,
{
    let code = reg::add_chain_code();
    let s0 = reg::init_state(args);
    if j == 0 {
        lemma_norm64_id(args[0] as int);
        assert(s0.regs =~= s0.regs.update(0, norm64(range_sum(args, 0, 1))));
    } else {
        lemma_add_chain_partial(args, (j - 1) as nat);
        let prev = reg::State {
            pc: j - 1,
            counter: 0u32,
            regs: s0.regs.update(0, norm64(range_sum(args, 0, j as int))),
        };
        let next = reg::State {
            pc: j as int,
            counter: 0u32,
            regs: s0.regs.update(0, norm64(range_sum(args, 0, j as int + 1))),
        };
        assert(code[j - 1] == (reg::Instruction::Add { dst: 0u8, src1: 0u8, src2: j as u8 }));
        assert(prev.regs[0] == norm64(range_sum(args, 0, j as int)));
        assert(prev.regs[j as int] == args[j as int]);
        lemma_wadd_norm(norm64(range_sum(args, 0, j as int)), args[j as int]);
        lemma_norm64_absorb(range_sum(args, 0, j as int), args[j as int] as int);
        assert(wadd(prev.regs[0], prev.regs[j as int]) == norm64(range_sum(args, 0, j as int + 1)));
        assert(prev.regs.update(0, norm64(range_sum(args, 0, j as int + 1))) =~= next.regs);
        assert(reg::step(code, prev) == reg::Step::Going(next));
        reg::lemma_run_to_step(code, s0, (j - 1) as nat, prev);
    }
}

/// The sequential summation program returns the reduced sum of its
/// sixteen preloaded registers.
pub proof fn add_chain_computes_sum(args: Seq<i64>)
    requires
        args.len() == 16,
    ensures
        reg::produces(reg::add_chain_code(), args, norm64(range_sum(args, 0, 16))),
        reg::completes(reg::add_chain_code(), args),
{
    let code = reg::add_chain_code();
    let s0 = reg::init_state(args);
    lemma_add_chain_partial(args, 15);
    let last = reg::State {
        pc: 15int,
        counter: 0u32,
        regs: s0.regs.update(0, norm64(range_sum(args, 0, 16))),
    };
    assert(code[15] == (reg::Instruction::Return { src: 0u8 }));
    assert(reg::step(code, last) == reg::Step::Done(norm64(range_sum(args, 0, 16))));
    reg::lemma_run_to_step(code, s0, 15nat, last);
    assert(reg::run_to(code, s0, 16) == reg::Outcome::Returned(norm64(range_sum(args, 0, 16))));
    assert(reg::produces(code, args, norm64(range_sum(args, 0, 16))));
    assert(reg::completes(code, args));
}

/// The pairwise (tree-shaped) summation program returns the same value
/// as the sequential one: the reduced sum of its sixteen preloaded
/// registers. Together with `add_chain_computes_sum` this shows the two
/// reduction orders are semantically equivalent.
#[verifier::rlimit(60)]
pub proof fn add_pairs_computes_sum(args: Seq<i64>)
    requires
        args.len() == 16,
    ensures
        reg::produces(reg::add_pairs_code(), args, norm64(range_sum(args, 0, 16))),
        reg::completes(reg::add_pairs_code(), args),
{
    let code = reg::add_pairs_code();
    let s0 = reg::init_state(args);
    let s1 = reg::State {
        pc: 1,
        counter: 0u32,
        regs: s0.regs.update(0, wadd(s0.regs[0], s0.regs[1])),
    };
    assert(code[0] == (reg::Instruction::Add { dst: 0u8, src1: 0u8, src2: 1u8 }));
    assert(reg::step(code, s0) == reg::Step::Going(s1));
    reg::lemma_run_to_step(code, s0, 0, s0);
    lemma_wadd_norm(args[0], args[1]);
    lemma_range_sum_two(args, 0);
    assert(s1.regs[0] == norm64(range_sum(args, 0, 2)));
    let s2 = reg::State {
        pc: 2,
        counter: 0u32,
        regs: s1.regs.update(2, wadd(s1.regs[2], s1.regs[3])),
    };
    assert(code[1] == (reg::Instruction::Add { dst: 2u8, src1: 2u8, src2: 3u8 }));
    assert(reg::step(code, s1) == reg::Step::Going(s2));
    reg::lemma_run_to_step(code, s0, 1, s1);
    lemma_wadd_norm(args[2], args[3]);
    lemma_range_sum_two(args, 2);
    assert(s2.regs[2] == norm64(range_sum(args, 2, 4)));
    let s3 = reg::State {
        pc: 3,
        counter: 0u32,
        regs: s2.regs.update(4, wadd(s2.regs[4], s2.regs[5])),
    };
    assert(code[2] == (reg::Instruction::Add { dst: 4u8, src1: 4u8, src2: 5u8 }));
    assert(reg::step(code, s2) == reg::Step::Going(s3));
    reg::lemma_run_to_step(code, s0, 2, s2);
    lemma_wadd_norm(args[4], args[5]);
    lemma_range_sum_two(args, 4);
    assert(s3.regs[4] == norm64(range_sum(args, 4, 6)));
    let s4 = reg::State {
        pc: 4,
        counter: 0u32,
        regs: s3.regs.update(6, wadd(s3.regs[6], s3.regs[7])),
    };
    assert(code[3] == (reg::Instruction::Add { dst: 6u8, src1: 6u8, src2: 7u8 }));
    assert(reg::step(code, s3) == reg::Step::Going(s4));
    reg::lemma_run_to_step(code, s0, 3, s3);
    lemma_wadd_norm(args[6], args[7]);
    lemma_range_sum_two(args, 6);
    assert(s4.regs[6] == norm64(range_sum(args, 6, 8)));
    let s5 = reg::State {
        pc: 5,
        counter: 0u32,
        regs: s4.regs.update(8, wadd(s4.regs[8], s4.regs[9])),
    };
    assert(code[4] == (reg::Instruction::Add { dst: 8u8, src1: 8u8, src2: 9u8 }));
    assert(reg::step(code, s4) == reg::Step::Going(s5));
    reg::lemma_run_to_step(code, s0, 4, s4);
    lemma_wadd_norm(args[8], args[9]);
    lemma_range_sum_two(args, 8);
    assert(s5.regs[8] == norm64(range_sum(args, 8, 10)));
    let s6 = reg::State {
        pc: 6,
        counter: 0u32,
        regs: s5.regs.update(10, wadd(s5.regs[10], s5.regs[11])),
    };
    assert(code[5] == (reg::Instruction::Add { dst: 10u8, src1: 10u8, src2: 11u8 }));
    assert(reg::step(code, s5) == reg::Step::Going(s6));
    reg::lemma_run_to_step(code, s0, 5, s5);
    lemma_wadd_norm(args[10], args[11]);
    lemma_range_sum_two(args, 10);
    assert(s6.regs[10] == norm64(range_sum(args, 10, 12)));
    let s7 = reg::State {
        pc: 7,
        counter: 0u32,
        regs: s6.regs.update(12, wadd(s6.regs[12], s6.regs[13])),
    };
    assert(code[6] == (reg::Instruction::Add { dst: 12u8, src1: 12u8, src2: 13u8 }));
    assert(reg::step(code, s6) == reg::Step::Going(s7));
    reg::lemma_run_to_step(code, s0, 6, s6);
    lemma_wadd_norm(args[12], args[13]);
    lemma_range_sum_two(args, 12);
    assert(s7.regs[12] == norm64(range_sum(args, 12, 14)));
    let s8 = reg::State {
        pc: 8,
        counter: 0u32,
        regs: s7.regs.update(14, wadd(s7.regs[14], s7.regs[15])),
    };
    assert(code[7] == (reg::Instruction::Add { dst: 14u8, src1: 14u8, src2: 15u8 }));
    assert(reg::step(code, s7) == reg::Step::Going(s8));
    reg::lemma_run_to_step(code, s0, 7, s7);
    lemma_wadd_norm(args[14], args[15]);
    lemma_range_sum_two(args, 14);
    assert(s8.regs[14] == norm64(range_sum(args, 14, 16)));
    let s9 = reg::State {
        pc: 9,
        counter: 0u32,
        regs: s8.regs.update(0, wadd(s8.regs[0], s8.regs[2])),
    };
    assert(code[8] == (reg::Instruction::Add { dst: 0u8, src1: 0u8, src2: 2u8 }));
    assert(reg::step(code, s8) == reg::Step::Going(s9));
    reg::lemma_run_to_step(code, s0, 8, s8);
    lemma_wadd_norm(norm64(range_sum(args, 0, 2)), norm64(range_sum(args, 2, 4)));
    lemma_norm64_absorb_both(range_sum(args, 0, 2), range_sum(args, 2, 4));
    lemma_range_sum_concat(args, 0, 2, 4);
    assert(s9.regs[0] == norm64(range_sum(args, 0, 4)));
    let s10 = reg::State {
        pc: 10,
        counter: 0u32,
        regs: s9.regs.update(4, wadd(s9.regs[4], s9.regs[6])),
    };
    assert(code[9] == (reg::Instruction::Add { dst: 4u8, src1: 4u8, src2: 6u8 }));
    assert(reg::step(code, s9) == reg::Step::Going(s10));
    reg::lemma_run_to_step(code, s0, 9, s9);
    lemma_wadd_norm(norm64(range_sum(args, 4, 6)), norm64(range_sum(args, 6, 8)));
    lemma_norm64_absorb_both(range_sum(args, 4, 6), range_sum(args, 6, 8));
    lemma_range_sum_concat(args, 4, 6, 8);
    assert(s10.regs[4] == norm64(range_sum(args, 4, 8)));
    let s11 = reg::State {
        pc: 11,
        counter: 0u32,
        regs: s10.regs.update(8, wadd(s10.regs[8], s10.regs[10])),
    };
    assert(code[10] == (reg::Instruction::Add { dst: 8u8, src1: 8u8, src2: 10u8 }));
    assert(reg::step(code, s10) == reg::Step::Going(s11));
    reg::lemma_run_to_step(code, s0, 10, s10);
    lemma_wadd_norm(norm64(range_sum(args, 8, 10)), norm64(range_sum(args, 10, 12)));
    lemma_norm64_absorb_both(range_sum(args, 8, 10), range_sum(args, 10, 12));
    lemma_range_sum_concat(args, 8, 10, 12);
    assert(s11.regs[8] == norm64(range_sum(args, 8, 12)));
    let s12 = reg::State {
        pc: 12,
        counter: 0u32,
        regs: s11.regs.update(12, wadd(s11.regs[12], s11.regs[14])),
    };
    assert(code[11] == (reg::Instruction::Add { dst: 12u8, src1: 12u8, src2: 14u8 }));
    assert(reg::step(code, s11) == reg::Step::Going(s12));
    reg::lemma_run_to_step(code, s0, 11, s11);
    lemma_wadd_norm(norm64(range_sum(args, 12, 14)), norm64(range_sum(args, 14, 16)));
    lemma_norm64_absorb_both(range_sum(args, 12, 14), range_sum(args, 14, 16));
    lemma_range_sum_concat(args, 12, 14, 16);
    assert(s12.regs[12] == norm64(range_sum(args, 12, 16)));
    let s13 = reg::State {
        pc: 13,
        counter: 0u32,
        regs: s12.regs.update(0, wadd(s12.regs[0], s12.regs[4])),
    };
    assert(code[12] == (reg::Instruction::Add { dst: 0u8, src1: 0u8, src2: 4u8 }));
    assert(reg::step(code, s12) == reg::Step::Going(s13));
    reg::lemma_run_to_step(code, s0, 12, s12);
    lemma_wadd_norm(norm64(range_sum(args, 0, 4)), norm64(range_sum(args, 4, 8)));
    lemma_norm64_absorb_both(range_sum(args, 0, 4), range_sum(args, 4, 8));
    lemma_range_sum_concat(args, 0, 4, 8);
    assert(s13.regs[0] == norm64(range_sum(args, 0, 8)));
    let s14 = reg::State {
        pc: 14,
        counter: 0u32,
        regs: s13.regs.update(8, wadd(s13.regs[8], s13.regs[12])),
    };
    assert(code[13] == (reg::Instruction::Add { dst: 8u8, src1: 8u8, src2: 12u8 }));
    assert(reg::step(code, s13) == reg::Step::Going(s14));
    reg::lemma_run_to_step(code, s0, 13, s13);
    lemma_wadd_norm(norm64(range_sum(args, 8, 12)), norm64(range_sum(args, 12, 16)));
    lemma_norm64_absorb_both(range_sum(args, 8, 12), range_sum(args, 12, 16));
    lemma_range_sum_concat(args, 8, 12, 16);
    assert(s14.regs[8] == norm64(range_sum(args, 8, 16)));
    let s15 = reg::State {
        pc: 15,
        counter: 0u32,
        regs: s14.regs.update(0, wadd(s14.regs[0], s14.regs[8])),
    };
    assert(code[14] == (reg::Instruction::Add { dst: 0u8, src1: 0u8, src2: 8u8 }));
    assert(reg::step(code, s14) == reg::Step::Going(s15));
    reg::lemma_run_to_step(code, s0, 14, s14);
    lemma_wadd_norm(norm64(range_sum(args, 0, 8)), norm64(range_sum(args, 8, 16)));
    lemma_norm64_absorb_both(range_sum(args, 0, 8), range_sum(args, 8, 16));
    lemma_range_sum_concat(args, 0, 8, 16);
    assert(s15.regs[0] == norm64(range_sum(args, 0, 16)));
    assert(code[15] == (reg::Instruction::Return { src: 0u8 }));
    assert(reg::step(code, s15) == reg::Step::Done(norm64(range_sum(args, 0, 16))));
    reg::lemma_run_to_step(code, s0, 15, s15);
    assert(reg::run_to(code, s0, 16) == reg::Outcome::Returned(norm64(range_sum(args, 0, 16))));
    assert(reg::produces(code, args, norm64(range_sum(args, 0, 16))));
    assert(reg::completes(code, args));
}

/// A two-element sum, written out.
proof fn lemma_range_sum_two(args: Seq<i64>, lo: int)
    ensures
        range_sum(args, lo, lo + 2) == args[lo] + args[lo + 1],
{
    reveal_with_fuel(range_sum, 3);
}

/// Splitting a contiguous sum at `mid`.
proof fn lemma_range_sum_concat(args: Seq<i64>, lo: int, mid: int, hi: int)
    requires
        lo <= mid <= hi,
    ensures
        range_sum(args, lo, mid) + range_sum(args, mid, hi) == range_sum(args, lo, hi),
    decreases hi - mid,
{
    if hi == mid {
    } else {
        lemma_range_sum_concat(args, lo, mid, hi - 1);
    }
}

} // verus!
