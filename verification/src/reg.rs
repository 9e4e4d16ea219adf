//! The register machine: a fixed file of 256 scalar cells addressed
//! directly by 8-bit operand indices.
//!
//! The meaning of a program is fixed by a small-step interpreter in
//! specification land (`step`, `run_to`); the executable machine is
//! verified against it, under either dispatch strategy.

use vstd::prelude::*;

use crate::cell::{low32, wadd, wmul, wsub};
use crate::DispatchMode;

verus! {

/// One register-machine instruction. Operands name registers by index;
/// jump and loop targets are absolute instruction indices.
#[derive(Clone, Copy, Debug)]
pub enum Instruction {
    LoadInt { dst: u8, value: i16 },
    Copy { dst: u8, src: u8 },
    Add { dst: u8, src1: u8, src2: u8 },
    Sub { dst: u8, src1: u8, src2: u8 },
    Mul { dst: u8, src1: u8, src2: u8 },
    Jump { target: u8 },
    SetCounter { src: u8 },
    GetCounter { dst: u8 },
    Loop { target: u8 },
    LoopLe { target: u8, src1: u8, src2: u8 },
    Return { src: u8 },
}

/// The number of registers. Every 8-bit operand index is in bounds.
pub const REG_COUNT: usize = 256;

/// The transient state of one run: a program counter, the loop counter,
/// and the register file.
pub struct State {
    pub pc: int,
    pub counter: u32,
    pub regs: Seq<i64>,
}

/// The effect of executing a single instruction.
pub enum Step {
    Going(State),
    Done(i64),
    Fault,
}

/// The outcome of running for a bounded number of steps.
pub enum Outcome {
    Pending(State),
    Returned(i64),
    Fault,
}

/// Execute the single instruction at `s.pc`. Faults exactly when the
/// program counter has left the program.
pub open spec fn step(code: Seq<Instruction>, s: State) -> Step {
    if !(0 <= s.pc < code.len()) {
        Step::Fault
    } else {
        match code[s.pc] {
            Instruction::LoadInt { dst, value } => Step::Going(
                State { pc: s.pc + 1, regs: s.regs.update(dst as int, value as i64), ..s },
            ),
            Instruction::Copy { dst, src } => Step::Going(
                State { pc: s.pc + 1, regs: s.regs.update(dst as int, s.regs[src as int]), ..s },
            ),
            Instruction::Add { dst, src1, src2 } => Step::Going(
                State {
                    pc: s.pc + 1,
                    regs: s.regs.update(dst as int, wadd(s.regs[src1 as int], s.regs[src2 as int])),
                    ..s
                },
            ),
            Instruction::Sub { dst, src1, src2 } => Step::Going(
                State {
                    pc: s.pc + 1,
                    regs: s.regs.update(dst as int, wsub(s.regs[src1 as int], s.regs[src2 as int])),
                    ..s
                },
            ),
            Instruction::Mul { dst, src1, src2 } => Step::Going(
                State {
                    pc: s.pc + 1,
                    regs: s.regs.update(dst as int, wmul(s.regs[src1 as int], s.regs[src2 as int])),
                    ..s
                },
            ),
            Instruction::Jump { target } => Step::Going(State { pc: target as int, ..s }),
            Instruction::SetCounter { src } => Step::Going(
                State { pc: s.pc + 1, counter: low32(s.regs[src as int]), ..s },
            ),
            Instruction::GetCounter { dst } => Step::Going(
                State { pc: s.pc + 1, regs: s.regs.update(dst as int, s.counter as i64), ..s },
            ),
            Instruction::Loop { target } => {
                if s.counter > 0 {
                    Step::Going(State { pc: target as int, counter: (s.counter - 1) as u32, ..s })
                } else {
                    Step::Going(State { pc: s.pc + 1, ..s })
                }
            },
            Instruction::LoopLe { target, src1, src2 } => {
                if s.regs[src1 as int] <= s.regs[src2 as int] && s.counter > 0 {
                    Step::Going(State { pc: target as int, counter: (s.counter - 1) as u32, ..s })
                } else {
                    Step::Going(State { pc: s.pc + 1, ..s })
                }
            },
            Instruction::Return { src } => Step::Done(s.regs[src as int]),
        }
    }
}

/// Run for at most `n` steps from `s`. Once the program returns or
/// faults, the outcome is fixed for every larger budget.
pub open spec fn run_to(code: Seq<Instruction>, s: State, n: nat) -> Outcome
    decreases n,
{
    if n == 0 {
        Outcome::Pending(s)
    } else {
        match step(code, s) {
            Step::Going(s2) => run_to(code, s2, (n - 1) as nat),
            Step::Done(v) => Outcome::Returned(v),
            Step::Fault => Outcome::Fault,
        }
    }
}

/// The state a run starts from: program counter and loop counter zero,
/// the arguments copied into the lowest registers, all others zero.
pub open spec fn init_state(args: Seq<i64>) -> State {
    State {
        pc: 0,
        counter: 0,
        regs: Seq::new(
            REG_COUNT as nat,
            |i: int| if 0 <= i < args.len() { args[i] } else { 0i64 },
        ),
    }
}

/// The program, started on `args`, eventually executes `Return` and
/// yields `v`.
pub open spec fn produces(code: Seq<Instruction>, args: Seq<i64>, v: i64) -> bool {
    exists|n: nat| run_to(code, init_state(args), n) == Outcome::Returned(v)
}

/// The program, started on `args`, terminates by executing `Return`
/// without ever faulting.
pub open spec fn completes(code: Seq<Instruction>, args: Seq<i64>) -> bool {
    exists|v: i64| produces(code, args, v)
}

/// Taking one more step extends a pending run by the effect of `step`.
pub proof fn lemma_run_to_step(code: Seq<Instruction>, s0: State, k: nat, cur: State)
    requires
        run_to(code, s0, k) == Outcome::Pending(cur),
    ensures
        run_to(code, s0, k + 1) == (match step(code, cur) {
            Step::Going(s2) => Outcome::Pending(s2),
            Step::Done(v) => Outcome::Returned(v),
            Step::Fault => Outcome::Fault,
        }),
    decreases k,
{
    if k == 0 {
        assert(run_to(code, s0, 1) == (match step(code, cur) {
            Step::Going(s2) => Outcome::Pending(s2),
            Step::Done(v) => Outcome::Returned(v),
            Step::Fault => Outcome::Fault,
        })) by {
            reveal_with_fuel(run_to, 2);
        };
    } else {
        match step(code, s0) {
            Step::Going(s1) => {
                lemma_run_to_step(code, s1, (k - 1) as nat, cur);
                assert(run_to(code, s0, k + 1) == run_to(code, s1, k));
            },
            Step::Done(v) => {},
            Step::Fault => {},
        }
    }
}

/// Splitting a step budget: after `m` steps a pending run continues
/// from the reached state with the remaining budget.
pub proof fn lemma_run_to_add(code: Seq<Instruction>, s: State, m: nat, n: nat, t: State)
    requires
        run_to(code, s, m) == Outcome::Pending(t),
    ensures
        run_to(code, s, m + n) == run_to(code, t, n),
    decreases m,
{
    if m == 0 {
    } else {
        match step(code, s) {
            Step::Going(s1) => {
                lemma_run_to_add(code, s1, (m - 1) as nat, n, t);
                if n > 0 {
                    assert(run_to(code, s, m + n) == run_to(code, s1, (m + n - 1) as nat));
                }
            },
            Step::Done(_) => {},
            Step::Fault => {},
        }
    }
}

/// A returned outcome is stable under a larger step budget.
pub proof fn lemma_returned_monotone(code: Seq<Instruction>, s: State, n: nat, m: nat, v: i64)
    requires
        run_to(code, s, n) == Outcome::Returned(v),
        n <= m,
    ensures
        run_to(code, s, m) == Outcome::Returned(v),
    decreases n,
{
    if n == 0 {
    } else {
        match step(code, s) {
            Step::Going(s2) => {
                lemma_returned_monotone(code, s2, (n - 1) as nat, (m - 1) as nat, v);
            },
            Step::Done(_) => {
                if m > 0 {
                } else {
                }
            },
            Step::Fault => {},
        }
    }
}

/// A faulted outcome is stable under a larger step budget.
pub proof fn lemma_fault_monotone(code: Seq<Instruction>, s: State, n: nat, m: nat)
    requires
        run_to(code, s, n) == Outcome::Fault,
        n <= m,
    ensures
        run_to(code, s, m) == Outcome::Fault,
    decreases n,
{
    if n == 0 {
    } else {
        match step(code, s) {
            Step::Going(s2) => {
                lemma_fault_monotone(code, s2, (n - 1) as nat, (m - 1) as nat);
            },
            Step::Done(_) => {},
            Step::Fault => {},
        }
    }
}

/// A program returns at most one value on given arguments: the machine
/// is deterministic, so the result is a function of program and input.
pub proof fn lemma_deterministic(code: Seq<Instruction>, args: Seq<i64>, v1: i64, v2: i64)
    requires
        produces(code, args, v1),
        produces(code, args, v2),
    ensures
        v1 == v2,
{
    let n1 = choose|n: nat| run_to(code, init_state(args), n) == Outcome::Returned(v1);
    let n2 = choose|n: nat| run_to(code, init_state(args), n) == Outcome::Returned(v2);
    if n1 <= n2 {
        lemma_returned_monotone(code, init_state(args), n1, n2, v1);
    } else {
        lemma_returned_monotone(code, init_state(args), n2, n1, v2);
    }
}

/// While a completing run is still pending, the next step neither
/// faults nor leaves the program, and if it returns it returns the
/// final value.
pub proof fn lemma_progress(
    code: Seq<Instruction>,
    s0: State,
    k: nat,
    n: nat,
    cur: State,
    v: i64,
)
    requires
        run_to(code, s0, k) == Outcome::Pending(cur),
        run_to(code, s0, n) == Outcome::Returned(v),
    ensures
        k < n,
        0 <= cur.pc < code.len(),
        !(step(code, cur) is Fault),
        step(code, cur) is Done ==> step(code, cur) == Step::Done(v),
{
    if k >= n {
        lemma_returned_monotone(code, s0, n, k, v);
    }
    lemma_run_to_step(code, s0, k, cur);
    match step(code, cur) {
        Step::Going(_) => {},
        Step::Done(w) => {
            lemma_returned_monotone(code, s0, k + 1, n, w);
        },
        Step::Fault => {
            lemma_fault_monotone(code, s0, k + 1, n);
        },
    }
}

/// The register machine. The register file is allocated once and owned
/// across runs; between runs every register is zero, so one run can
/// never observe what an earlier run left behind.
pub struct Vm {
    registers: Vec<i64>,
    mode: DispatchMode,
}

impl Vm {
    /// At rest, the register file has its full size and holds only zeros.
    pub closed spec fn wf(&self) -> bool {
        &&& self.registers@.len() == REG_COUNT
        &&& forall|i: int| 0 <= i < REG_COUNT ==> self.registers@[i] == 0i64
    }

    /// The dispatch strategy this machine was built with.
    pub closed spec fn mode(&self) -> DispatchMode {
        self.mode
    }

    /// A fresh machine using the checked dispatch strategy.
    pub fn new() -> (vm: Vm)
        ensures
            vm.wf(),
            vm.mode() == DispatchMode::Checked,
    {
        Vm::with_mode(DispatchMode::Checked)
    }

    /// A fresh machine using the given dispatch strategy.
    pub fn with_mode(mode: DispatchMode) -> (vm: Vm)
        ensures
            vm.wf(),
            vm.mode() == mode,
    {
        let mut registers: Vec<i64> = Vec::new();
        let mut i: usize = 0;
        while i < 256
            invariant
                i <= 256,
                registers@.len() == i,
                forall|j: int| 0 <= j < i ==> registers@[j] == 0i64,
            decreases 256 - i,
        {
            registers.push(0);
            i += 1;
        }
        Vm { registers, mode }
    }

    /// Run `code` on `args`: copy the arguments into the lowest
    /// registers, fetch and execute instructions until a `Return`, and
    /// yield the named register. The register file is reset to zeros
    /// before returning, so consecutive runs are independent.
    ///
    /// The caller owes a program that completes on these arguments; a
    /// malformed or non-returning program is a caller error, not a
    /// condition the machine reports.
    pub fn run(&mut self, code: &Vec<Instruction>, args: &Vec<i64>) -> (r: i64)
        requires
            old(self).wf(),
            args@.len() <= REG_COUNT,
            completes(code@, args@),
        ensures
            final(self).wf(),
            final(self).mode() == old(self).mode(),
            produces(code@, args@, r),
    {
        let ghost s0 = init_state(args@);
        let mut i: usize = 0;
        while i < args.len()
            invariant
                i <= args@.len(),
                args@.len() <= REG_COUNT,
                self.registers@.len() == REG_COUNT,
                self.mode == old(self).mode,
                forall|j: int| 0 <= j < i ==> self.registers@[j] == args@[j],
                forall|j: int| i <= j < REG_COUNT ==> self.registers@[j] == 0i64,
            decreases args@.len() - i,
        {
            self.registers.set(i, args[i]);
            i += 1;
        }
        proof {
            assert(self.registers@ =~= s0.regs);
        }

        let ghost (n0, v0) = choose|n: nat, v: i64|
            run_to(code@, s0, n) == Outcome::Returned(v);
        let code_len = code.len();
        let mut pc: usize = 0;
        let mut counter: u32 = 0;
        let ghost mut k: nat = 0;
        let ghost mut cur = s0;

        loop
            invariant
                s0 == init_state(args@),
                code_len == code@.len(),
                self.registers@.len() == REG_COUNT,
                self.mode == old(self).mode,
                cur.pc == pc as int,
                cur.counter == counter,
                cur.regs == self.registers@,
                run_to(code@, s0, k) == Outcome::Pending(cur),
                run_to(code@, s0, n0) == Outcome::Returned(v0),
            decreases n0 - k,
        {
            proof {
                lemma_progress(code@, s0, k, n0, cur, v0);
            }
            let instr = match self.mode {
                DispatchMode::Checked => {
                    if pc < code.len() {
                        code[pc]
                    } else {
                        proof {
                            assert(false);
                        }
                        vstd::pervasive::unreached()
                    }
                },
                DispatchMode::Direct => code[pc],
            };
            let ghost prev = cur;
            match instr {
                Instruction::LoadInt { dst, value } => {
                    self.registers.set(dst as usize, value as i64);
                    pc = pc + 1;
                },
                Instruction::Copy { dst, src } => {
                    let v = self.registers[src as usize];
                    self.registers.set(dst as usize, v);
                    pc = pc + 1;
                },
                Instruction::Add { dst, src1, src2 } => {
                    let a = self.registers[src1 as usize];
                    let b = self.registers[src2 as usize];
                    self.registers.set(dst as usize, a.wrapping_add(b));
                    pc = pc + 1;
                },
                Instruction::Sub { dst, src1, src2 } => {
                    let a = self.registers[src1 as usize];
                    let b = self.registers[src2 as usize];
                    self.registers.set(dst as usize, a.wrapping_sub(b));
                    pc = pc + 1;
                },
                Instruction::Mul { dst, src1, src2 } => {
                    let a = self.registers[src1 as usize];
                    let b = self.registers[src2 as usize];
                    self.registers.set(dst as usize, a.wrapping_mul(b));
                    pc = pc + 1;
                },
                Instruction::Jump { target } => {
                    pc = target as usize;
                },
                Instruction::SetCounter { src } => {
                    let v = self.registers[src as usize];
                    proof {
                        crate::cell::lemma_low32_fits(v);
                    }
                    counter = (v & 0xffff_ffffi64) as u32;
                    pc = pc + 1;
                },
                Instruction::GetCounter { dst } => {
                    self.registers.set(dst as usize, counter as i64);
                    pc = pc + 1;
                },
                Instruction::Loop { target } => {
                    if counter > 0 {
                        counter = counter - 1;
                        pc = target as usize;
                    } else {
                        pc = pc + 1;
                    }
                },
                Instruction::LoopLe { target, src1, src2 } => {
                    let a = self.registers[src1 as usize];
                    let b = self.registers[src2 as usize];
                    if a <= b && counter > 0 {
                        counter = counter - 1;
                        pc = target as usize;
                    } else {
                        pc = pc + 1;
                    }
                },
                Instruction::Return { src } => {
                    let r = self.registers[src as usize];
                    proof {
                        lemma_run_to_step(code@, s0, k, cur);
                        assert(produces(code@, args@, r)) by {
                            assert(run_to(code@, init_state(args@), k + 1)
                                == Outcome::Returned(r));
                        };
                    }
                    let mut j: usize = 0;
                    while j < 256
                        invariant
                            self.registers@.len() == REG_COUNT,
                            self.mode == old(self).mode,
                            j <= 256,
                            forall|t: int| 0 <= t < j ==> self.registers@[t] == 0i64,
                        decreases 256 - j,
                    {
                        self.registers.set(j, 0);
                        j += 1;
                    }
                    return r;
                },
            }
            proof {
                cur = State { pc: pc as int, counter, regs: self.registers@ };
                assert(step(code@, prev) == Step::Going(cur));
                lemma_run_to_step(code@, s0, k, prev);
                k = k + 1;
            }
        }
    }
}

/// Fibonacci: the counter is argument 0; registers 1 and 2 hold the
/// rolling pair, register 3 the scratch sum.
pub open spec fn fib_code() -> Seq<Instruction> {
    seq![
        Instruction::SetCounter { src: 0 },
        Instruction::LoadInt { dst: 1, value: 0 },
        Instruction::LoadInt { dst: 2, value: 1 },
        Instruction::Jump { target: 7 },
        Instruction::Add { dst: 3, src1: 1, src2: 2 },
        Instruction::Copy { dst: 1, src: 2 },
        Instruction::Copy { dst: 2, src: 3 },
        Instruction::Loop { target: 4 },
        Instruction::Return { src: 1 },
    ]
}

/// Build the Fibonacci program.
pub fn fib_program() -> (code: Vec<Instruction>)
    ensures
        code@ == fib_code(),
{
    let code = vec![
        Instruction::SetCounter { src: 0 },
        Instruction::LoadInt { dst: 1, value: 0 },
        Instruction::LoadInt { dst: 2, value: 1 },
        Instruction::Jump { target: 7 },
        Instruction::Add { dst: 3, src1: 1, src2: 2 },
        Instruction::Copy { dst: 1, src: 2 },
        Instruction::Copy { dst: 2, src: 3 },
        Instruction::Loop { target: 4 },
        Instruction::Return { src: 1 },
    ];
    proof {
        assert(code@ =~= fib_code());
    }
    code
}

/// Mandelbrot escape count: arguments are `x0, y0, n` in registers
/// 0..3; registers 3 and 4 hold the orbit, 5 and 6 are scratch. The
/// loop body lies at 4..13, the escape test at 13..18.
pub open spec fn mandel_code() -> Seq<Instruction> {
    seq![
        Instruction::LoadInt { dst: 3, value: 0 },
        Instruction::LoadInt { dst: 4, value: 0 },
        Instruction::SetCounter { src: 2 },
        Instruction::Jump { target: 13 },
        Instruction::Mul { dst: 5, src1: 3, src2: 3 },
        Instruction::Mul { dst: 6, src1: 4, src2: 4 },
        Instruction::Sub { dst: 5, src1: 5, src2: 6 },
        Instruction::Add { dst: 5, src1: 5, src2: 0 },
        Instruction::Mul { dst: 4, src1: 3, src2: 4 },
        Instruction::LoadInt { dst: 6, value: 2 },
        Instruction::Mul { dst: 4, src1: 4, src2: 6 },
        Instruction::Add { dst: 4, src1: 4, src2: 1 },
        Instruction::Copy { dst: 3, src: 5 },
        Instruction::Mul { dst: 5, src1: 3, src2: 3 },
        Instruction::Mul { dst: 6, src1: 4, src2: 4 },
        Instruction::Add { dst: 5, src1: 5, src2: 6 },
        Instruction::LoadInt { dst: 6, value: 4 },
        Instruction::LoopLe { target: 4, src1: 5, src2: 6 },
        Instruction::GetCounter { dst: 6 },
        Instruction::Sub { dst: 5, src1: 2, src2: 6 },
        Instruction::Return { src: 5 },
    ]
}

/// Build the Mandelbrot program.
pub fn mandel_program() -> (code: Vec<Instruction>)
    ensures
        code@ == mandel_code(),
{
    let code = vec![
        Instruction::LoadInt { dst: 3, value: 0 },
        Instruction::LoadInt { dst: 4, value: 0 },
        Instruction::SetCounter { src: 2 },
        Instruction::Jump { target: 13 },
        Instruction::Mul { dst: 5, src1: 3, src2: 3 },
        Instruction::Mul { dst: 6, src1: 4, src2: 4 },
        Instruction::Sub { dst: 5, src1: 5, src2: 6 },
        Instruction::Add { dst: 5, src1: 5, src2: 0 },
        Instruction::Mul { dst: 4, src1: 3, src2: 4 },
        Instruction::LoadInt { dst: 6, value: 2 },
        Instruction::Mul { dst: 4, src1: 4, src2: 6 },
        Instruction::Add { dst: 4, src1: 4, src2: 1 },
        Instruction::Copy { dst: 3, src: 5 },
        Instruction::Mul { dst: 5, src1: 3, src2: 3 },
        Instruction::Mul { dst: 6, src1: 4, src2: 4 },
        Instruction::Add { dst: 5, src1: 5, src2: 6 },
        Instruction::LoadInt { dst: 6, value: 4 },
        Instruction::LoopLe { target: 4, src1: 5, src2: 6 },
        Instruction::GetCounter { dst: 6 },
        Instruction::Sub { dst: 5, src1: 2, src2: 6 },
        Instruction::Return { src: 5 },
    ];
    proof {
        assert(code@ =~= mandel_code());
    }
    code
}

/// Sum registers 0..16 by sequential accumulation into register 0:
/// fifteen `Add`s folding register `j + 1` into register 0, then a
/// `Return` of register 0.
pub open spec fn add_chain_code() -> Seq<Instruction> {
    Seq::new(
        16,
        |j: int|
            if j < 15 {
                Instruction::Add { dst: 0u8, src1: 0u8, src2: (j + 1) as u8 }
            } else {
                Instruction::Return { src: 0u8 }
            },
    )
}

/// Build the sequential summation program.
pub fn add_chain_program() -> (code: Vec<Instruction>)
    ensures
        code@ == add_chain_code(),
{
    let mut code: Vec<Instruction> = Vec::new();
    let mut i: u8 = 1;
    while i < 16
        invariant
            1 <= i <= 16,
            code@.len() == i - 1,
            forall|j: int|
                0 <= j < i - 1 ==> code@[j] == (Instruction::Add {
                    dst: 0u8,
                    src1: 0u8,
                    src2: (j + 1) as u8,
                }),
        decreases 16 - i,
    {
        code.push(Instruction::Add { dst: 0, src1: 0, src2: i });
        i = i + 1;
    }
    code.push(Instruction::Return { src: 0 });
    proof {
        assert(code@ =~= add_chain_code());
    }
    code
}

/// Sum registers 0..16 by pairwise (tree-shaped) reduction into
/// register 0.
pub open spec fn add_pairs_code() -> Seq<Instruction> {
    seq![
        Instruction::Add { dst: 0, src1: 0, src2: 1 },
        Instruction::Add { dst: 2, src1: 2, src2: 3 },
        Instruction::Add { dst: 4, src1: 4, src2: 5 },
        Instruction::Add { dst: 6, src1: 6, src2: 7 },
        Instruction::Add { dst: 8, src1: 8, src2: 9 },
        Instruction::Add { dst: 10, src1: 10, src2: 11 },
        Instruction::Add { dst: 12, src1: 12, src2: 13 },
        Instruction::Add { dst: 14, src1: 14, src2: 15 },
        Instruction::Add { dst: 0, src1: 0, src2: 2 },
        Instruction::Add { dst: 4, src1: 4, src2: 6 },
        Instruction::Add { dst: 8, src1: 8, src2: 10 },
        Instruction::Add { dst: 12, src1: 12, src2: 14 },
        Instruction::Add { dst: 0, src1: 0, src2: 4 },
        Instruction::Add { dst: 8, src1: 8, src2: 12 },
        Instruction::Add { dst: 0, src1: 0, src2: 8 },
        Instruction::Return { src: 0 },
    ]
}

/// Build the pairwise summation program.
pub fn add_pairs_program() -> (code: Vec<Instruction>)
    ensures
        code@ == add_pairs_code(),
{
    let code = vec![
        Instruction::Add { dst: 0, src1: 0, src2: 1 },
        Instruction::Add { dst: 2, src1: 2, src2: 3 },
        Instruction::Add { dst: 4, src1: 4, src2: 5 },
        Instruction::Add { dst: 6, src1: 6, src2: 7 },
        Instruction::Add { dst: 8, src1: 8, src2: 9 },
        Instruction::Add { dst: 10, src1: 10, src2: 11 },
        Instruction::Add { dst: 12, src1: 12, src2: 13 },
        Instruction::Add { dst: 14, src1: 14, src2: 15 },
        Instruction::Add { dst: 0, src1: 0, src2: 2 },
        Instruction::Add { dst: 4, src1: 4, src2: 6 },
        Instruction::Add { dst: 8, src1: 8, src2: 10 },
        Instruction::Add { dst: 12, src1: 12, src2: 14 },
        Instruction::Add { dst: 0, src1: 0, src2: 4 },
        Instruction::Add { dst: 8, src1: 8, src2: 12 },
        Instruction::Add { dst: 0, src1: 0, src2: 8 },
        Instruction::Return { src: 0 },
    ];
    proof {
        assert(code@ =~= add_pairs_code());
    }
    code
}

} // verus!
