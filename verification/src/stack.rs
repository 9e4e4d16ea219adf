//! The stack machine: arithmetic works on the top of an evaluation
//! stack; `Load`/`Store` move values between the stack top and "slots",
//! which are the stack's own cells indexed from the base, so slot `i`
//! of a run is the `i`-th argument (or a local kept at that depth).
//!
//! As for the register machine, the meaning of a program is fixed by a
//! small-step interpreter in specification land, and the executable
//! machine is verified against it under either dispatch strategy.

use vstd::prelude::*;

use crate::cell::{low32, wadd, wmul, wsub};
use crate::DispatchMode;

verus! {

/// One stack-machine instruction.
#[derive(Clone, Copy, Debug)]
pub enum Instruction {
    Load { src: u8 },
    Store { dst: u8 },
    LoadInt { value: i8 },
    Add,
    Sub,
    Mul,
    Pop,
    Dup,
    Rot,
    Swap,
    Jump { target: u8 },
    SetCounter,
    GetCounter,
    Loop { target: u8 },
    LoopLe { target: u8 },
    Return,
    Nop,
}

/// The stack's capacity. A well-formed program never needs more cells;
/// pushing past this bound is a fault, mirroring the fixed backing
/// storage that the unchecked strategy relies on.
pub const STACK_CAPACITY: usize = 256;

/// The transient state of one run: a program counter, the loop counter,
/// and the evaluation stack (base first, top last).
pub struct State {
    pub pc: int,
    pub counter: u32,
    pub stack: Seq<i64>,
}

/// The effect of executing a single instruction.
pub enum Step {
    Going(State),
    Done(i64),
    Fault,
}

/// The outcome of running for a bounded number of steps.
pub enum Outcome {
    Pending(State),
    Returned(i64),
    Fault,
}

/// Execute the single instruction at `s.pc`. Faults exactly when the
/// program counter leaves the program, a slot index or stack access
/// reaches below the live stack, or a push exceeds the capacity.
pub open spec fn step(code: Seq<Instruction>, s: State) -> Step {
    let l = s.stack.len() as int;
    if !(0 <= s.pc < code.len()) {
        Step::Fault
    } else {
        match code[s.pc] {
            Instruction::Load { src } => {
                if src < l && l < STACK_CAPACITY {
                    Step::Going(State { pc: s.pc + 1, stack: s.stack.push(s.stack[src as int]), ..s })
                } else {
                    Step::Fault
                }
            },
            Instruction::Store { dst } => {
                if l >= 1 && dst < l - 1 {
                    Step::Going(
                        State {
                            pc: s.pc + 1,
                            stack: s.stack.subrange(0, l - 1).update(dst as int, s.stack[l - 1]),
                            ..s
                        },
                    )
                } else {
                    Step::Fault
                }
            },
            Instruction::LoadInt { value } => {
                if l < STACK_CAPACITY {
                    Step::Going(State { pc: s.pc + 1, stack: s.stack.push(value as i64), ..s })
                } else {
                    Step::Fault
                }
            },
            Instruction::Add => {
                if l >= 2 {
                    Step::Going(
                        State {
                            pc: s.pc + 1,
                            stack: s.stack.update(l - 2, wadd(s.stack[l - 2], s.stack[l - 1]))
                                .subrange(0, l - 1),
                            ..s
                        },
                    )
                } else {
                    Step::Fault
                }
            },
            Instruction::Sub => {
                if l >= 2 {
                    Step::Going(
                        State {
                            pc: s.pc + 1,
                            stack: s.stack.update(l - 2, wsub(s.stack[l - 2], s.stack[l - 1]))
                                .subrange(0, l - 1),
                            ..s
                        },
                    )
                } else {
                    Step::Fault
                }
            },
            Instruction::Mul => {
                if l >= 2 {
                    Step::Going(
                        State {
                            pc: s.pc + 1,
                            stack: s.stack.update(l - 2, wmul(s.stack[l - 2], s.stack[l - 1]))
                                .subrange(0, l - 1),
                            ..s
                        },
                    )
                } else {
                    Step::Fault
                }
            },
            Instruction::Pop => {
                if l >= 1 {
                    Step::Going(State { pc: s.pc + 1, stack: s.stack.subrange(0, l - 1), ..s })
                } else {
                    Step::Fault
                }
            },
            Instruction::Dup => {
                if l >= 1 && l < STACK_CAPACITY {
                    Step::Going(State { pc: s.pc + 1, stack: s.stack.push(s.stack[l - 1]), ..s })
                } else {
                    Step::Fault
                }
            },
            Instruction::Rot => {
                if l >= 3 {
                    Step::Going(
                        State {
                            pc: s.pc + 1,
                            stack: s.stack.update(l - 3, s.stack[l - 2]).update(
                                l - 2,
                                s.stack[l - 1],
                            ).update(l - 1, s.stack[l - 3]),
                            ..s
                        },
                    )
                } else {
                    Step::Fault
                }
            },
            Instruction::Swap => {
                if l >= 2 {
                    Step::Going(
                        State {
                            pc: s.pc + 1,
                            stack: s.stack.update(l - 2, s.stack[l - 1]).update(
                                l - 1,
                                s.stack[l - 2],
                            ),
                            ..s
                        },
                    )
                } else {
                    Step::Fault
                }
            },
            Instruction::Jump { target } => Step::Going(State { pc: target as int, ..s }),
            Instruction::SetCounter => {
                if l >= 1 {
                    Step::Going(
                        State {
                            pc: s.pc + 1,
                            counter: low32(s.stack[l - 1]),
                            stack: s.stack.subrange(0, l - 1),
                        },
                    )
                } else {
                    Step::Fault
                }
            },
            Instruction::GetCounter => {
                if l < STACK_CAPACITY {
                    Step::Going(State { pc: s.pc + 1, stack: s.stack.push(s.counter as i64), ..s })
                } else {
                    Step::Fault
                }
            },
            Instruction::Loop { target } => {
                if s.counter > 0 {
                    Step::Going(State { pc: target as int, counter: (s.counter - 1) as u32, ..s })
                } else {
                    Step::Going(State { pc: s.pc + 1, ..s })
                }
            },
            Instruction::LoopLe { target } => {
                if l >= 2 {
                    let b = s.stack[l - 1];
                    let a = s.stack[l - 2];
                    if a <= b && s.counter > 0 {
                        Step::Going(
                            State {
                                pc: target as int,
                                counter: (s.counter - 1) as u32,
                                stack: s.stack.subrange(0, l - 2),
                            },
                        )
                    } else {
                        Step::Going(State { pc: s.pc + 1, stack: s.stack.subrange(0, l - 2), ..s })
                    }
                } else {
                    Step::Fault
                }
            },
            Instruction::Return => {
                if l >= 1 {
                    Step::Done(s.stack[l - 1])
                } else {
                    Step::Fault
                }
            },
            Instruction::Nop => Step::Going(State { pc: s.pc + 1, ..s }),
        }
    }
}

/// Run for at most `n` steps from `s`. Once the program returns or
/// faults, the outcome is fixed for every larger budget.
pub open spec fn run_to(code: Seq<Instruction>, s: State, n: nat) -> Outcome
    decreases n,
{
    if n == 0 {
        Outcome::Pending(s)
    } else {
        match step(code, s) {
            Step::Going(s2) => run_to(code, s2, (n - 1) as nat),
            Step::Done(v) => Outcome::Returned(v),
            Step::Fault => Outcome::Fault,
        }
    }
}

/// The state a run starts from: the arguments pushed onto the empty
/// stack in order, so slot `i` holds argument `i`.
pub open spec fn init_state(args: Seq<i64>) -> State {
    State { pc: 0, counter: 0, stack: args }
}

/// The program, started on `args`, eventually executes `Return` and
/// yields `v`.
pub open spec fn produces(code: Seq<Instruction>, args: Seq<i64>, v: i64) -> bool {
    exists|n: nat| run_to(code, init_state(args), n) == Outcome::Returned(v)
}

/// The program, started on `args`, terminates by executing `Return`
/// without ever faulting.
pub open spec fn completes(code: Seq<Instruction>, args: Seq<i64>) -> bool {
    exists|v: i64| produces(code, args, v)
}

/// Taking one more step extends a pending run by the effect of `step`.
pub proof fn lemma_run_to_step(code: Seq<Instruction>, s0: State, k: nat, cur: State)
    requires
        run_to(code, s0, k) == Outcome::Pending(cur),
    ensures
        run_to(code, s0, k + 1) == (match step(code, cur) {
            Step::Going(s2) => Outcome::Pending(s2),
            Step::Done(v) => Outcome::Returned(v),
            Step::Fault => Outcome::Fault,
        }),
    decreases k,
{
    if k == 0 {
        assert(run_to(code, s0, 1) == (match step(code, cur) {
            Step::Going(s2) => Outcome::Pending(s2),
            Step::Done(v) => Outcome::Returned(v),
            Step::Fault => Outcome::Fault,
        })) by {
            reveal_with_fuel(run_to, 2);
        };
    } else {
        match step(code, s0) {
            Step::Going(s1) => {
                lemma_run_to_step(code, s1, (k - 1) as nat, cur);
                assert(run_to(code, s0, k + 1) == run_to(code, s1, k));
            },
            Step::Done(v) => {},
            Step::Fault => {},
        }
    }
}

/// Splitting a step budget: after `m` steps a pending run continues
/// from the reached state with the remaining budget.
pub proof fn lemma_run_to_add(code: Seq<Instruction>, s: State, m: nat, n: nat, t: State)
    requires
        run_to(code, s, m) == Outcome::Pending(t),
    ensures
        run_to(code, s, m + n) == run_to(code, t, n),
    decreases m,
{
    if m == 0 {
    } else {
        match step(code, s) {
            Step::Going(s1) => {
                lemma_run_to_add(code, s1, (m - 1) as nat, n, t);
                if n > 0 {
                    assert(run_to(code, s, m + n) == run_to(code, s1, (m + n - 1) as nat));
                }
            },
            Step::Done(_) => {},
            Step::Fault => {},
        }
    }
}

/// A returned outcome is stable under a larger step budget.
pub proof fn lemma_returned_monotone(code: Seq<Instruction>, s: State, n: nat, m: nat, v: i64)
    requires
        run_to(code, s, n) == Outcome::Returned(v),
        n <= m,
    ensures
        run_to(code, s, m) == Outcome::Returned(v),
    decreases n,
{
    if n == 0 {
    } else {
        match step(code, s) {
            Step::Going(s2) => {
                lemma_returned_monotone(code, s2, (n - 1) as nat, (m - 1) as nat, v);
            },
            Step::Done(_) => {},
            Step::Fault => {},
        }
    }
}

/// A faulted outcome is stable under a larger step budget.
pub proof fn lemma_fault_monotone(code: Seq<Instruction>, s: State, n: nat, m: nat)
    requires
        run_to(code, s, n) == Outcome::Fault,
        n <= m,
    ensures
        run_to(code, s, m) == Outcome::Fault,
    decreases n,
{
    if n == 0 {
    } else {
        match step(code, s) {
            Step::Going(s2) => {
                lemma_fault_monotone(code, s2, (n - 1) as nat, (m - 1) as nat);
            },
            Step::Done(_) => {},
            Step::Fault => {},
        }
    }
}

/// A program returns at most one value on given arguments.
pub proof fn lemma_deterministic(code: Seq<Instruction>, args: Seq<i64>, v1: i64, v2: i64)
    requires
        produces(code, args, v1),
        produces(code, args, v2),
    ensures
        v1 == v2,
{
    let n1 = choose|n: nat| run_to(code, init_state(args), n) == Outcome::Returned(v1);
    let n2 = choose|n: nat| run_to(code, init_state(args), n) == Outcome::Returned(v2);
    if n1 <= n2 {
        lemma_returned_monotone(code, init_state(args), n1, n2, v1);
    } else {
        lemma_returned_monotone(code, init_state(args), n2, n1, v2);
    }
}

/// While a completing run is still pending, the next step neither
/// faults nor leaves the program, and if it returns it returns the
/// final value.
pub proof fn lemma_progress(
    code: Seq<Instruction>,
    s0: State,
    k: nat,
    n: nat,
    cur: State,
    v: i64,
)
    requires
        run_to(code, s0, k) == Outcome::Pending(cur),
        run_to(code, s0, n) == Outcome::Returned(v),
    ensures
        k < n,
        0 <= cur.pc < code.len(),
        !(step(code, cur) is Fault),
        step(code, cur) is Done ==> step(code, cur) == Step::Done(v),
{
    if k >= n {
        lemma_returned_monotone(code, s0, n, k, v);
    }
    lemma_run_to_step(code, s0, k, cur);
    match step(code, cur) {
        Step::Going(_) => {},
        Step::Done(w) => {
            lemma_returned_monotone(code, s0, k + 1, n, w);
        },
        Step::Fault => {
            lemma_fault_monotone(code, s0, k + 1, n);
        },
    }
}

/// The stack machine. The stack is allocated once and owned across
/// runs; between runs it is empty, so one run can never observe what an
/// earlier run left behind.
pub struct Vm {
    stack: Vec<i64>,
    mode: DispatchMode,
}

impl Vm {
    /// At rest, the stack is empty.
    pub closed spec fn wf(&self) -> bool {
        self.stack@.len() == 0
    }

    /// The dispatch strategy this machine was built with.
    pub closed spec fn mode(&self) -> DispatchMode {
        self.mode
    }

    /// A fresh machine using the checked dispatch strategy.
    pub fn new() -> (vm: Vm)
        ensures
            vm.wf(),
            vm.mode() == DispatchMode::Checked,
    {
        Vm::with_mode(DispatchMode::Checked)
    }

    /// A fresh machine using the given dispatch strategy.
    pub fn with_mode(mode: DispatchMode) -> (vm: Vm)
        ensures
            vm.wf(),
            vm.mode() == mode,
    {
        Vm { stack: Vec::new(), mode }
    }

    /// Run `code` on `args`: push the arguments onto the empty stack,
    /// fetch and execute instructions until a `Return`, and yield the
    /// popped result. The stack is cleared before returning, so
    /// consecutive runs are independent.
    ///
    /// The caller owes a program that completes on these arguments; a
    /// malformed or non-returning program is a caller error, not a
    /// condition the machine reports.
    pub fn run(&mut self, code: &Vec<Instruction>, args: &Vec<i64>) -> (r: i64)
        requires
            old(self).wf(),
            args@.len() <= STACK_CAPACITY,
            completes(code@, args@),
        ensures
            final(self).wf(),
            final(self).mode() == old(self).mode(),
            produces(code@, args@, r),
    {
        let ghost s0 = init_state(args@);
        let mut i: usize = 0;
        while i < args.len()
            invariant
                i <= args@.len(),
                self.mode == old(self).mode,
                self.stack@ == args@.subrange(0, i as int),
            decreases args@.len() - i,
        {
            self.stack.push(args[i]);
            proof {
                assert(self.stack@ =~= args@.subrange(0, i + 1));
            }
            i += 1;
        }
        proof {
            assert(self.stack@ =~= args@);
        }

        let ghost (n0, v0) = choose|n: nat, v: i64|
            run_to(code@, s0, n) == Outcome::Returned(v);
        let code_len = code.len();
        let mut pc: usize = 0;
        let mut counter: u32 = 0;
        let ghost mut k: nat = 0;
        let ghost mut cur = s0;

        loop
            invariant
                s0 == init_state(args@),
                code_len == code@.len(),
                self.mode == old(self).mode,
                cur.pc == pc as int,
                cur.counter == counter,
                cur.stack == self.stack@,
                run_to(code@, s0, k) == Outcome::Pending(cur),
                run_to(code@, s0, n0) == Outcome::Returned(v0),
            decreases n0 - k,
        {
            proof {
                lemma_progress(code@, s0, k, n0, cur, v0);
            }
            let instr = match self.mode {
                DispatchMode::Checked => {
                    if pc < code.len() {
                        code[pc]
                    } else {
                        proof {
                            assert(false);
                        }
                        vstd::pervasive::unreached()
                    }
                },
                DispatchMode::Direct => code[pc],
            };
            let ghost prev = cur;
            match instr {
                Instruction::Load { src } => {
                    let v = self.stack[src as usize];
                    self.stack.push(v);
                    pc = pc + 1;
                },
                Instruction::Store { dst } => {
                    let v = self.stack.pop().unwrap();
                    self.stack.set(dst as usize, v);
                    pc = pc + 1;
                },
                Instruction::LoadInt { value } => {
                    self.stack.push(value as i64);
                    pc = pc + 1;
                },
                Instruction::Add => {
                    let l = self.stack.len();
                    let b = self.stack[l - 1];
                    let a = self.stack[l - 2];
                    self.stack.set(l - 2, a.wrapping_add(b));
                    let _top = self.stack.pop();
                    pc = pc + 1;
                },
                Instruction::Sub => {
                    let l = self.stack.len();
                    let b = self.stack[l - 1];
                    let a = self.stack[l - 2];
                    self.stack.set(l - 2, a.wrapping_sub(b));
                    let _top = self.stack.pop();
                    pc = pc + 1;
                },
                Instruction::Mul => {
                    let l = self.stack.len();
                    let b = self.stack[l - 1];
                    let a = self.stack[l - 2];
                    self.stack.set(l - 2, a.wrapping_mul(b));
                    let _top = self.stack.pop();
                    pc = pc + 1;
                },
                Instruction::Pop => {
                    let _top = self.stack.pop();
                    pc = pc + 1;
                },
                Instruction::Dup => {
                    let l = self.stack.len();
                    let v = self.stack[l - 1];
                    self.stack.push(v);
                    pc = pc + 1;
                },
                Instruction::Rot => {
                    let l = self.stack.len();
                    let a = self.stack[l - 3];
                    let b = self.stack[l - 2];
                    let c = self.stack[l - 1];
                    self.stack.set(l - 3, b);
                    self.stack.set(l - 2, c);
                    self.stack.set(l - 1, a);
                    pc = pc + 1;
                },
                Instruction::Swap => {
                    let l = self.stack.len();
                    let a = self.stack[l - 2];
                    let b = self.stack[l - 1];
                    self.stack.set(l - 2, b);
                    self.stack.set(l - 1, a);
                    pc = pc + 1;
                },
                Instruction::Jump { target } => {
                    pc = target as usize;
                },
                Instruction::SetCounter => {
                    let v = self.stack.pop().unwrap();
                    proof {
                        crate::cell::lemma_low32_fits(v);
                    }
                    counter = (v & 0xffff_ffffi64) as u32;
                    pc = pc + 1;
                },
                Instruction::GetCounter => {
                    self.stack.push(counter as i64);
                    pc = pc + 1;
                },
                Instruction::Loop { target } => {
                    if counter > 0 {
                        counter = counter - 1;
                        pc = target as usize;
                    } else {
                        pc = pc + 1;
                    }
                },
                Instruction::LoopLe { target } => {
                    let b = self.stack.pop().unwrap();
                    let a = self.stack.pop().unwrap();
                    proof {
                        assert(self.stack@ =~= prev.stack.subrange(
                            0,
                            prev.stack.len() - 2,
                        ));
                    }
                    if a <= b && counter > 0 {
                        counter = counter - 1;
                        pc = target as usize;
                    } else {
                        pc = pc + 1;
                    }
                },
                Instruction::Return => {
                    let r = self.stack.pop().unwrap();
                    proof {
                        lemma_run_to_step(code@, s0, k, cur);
                        assert(produces(code@, args@, r)) by {
                            assert(run_to(code@, init_state(args@), k + 1)
                                == Outcome::Returned(r));
                        };
                    }
                    self.stack.clear();
                    return r;
                },
                Instruction::Nop => {
                    pc = pc + 1;
                },
            }
            proof {
                cur = State { pc: pc as int, counter, stack: self.stack@ };
                assert(step(code@, prev) == Step::Going(cur));
                lemma_run_to_step(code@, s0, k, prev);
                k = k + 1;
            }
        }
    }
}

/// Fibonacci, keeping the rolling pair on the stack across iterations:
/// each round is `Dup; Rot; Add`.
pub open spec fn fib_smart_code() -> Seq<Instruction> {
    seq![
        Instruction::SetCounter,
        Instruction::LoadInt { value: 0 },
        Instruction::LoadInt { value: 1 },
        Instruction::Jump { target: 7 },
        Instruction::Dup,
        Instruction::Rot,
        Instruction::Add,
        Instruction::Loop { target: 4 },
        Instruction::Pop,
        Instruction::Return,
    ]
}

/// Build the stack-resident Fibonacci program.
pub fn fib_smart_program() -> (code: Vec<Instruction>)
    ensures
        code@ == fib_smart_code(),
{
    let code = vec![
        Instruction::SetCounter,
        Instruction::LoadInt { value: 0 },
        Instruction::LoadInt { value: 1 },
        Instruction::Jump { target: 7 },
        Instruction::Dup,
        Instruction::Rot,
        Instruction::Add,
        Instruction::Loop { target: 4 },
        Instruction::Pop,
        Instruction::Return,
    ];
    proof {
        assert(code@ =~= fib_smart_code());
    }
    code
}

/// Fibonacci, round-tripping the pair through slots 0 and 1 on every
/// iteration.
pub open spec fn fib_naive_code() -> Seq<Instruction> {
    seq![
        Instruction::SetCounter,
        Instruction::LoadInt { value: 0 },
        Instruction::LoadInt { value: 1 },
        Instruction::Jump { target: 10 },
        Instruction::Load { src: 0 },
        Instruction::Load { src: 1 },
        Instruction::Add,
        Instruction::Load { src: 1 },
        Instruction::Store { dst: 0 },
        Instruction::Store { dst: 1 },
        Instruction::Loop { target: 4 },
        Instruction::Pop,
        Instruction::Return,
    ]
}

/// Build the slot-based Fibonacci program.
pub fn fib_naive_program() -> (code: Vec<Instruction>)
    ensures
        code@ == fib_naive_code(),
{
    let code = vec![
        Instruction::SetCounter,
        Instruction::LoadInt { value: 0 },
        Instruction::LoadInt { value: 1 },
        Instruction::Jump { target: 10 },
        Instruction::Load { src: 0 },
        Instruction::Load { src: 1 },
        Instruction::Add,
        Instruction::Load { src: 1 },
        Instruction::Store { dst: 0 },
        Instruction::Store { dst: 1 },
        Instruction::Loop { target: 4 },
        Instruction::Pop,
        Instruction::Return,
    ];
    proof {
        assert(code@ =~= fib_naive_code());
    }
    code
}

/// Mandelbrot, keeping the orbit on the stack: the loop body uses
/// `Dup`/`Rot`/`Swap` instead of slot round-trips. Slots are
/// `x0, y0, n, x, y`.
pub open spec fn mandel_smart_code() -> Seq<Instruction> {
    seq![
        Instruction::Load { src: 2 },
        Instruction::SetCounter,
        Instruction::LoadInt { value: 0 },
        Instruction::LoadInt { value: 0 },
        Instruction::Jump { target: 21 },
        Instruction::Load { src: 3 },
        Instruction::Dup,
        Instruction::Mul,
        Instruction::Load { src: 4 },
        Instruction::Dup,
        Instruction::Mul,
        Instruction::Sub,
        Instruction::Load { src: 0 },
        Instruction::Add,
        Instruction::Swap,
        Instruction::Rot,
        Instruction::Mul,
        Instruction::LoadInt { value: 2 },
        Instruction::Mul,
        Instruction::Load { src: 1 },
        Instruction::Add,
        Instruction::Load { src: 3 },
        Instruction::Dup,
        Instruction::Mul,
        Instruction::Load { src: 4 },
        Instruction::Dup,
        Instruction::Mul,
        Instruction::Add,
        Instruction::LoadInt { value: 4 },
        Instruction::LoopLe { target: 5 },
        Instruction::Load { src: 2 },
        Instruction::GetCounter,
        Instruction::Sub,
        Instruction::Return,
    ]
}

/// Build this Mandelbrot variant.
pub fn mandel_smart_program() -> (code: Vec<Instruction>)
    ensures
        code@ == mandel_smart_code(),
{
    let code = vec![
        Instruction::Load { src: 2 },
        Instruction::SetCounter,
        Instruction::LoadInt { value: 0 },
        Instruction::LoadInt { value: 0 },
        Instruction::Jump { target: 21 },
        Instruction::Load { src: 3 },
        Instruction::Dup,
        Instruction::Mul,
        Instruction::Load { src: 4 },
        Instruction::Dup,
        Instruction::Mul,
        Instruction::Sub,
        Instruction::Load { src: 0 },
        Instruction::Add,
        Instruction::Swap,
        Instruction::Rot,
        Instruction::Mul,
        Instruction::LoadInt { value: 2 },
        Instruction::Mul,
        Instruction::Load { src: 1 },
        Instruction::Add,
        Instruction::Load { src: 3 },
        Instruction::Dup,
        Instruction::Mul,
        Instruction::Load { src: 4 },
        Instruction::Dup,
        Instruction::Mul,
        Instruction::Add,
        Instruction::LoadInt { value: 4 },
        Instruction::LoopLe { target: 5 },
        Instruction::Load { src: 2 },
        Instruction::GetCounter,
        Instruction::Sub,
        Instruction::Return,
    ];
    proof {
        assert(code@ =~= mandel_smart_code());
    }
    code
}

/// Mandelbrot, round-tripping every intermediate value through slots
/// `x0, y0, n, x, y, xtemp`.
pub open spec fn mandel_naive_code() -> Seq<Instruction> {
    seq![
        Instruction::Load { src: 2 },
        Instruction::SetCounter,
        Instruction::LoadInt { value: 0 },
        Instruction::LoadInt { value: 0 },
        Instruction::LoadInt { value: 0 },
        Instruction::Jump { target: 26 },
        Instruction::Load { src: 3 },
        Instruction::Load { src: 3 },
        Instruction::Mul,
        Instruction::Load { src: 4 },
        Instruction::Load { src: 4 },
        Instruction::Mul,
        Instruction::Sub,
        Instruction::Load { src: 0 },
        Instruction::Add,
        Instruction::Store { dst: 5 },
        Instruction::Load { src: 3 },
        Instruction::Load { src: 4 },
        Instruction::Mul,
        Instruction::LoadInt { value: 2 },
        Instruction::Mul,
        Instruction::Load { src: 1 },
        Instruction::Add,
        Instruction::Store { dst: 4 },
        Instruction::Load { src: 5 },
        Instruction::Store { dst: 3 },
        Instruction::Load { src: 3 },
        Instruction::Load { src: 3 },
        Instruction::Mul,
        Instruction::Load { src: 4 },
        Instruction::Load { src: 4 },
        Instruction::Mul,
        Instruction::Add,
        Instruction::LoadInt { value: 4 },
        Instruction::LoopLe { target: 6 },
        Instruction::Load { src: 2 },
        Instruction::GetCounter,
        Instruction::Sub,
        Instruction::Return,
    ]
}

/// Build this Mandelbrot variant.
pub fn mandel_naive_program() -> (code: Vec<Instruction>)
    ensures
        code@ == mandel_naive_code(),
{
    let code = vec![
        Instruction::Load { src: 2 },
        Instruction::SetCounter,
        Instruction::LoadInt { value: 0 },
        Instruction::LoadInt { value: 0 },
        Instruction::LoadInt { value: 0 },
        Instruction::Jump { target: 26 },
        Instruction::Load { src: 3 },
        Instruction::Load { src: 3 },
        Instruction::Mul,
        Instruction::Load { src: 4 },
        Instruction::Load { src: 4 },
        Instruction::Mul,
        Instruction::Sub,
        Instruction::Load { src: 0 },
        Instruction::Add,
        Instruction::Store { dst: 5 },
        Instruction::Load { src: 3 },
        Instruction::Load { src: 4 },
        Instruction::Mul,
        Instruction::LoadInt { value: 2 },
        Instruction::Mul,
        Instruction::Load { src: 1 },
        Instruction::Add,
        Instruction::Store { dst: 4 },
        Instruction::Load { src: 5 },
        Instruction::Store { dst: 3 },
        Instruction::Load { src: 3 },
        Instruction::Load { src: 3 },
        Instruction::Mul,
        Instruction::Load { src: 4 },
        Instruction::Load { src: 4 },
        Instruction::Mul,
        Instruction::Add,
        Instruction::LoadInt { value: 4 },
        Instruction::LoopLe { target: 6 },
        Instruction::Load { src: 2 },
        Instruction::GetCounter,
        Instruction::Sub,
        Instruction::Return,
    ];
    proof {
        assert(code@ =~= mandel_naive_code());
    }
    code
}

/// The stack-resident Mandelbrot with three `Nop`s inside the hot
/// orbit block, to measure fetch cost on the busiest path.
pub open spec fn mandel_smart_nops_slow_code() -> Seq<Instruction> {
    seq![
        Instruction::Load { src: 2 },
        Instruction::SetCounter,
        Instruction::LoadInt { value: 0 },
        Instruction::LoadInt { value: 0 },
        Instruction::Jump { target: 24 },
        Instruction::Load { src: 3 },
        Instruction::Dup,
        Instruction::Mul,
        Instruction::Load { src: 4 },
        Instruction::Nop,
        Instruction::Nop,
        Instruction::Nop,
        Instruction::Dup,
        Instruction::Mul,
        Instruction::Sub,
        Instruction::Load { src: 0 },
        Instruction::Add,
        Instruction::Swap,
        Instruction::Rot,
        Instruction::Mul,
        Instruction::LoadInt { value: 2 },
        Instruction::Mul,
        Instruction::Load { src: 1 },
        Instruction::Add,
        Instruction::Load { src: 3 },
        Instruction::Dup,
        Instruction::Mul,
        Instruction::Load { src: 4 },
        Instruction::Dup,
        Instruction::Mul,
        Instruction::Add,
        Instruction::LoadInt { value: 4 },
        Instruction::LoopLe { target: 5 },
        Instruction::Load { src: 2 },
        Instruction::GetCounter,
        Instruction::Sub,
        Instruction::Return,
    ]
}

/// Build this Mandelbrot variant.
pub fn mandel_smart_nops_slow_program() -> (code: Vec<Instruction>)
    ensures
        code@ == mandel_smart_nops_slow_code(),
{
    let code = vec![
        Instruction::Load { src: 2 },
        Instruction::SetCounter,
        Instruction::LoadInt { value: 0 },
        Instruction::LoadInt { value: 0 },
        Instruction::Jump { target: 24 },
        Instruction::Load { src: 3 },
        Instruction::Dup,
        Instruction::Mul,
        Instruction::Load { src: 4 },
        Instruction::Nop,
        Instruction::Nop,
        Instruction::Nop,
        Instruction::Dup,
        Instruction::Mul,
        Instruction::Sub,
        Instruction::Load { src: 0 },
        Instruction::Add,
        Instruction::Swap,
        Instruction::Rot,
        Instruction::Mul,
        Instruction::LoadInt { value: 2 },
        Instruction::Mul,
        Instruction::Load { src: 1 },
        Instruction::Add,
        Instruction::Load { src: 3 },
        Instruction::Dup,
        Instruction::Mul,
        Instruction::Load { src: 4 },
        Instruction::Dup,
        Instruction::Mul,
        Instruction::Add,
        Instruction::LoadInt { value: 4 },
        Instruction::LoopLe { target: 5 },
        Instruction::Load { src: 2 },
        Instruction::GetCounter,
        Instruction::Sub,
        Instruction::Return,
    ];
    proof {
        assert(code@ =~= mandel_smart_nops_slow_code());
    }
    code
}

/// The stack-resident Mandelbrot with three `Nop`s after the
/// `Swap`/`Rot` shuffle, off the hottest path.
pub open spec fn mandel_smart_nops_same_code() -> Seq<Instruction> {
    seq![
        Instruction::Load { src: 2 },
        Instruction::SetCounter,
        Instruction::LoadInt { value: 0 },
        Instruction::LoadInt { value: 0 },
        Instruction::Jump { target: 24 },
        Instruction::Load { src: 3 },
        Instruction::Dup,
        Instruction::Mul,
        Instruction::Load { src: 4 },
        Instruction::Dup,
        Instruction::Mul,
        Instruction::Sub,
        Instruction::Load { src: 0 },
        Instruction::Add,
        Instruction::Swap,
        Instruction::Rot,
        Instruction::Nop,
        Instruction::Nop,
        Instruction::Nop,
        Instruction::Mul,
        Instruction::LoadInt { value: 2 },
        Instruction::Mul,
        Instruction::Load { src: 1 },
        Instruction::Add,
        Instruction::Load { src: 3 },
        Instruction::Dup,
        Instruction::Mul,
        Instruction::Load { src: 4 },
        Instruction::Dup,
        Instruction::Mul,
        Instruction::Add,
        Instruction::LoadInt { value: 4 },
        Instruction::LoopLe { target: 5 },
        Instruction::Load { src: 2 },
        Instruction::GetCounter,
        Instruction::Sub,
        Instruction::Return,
    ]
}

/// Build this Mandelbrot variant.
pub fn mandel_smart_nops_same_program() -> (code: Vec<Instruction>)
    ensures
        code@ == mandel_smart_nops_same_code(),
{
    let code = vec![
        Instruction::Load { src: 2 },
        Instruction::SetCounter,
        Instruction::LoadInt { value: 0 },
        Instruction::LoadInt { value: 0 },
        Instruction::Jump { target: 24 },
        Instruction::Load { src: 3 },
        Instruction::Dup,
        Instruction::Mul,
        Instruction::Load { src: 4 },
        Instruction::Dup,
        Instruction::Mul,
        Instruction::Sub,
        Instruction::Load { src: 0 },
        Instruction::Add,
        Instruction::Swap,
        Instruction::Rot,
        Instruction::Nop,
        Instruction::Nop,
        Instruction::Nop,
        Instruction::Mul,
        Instruction::LoadInt { value: 2 },
        Instruction::Mul,
        Instruction::Load { src: 1 },
        Instruction::Add,
        Instruction::Load { src: 3 },
        Instruction::Dup,
        Instruction::Mul,
        Instruction::Load { src: 4 },
        Instruction::Dup,
        Instruction::Mul,
        Instruction::Add,
        Instruction::LoadInt { value: 4 },
        Instruction::LoopLe { target: 5 },
        Instruction::Load { src: 2 },
        Instruction::GetCounter,
        Instruction::Sub,
        Instruction::Return,
    ];
    proof {
        assert(code@ =~= mandel_smart_nops_same_code());
    }
    code
}

/// The stack-resident Mandelbrot with every `Dup` replaced by a
/// second `Load`, to measure the saving `Dup` buys.
pub open spec fn mandel_smart_no_dup_code() -> Seq<Instruction> {
    seq![
        Instruction::Load { src: 2 },
        Instruction::SetCounter,
        Instruction::LoadInt { value: 0 },
        Instruction::LoadInt { value: 0 },
        Instruction::Jump { target: 21 },
        Instruction::Load { src: 3 },
        Instruction::Load { src: 3 },
        Instruction::Mul,
        Instruction::Load { src: 4 },
        Instruction::Load { src: 4 },
        Instruction::Mul,
        Instruction::Sub,
        Instruction::Load { src: 0 },
        Instruction::Add,
        Instruction::Swap,
        Instruction::Rot,
        Instruction::Mul,
        Instruction::LoadInt { value: 2 },
        Instruction::Mul,
        Instruction::Load { src: 1 },
        Instruction::Add,
        Instruction::Load { src: 3 },
        Instruction::Load { src: 3 },
        Instruction::Mul,
        Instruction::Load { src: 4 },
        Instruction::Load { src: 4 },
        Instruction::Mul,
        Instruction::Add,
        Instruction::LoadInt { value: 4 },
        Instruction::LoopLe { target: 5 },
        Instruction::Load { src: 2 },
        Instruction::GetCounter,
        Instruction::Sub,
        Instruction::Return,
    ]
}

/// Build this Mandelbrot variant.
pub fn mandel_smart_no_dup_program() -> (code: Vec<Instruction>)
    ensures
        code@ == mandel_smart_no_dup_code(),
{
    let code = vec![
        Instruction::Load { src: 2 },
        Instruction::SetCounter,
        Instruction::LoadInt { value: 0 },
        Instruction::LoadInt { value: 0 },
        Instruction::Jump { target: 21 },
        Instruction::Load { src: 3 },
        Instruction::Load { src: 3 },
        Instruction::Mul,
        Instruction::Load { src: 4 },
        Instruction::Load { src: 4 },
        Instruction::Mul,
        Instruction::Sub,
        Instruction::Load { src: 0 },
        Instruction::Add,
        Instruction::Swap,
        Instruction::Rot,
        Instruction::Mul,
        Instruction::LoadInt { value: 2 },
        Instruction::Mul,
        Instruction::Load { src: 1 },
        Instruction::Add,
        Instruction::Load { src: 3 },
        Instruction::Load { src: 3 },
        Instruction::Mul,
        Instruction::Load { src: 4 },
        Instruction::Load { src: 4 },
        Instruction::Mul,
        Instruction::Add,
        Instruction::LoadInt { value: 4 },
        Instruction::LoopLe { target: 5 },
        Instruction::Load { src: 2 },
        Instruction::GetCounter,
        Instruction::Sub,
        Instruction::Return,
    ];
    proof {
        assert(code@ =~= mandel_smart_no_dup_code());
    }
    code
}

} // verus!
