//! Machine-level behaviour: dispatch strategies, state isolation, and
//! the loop boundary.

use stack_vs_reg::reg;
use stack_vs_reg::reg::Instruction as RI;
use stack_vs_reg::stack;
use stack_vs_reg::stack::Instruction as SI;
use stack_vs_reg::DispatchMode;

#[test]
fn reg_dispatch_strategies_agree() {
    let mut checked = reg::Vm::with_mode(DispatchMode::Checked);
    let mut direct = reg::Vm::with_mode(DispatchMode::Direct);
    let fib = reg::fib_program();
    let mandel = reg::mandel_program();
    for n in [0i64, 1, 7, 93, 500] {
        assert_eq!(checked.run(&fib, &vec![n]), direct.run(&fib, &vec![n]));
    }
    for (x, y) in [(0i64, 0i64), (1, 1), (-2, 3)] {
        assert_eq!(
            checked.run(&mandel, &vec![x, y, 100]),
            direct.run(&mandel, &vec![x, y, 100])
        );
    }
}

#[test]
fn stack_dispatch_strategies_agree() {
    let mut checked = stack::Vm::with_mode(DispatchMode::Checked);
    let mut direct = stack::Vm::with_mode(DispatchMode::Direct);
    for code in [stack::fib_smart_program(), stack::fib_naive_program()] {
        for n in [0i64, 1, 7, 93, 500] {
            assert_eq!(checked.run(&code, &vec![n]), direct.run(&code, &vec![n]));
        }
    }
}

#[test]
fn reg_state_isolation() {
    let fib = reg::fib_program();
    let mut vm = reg::Vm::new();
    let _ = vm.run(&fib, &vec![5]);
    let second = vm.run(&fib, &vec![3]);
    let mut fresh = reg::Vm::new();
    assert_eq!(second, fresh.run(&fib, &vec![3]));
}

#[test]
fn stack_state_isolation() {
    let fib = stack::fib_smart_program();
    let mut vm = stack::Vm::new();
    let _ = vm.run(&fib, &vec![5]);
    let second = vm.run(&fib, &vec![3]);
    let mut fresh = stack::Vm::new();
    assert_eq!(second, fresh.run(&fib, &vec![3]));
}

#[test]
fn reg_loop_at_zero_falls_through() {
    // Counter starts at zero; the body writes register 1 and control
    // reaches the loop check once, which must fall through.
    let code = vec![
        RI::SetCounter { src: 0 },
        RI::Add { dst: 1, src1: 2, src2: 3 },
        RI::Loop { target: 1 },
        RI::Return { src: 1 },
    ];
    let mut vm = reg::Vm::new();
    // Body executed exactly once: 30 + 12, not more.
    assert_eq!(vm.run(&code, &vec![0, 0, 30, 12]), 42);

    // Jumping past the body into the check first, the body never runs.
    let skipping = vec![
        RI::SetCounter { src: 0 },
        RI::Jump { target: 3 },
        RI::Add { dst: 1, src1: 2, src2: 3 },
        RI::Loop { target: 2 },
        RI::Return { src: 1 },
    ];
    assert_eq!(vm.run(&skipping, &vec![0, 0, 30, 12]), 0);
}

#[test]
fn reg_loop_le_at_zero_falls_through() {
    // Registers 2 and 3 satisfy the comparison, but the counter is
    // zero, so the loop must still fall through after one body pass.
    let code = vec![
        RI::SetCounter { src: 0 },
        RI::Add { dst: 1, src1: 1, src2: 2 },
        RI::LoopLe { target: 1, src1: 2, src2: 3 },
        RI::Return { src: 1 },
    ];
    let mut vm = reg::Vm::new();
    assert_eq!(vm.run(&code, &vec![0, 0, 5, 9]), 5);
}

#[test]
fn stack_loop_at_zero_falls_through() {
    // Counter zero: the loop check falls through and the pushed marker
    // is returned unchanged.
    let code = vec![
        SI::SetCounter,
        SI::LoadInt { value: 41 },
        SI::LoadInt { value: 1 },
        SI::Add,
        SI::Loop { target: 1 },
        SI::Return,
    ];
    let mut vm = stack::Vm::new();
    assert_eq!(vm.run(&code, &vec![0]), 42);
}

#[test]
fn stack_ops_small_programs() {
    let mut vm = stack::Vm::new();
    // Swap leaves the former second-from-top on top.
    let swap = vec![SI::Load { src: 0 }, SI::Load { src: 1 }, SI::Swap, SI::Return];
    assert_eq!(vm.run(&swap, &vec![10, 20]), 10);
    // Rot brings the third-from-top to the top.
    let rot = vec![
        SI::Load { src: 0 },
        SI::Load { src: 1 },
        SI::Load { src: 2 },
        SI::Rot,
        SI::Return,
    ];
    assert_eq!(vm.run(&rot, &vec![7, 8, 9]), 7);
    // Dup copies the top; Pop removes it again.
    let dup_pop = vec![SI::Load { src: 0 }, SI::Dup, SI::Pop, SI::Return];
    assert_eq!(vm.run(&dup_pop, &vec![33]), 33);
    // Store writes the popped top into a slot.
    let store = vec![
        SI::LoadInt { value: 99 },
        SI::Store { dst: 0 },
        SI::Load { src: 0 },
        SI::Return,
    ];
    assert_eq!(vm.run(&store, &vec![1, 2]), 99);
    // GetCounter pushes what SetCounter stored.
    let counter = vec![SI::SetCounter, SI::GetCounter, SI::Return];
    assert_eq!(vm.run(&counter, &vec![123]), 123);
}

#[test]
fn arithmetic_wraps() {
    let add = vec![RI::Add { dst: 0, src1: 0, src2: 1 }, RI::Return { src: 0 }];
    let mut vm = reg::Vm::new();
    assert_eq!(vm.run(&add, &vec![i64::MAX, 1]), i64::MIN);
    let mul = vec![RI::Mul { dst: 0, src1: 0, src2: 1 }, RI::Return { src: 0 }];
    assert_eq!(
        vm.run(&mul, &vec![i64::MAX, 2]),
        i64::MAX.wrapping_mul(2)
    );
    let sub = vec![RI::Sub { dst: 0, src1: 0, src2: 1 }, RI::Return { src: 0 }];
    assert_eq!(vm.run(&sub, &vec![i64::MIN, 1]), i64::MAX);
}

#[test]
fn set_counter_truncates() {
    // The counter keeps the low 32 bits of the source cell.
    let code = vec![
        RI::SetCounter { src: 0 },
        RI::GetCounter { dst: 1 },
        RI::Return { src: 1 },
    ];
    let mut vm = reg::Vm::new();
    assert_eq!(vm.run(&code, &vec![(1i64 << 32) + 7]), 7);
    assert_eq!(vm.run(&code, &vec![-1]), 0xffff_ffff);
}
