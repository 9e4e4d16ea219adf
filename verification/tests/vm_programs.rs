//! The program corpus against the scalar reference oracle.

use stack_vs_reg::oracle;
use stack_vs_reg::reg;
use stack_vs_reg::stack;

fn test_fib<F: FnMut(i64) -> i64>(mut f: F) {
    for i in 0..1000 {
        assert_eq!(oracle::fib(i as u32), f(i));
    }
}

/// Integer coordinate pairs for the Mandelbrot programs: the origin
/// and its neighbourhood never escape, the rest escape quickly.
const MANDEL_CORPUS: [(i64, i64); 10] = [
    (0, 0),
    (-1, 0),
    (-2, 0),
    (1, 1),
    (0, 1),
    (0, -1),
    (2, 3),
    (-2, -2),
    (3, 0),
    (17, -29),
];

fn test_mandel<F: FnMut(i64, i64, i64) -> i64>(mut f: F) {
    let limit = 10000;
    for (x, y) in MANDEL_CORPUS {
        assert_eq!(oracle::mandel(x, y, limit) as i64, f(x, y, limit as i64));
    }
}

#[test]
fn reg_fib() {
    let mut vm = reg::Vm::new();
    let code = reg::fib_program();
    test_fib(|n| vm.run(&code, &vec![n]));
}

#[test]
fn stack_fib_smart() {
    let mut vm = stack::Vm::new();
    let code = stack::fib_smart_program();
    test_fib(|n| vm.run(&code, &vec![n]));
}

#[test]
fn stack_fib_naive() {
    let mut vm = stack::Vm::new();
    let code = stack::fib_naive_program();
    test_fib(|n| vm.run(&code, &vec![n]));
}

#[test]
fn reg_mandel_integer_corpus() {
    let mut vm = reg::Vm::new();
    let code = reg::mandel_program();
    test_mandel(|x, y, n| vm.run(&code, &vec![x, y, n]));
}

#[test]
fn stack_mandel_smart_integer_corpus() {
    let mut vm = stack::Vm::new();
    let code = stack::mandel_smart_program();
    test_mandel(|x, y, n| vm.run(&code, &vec![x, y, n]));
}

#[test]
fn stack_mandel_naive_integer_corpus() {
    let mut vm = stack::Vm::new();
    let code = stack::mandel_naive_program();
    test_mandel(|x, y, n| vm.run(&code, &vec![x, y, n]));
}

#[test]
fn stack_mandel_smart_nops_slow_integer_corpus() {
    let mut vm = stack::Vm::new();
    let code = stack::mandel_smart_nops_slow_program();
    test_mandel(|x, y, n| vm.run(&code, &vec![x, y, n]));
}

#[test]
fn stack_mandel_smart_nops_same_integer_corpus() {
    let mut vm = stack::Vm::new();
    let code = stack::mandel_smart_nops_same_program();
    test_mandel(|x, y, n| vm.run(&code, &vec![x, y, n]));
}

#[test]
fn stack_mandel_smart_no_dup_integer_corpus() {
    let mut vm = stack::Vm::new();
    let code = stack::mandel_smart_no_dup_program();
    test_mandel(|x, y, n| vm.run(&code, &vec![x, y, n]));
}

#[test]
fn reg_add_chain() {
    let add_regs: Vec<i64> = (0..16).collect();
    let mut vm = reg::Vm::new();
    assert_eq!(vm.run(&reg::add_chain_program(), &add_regs), 16 * 15 / 2);
}

#[test]
fn reg_add_fast() {
    let add_regs: Vec<i64> = (0..16).collect();
    let mut vm = reg::Vm::new();
    assert_eq!(vm.run(&reg::add_pairs_program(), &add_regs), 16 * 15 / 2);
}

#[test]
fn add_orders_agree_on_other_values() {
    let args: Vec<i64> = vec![
        3,
        -7,
        i64::MAX,
        42,
        i64::MIN,
        5,
        5,
        -1,
        0,
        1_000_000_007,
        -4,
        8,
        i64::MAX - 1,
        2,
        9,
        -100,
    ];
    let mut vm = reg::Vm::new();
    let chain = vm.run(&reg::add_chain_program(), &args);
    let pairs = vm.run(&reg::add_pairs_program(), &args);
    assert_eq!(chain, pairs);
    let expected: i64 = args.iter().fold(0i64, |a, b| a.wrapping_add(*b));
    assert_eq!(chain, expected);
}

#[test]
fn fib_exact_values() {
    assert_eq!(oracle::fib(0), 0);
    assert_eq!(oracle::fib(1), 1);
    assert_eq!(oracle::fib(10), 55);
    assert_eq!(oracle::fib(50), 12586269025);
}

#[test]
fn mandel_exact_values() {
    // The origin never escapes: the cap is exhausted.
    assert_eq!(oracle::mandel(0, 0, 10000), 10000);
    // (-1, 0) cycles with period two and never escapes.
    assert_eq!(oracle::mandel(-1, 0, 10000), 10000);
    // (1, 1) escapes after two iterations.
    assert_eq!(oracle::mandel(1, 1, 10000), 2);
    // Far points escape after the single iteration that moves the
    // orbit off the origin.
    assert_eq!(oracle::mandel(3, 0, 10000), 1);
    // A cap of zero means no iterations at all.
    assert_eq!(oracle::mandel(0, 0, 0), 0);
}
