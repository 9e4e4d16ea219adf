//! The scalar cell type shared by both machines.
//!
//! A storage cell holds a 64-bit signed integer; the arithmetic
//! instructions combine cells with wrapping (two's-complement) semantics,
//! so every operation is total.

use vstd::prelude::*;
use vstd::wrapping::i64_specs;

verus! {

/// Wrapping addition of two cells.
pub open spec fn wadd(a: i64, b: i64) -> i64 {
    i64_specs::wrapping_add(a, b)
}

/// Wrapping subtraction of two cells.
pub open spec fn wsub(a: i64, b: i64) -> i64 {
    i64_specs::wrapping_sub(a, b)
}

/// Wrapping multiplication of two cells.
pub open spec fn wmul(a: i64, b: i64) -> i64 {
    i64_specs::wrapping_mul(a, b)
}

/// The low 32 bits of a cell, as an unsigned counter value.
/// This is how `SetCounter` narrows a cell to the loop counter.
pub open spec fn low32(x: i64) -> u32 {
    (x & 0xffff_ffffi64) as u32
}

/// The masked value used by `low32` is always a valid `u32`.
pub proof fn lemma_low32_fits(x: i64)
    ensures
        0 <= (x & 0xffff_ffffi64) < 0x1_0000_0000i64,
{
    assert(0 <= (x & 0xffff_ffffi64) < 0x1_0000_0000i64) by (bit_vector);
}

/// A cell that already holds a valid counter value keeps it under `low32`.
pub proof fn lemma_low32_small(x: i64)
    requires
        0 <= x < 0x1_0000_0000i64,
    ensures
        low32(x) == x as u32,
{
    assert((x & 0xffff_ffffi64) == x) by (bit_vector)
        requires
            0 <= x < 0x1_0000_0000i64,
    ;
}

/// Reduce an unbounded integer to the cell it denotes, two's complement.
pub open spec fn norm64(x: int) -> i64 {
    let d = 0x1_0000_0000_0000_0000int;
    let r = x % d;
    if r >= 0x8000_0000_0000_0000int {
        (r - d) as i64
    } else {
        r as i64
    }
}

/// A value already in cell range is its own reduction.
pub proof fn lemma_norm64_id(x: int)
    requires
        i64::MIN <= x <= i64::MAX,
    ensures
        norm64(x) == x as i64,
{
    let d = 0x1_0000_0000_0000_0000int;
    if x >= 0 {
        vstd::arithmetic::div_mod::lemma_small_mod(x as nat, d as nat);
    } else {
        vstd::arithmetic::div_mod::lemma_mod_add_multiples_vanish(x, d);
        vstd::arithmetic::div_mod::lemma_small_mod((x + d) as nat, d as nat);
    }
}

/// Wrapping addition agrees with reduction of the exact sum.
pub proof fn lemma_wadd_norm(a: i64, b: i64)
    ensures
        wadd(a, b) == norm64(a + b),
{
    let d = 0x1_0000_0000_0000_0000int;
    let s = a + b;
    if s > i64::MAX {
        vstd::arithmetic::div_mod::lemma_small_mod(s as nat, d as nat);
    } else if s < i64::MIN {
        vstd::arithmetic::div_mod::lemma_mod_add_multiples_vanish(s, d);
        vstd::arithmetic::div_mod::lemma_small_mod((s + d) as nat, d as nat);
    } else {
        lemma_norm64_id(s);
    }
}

/// The reduction of an integer depends only on its residue, so a reduced
/// argument can be replaced by the exact value it came from.
pub proof fn lemma_norm64_absorb(x: int, y: int)
    ensures
        norm64(norm64(x) + y) == norm64(x + y),
{
    let d = 0x1_0000_0000_0000_0000int;
    vstd::arithmetic::div_mod::lemma_fundamental_div_mod(x, d);
    let q = x / d;
    if norm64(x) == x % d {
        assert(norm64(x) + y == d * (-q) + (x + y)) by (nonlinear_arith)
            requires
                x == d * q + x % d,
                norm64(x) == x % d,
        ;
        vstd::arithmetic::div_mod::lemma_mod_multiples_vanish(-q, x + y, d);
        assert((d * (-q) + (x + y)) % d == (x + y) % d);
    } else {
        assert(norm64(x) + y == d * (-q - 1) + (x + y)) by (nonlinear_arith)
            requires
                x == d * q + x % d,
                norm64(x) == x % d - d,
        ;
        vstd::arithmetic::div_mod::lemma_mod_multiples_vanish(-q - 1, x + y, d);
        assert((d * (-q - 1) + (x + y)) % d == (x + y) % d);
    }
}

/// Reduction of a sum absorbs reduction of both arguments.
pub proof fn lemma_norm64_absorb_both(x: int, y: int)
    ensures
        norm64(norm64(x) + norm64(y)) == norm64(x + y),
{
    lemma_norm64_absorb(x, norm64(y) as int);
    lemma_norm64_absorb(y, x);
}

} // verus!
