//! Two small bytecode virtual machines — one register-based, one
//! stack-based — together with the hand-compiled programs they run,
//! scalar reference implementations used as an equivalence oracle,
//! and a family of blueprint-search solvers.

pub mod baseline;
pub mod cell;
pub mod fib_equiv;
pub mod laws;
pub mod longest;
pub mod mandel_equiv;
pub mod memo;
pub mod oracle;
pub mod pack;
pub mod pack_u8;
pub mod reg;
pub mod scan;
pub mod search;
pub mod stack;
pub mod thonk;

use vstd::prelude::*;

verus! {

/// How a machine locates instructions and storage cells while running:
/// either every access is tested at run time, or the access is performed
/// directly, justified only by the caller's well-formedness obligation.
#[derive(Clone, Copy, Debug, PartialEq, Eq, Structural)]
pub enum DispatchMode {
    Checked,
    Direct,
}

} // verus!
