//! Trap handling helpers.

use vstd::prelude::*;

verus! {

/// Handles a breakpoint exception at `sepc`, the address of the `ebreak`
/// that raised it: returning from the trap resumes at the next instruction,
/// two bytes further, so that the breakpoint is not hit again at once.
pub fn breakpoint(sepc: &mut usize)
    requires
        *old(sepc) + 2 <= usize::MAX,
    ensures
        *final(sepc) == *old(sepc) + 2,
{
    *sepc += 2;
}

} // verus!
