//! The half-step excitation table: eight coil patterns, one per phase.

use vstd::prelude::*;

verus! {

/// The half-step excitation sequence. Row `p` gives the levels driven onto
/// the four coil terminals A, A', B, B', in that order. Each row differs
/// from its cyclic neighbour by exactly one coil flip, so stepping through
/// the rows in order produces eight distinct rotor positions per electrical
/// cycle.
pub open spec fn spec_phase_row(p: int) -> (bool, bool, bool, bool) {
    if p == 0 {
        (true, false, false, false)
    } else if p == 1 {
        (true, true, false, false)
    } else if p == 2 {
        (false, true, false, false)
    } else if p == 3 {
        (false, true, true, false)
    } else if p == 4 {
        (false, false, true, false)
    } else if p == 5 {
        (false, false, true, true)
    } else if p == 6 {
        (false, false, false, true)
    } else {
        (true, false, false, true)
    }
}

/// The excitation-table row for phase `p`.
pub fn phase_row(p: u8) -> (row: (bool, bool, bool, bool))
    requires
        p < 8,
    ensures
        row == spec_phase_row(p as int),
{
    if p == 0 {
        (true, false, false, false)
    } else if p == 1 {
        (true, true, false, false)
    } else if p == 2 {
        (false, true, false, false)
    } else if p == 3 {
        (false, true, true, false)
    } else if p == 4 {
        (false, false, true, false)
    } else if p == 5 {
        (false, false, true, true)
    } else if p == 6 {
        (false, false, false, true)
    } else {
        (true, false, false, true)
    }
}

} // verus!
