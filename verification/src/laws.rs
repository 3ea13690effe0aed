//! Laws of the driver: closed forms for repeated stepping, the round trip,
//! and the exact shape of what one step emits.

use vstd::prelude::*;

use vstd::arithmetic::div_mod::{
    lemma_add_mod_noop_right, lemma_mod_add_multiples_vanish, lemma_mod_bound, lemma_mod_twice,
    lemma_small_mod, lemma_sub_mod_noop,
};

use crate::motor::{
    backward_phase, backward_phase_n, forward_phase, forward_phase_n, step_commands, PinCommand,
};
use crate::phase::spec_phase_row;

verus! {

/// Any sequence of `n` forward half-steps from phase `p0` lands on
/// `(p0 + n) mod 8`.
pub proof fn lemma_forward_phase_n_closed(p0: int, n: nat)
    requires
        0 <= p0 < 8,
    ensures
        forward_phase_n(p0, n) == (p0 + n) % 8,
    decreases n,
{
    if n == 0 {
        lemma_small_mod(p0 as nat, 8);
    } else {
        lemma_mod_bound(p0 + 1, 8);
        lemma_forward_phase_n_closed(forward_phase(p0), (n - 1) as nat);
        assert(forward_phase_n(p0, n) == forward_phase_n(forward_phase(p0), (n - 1) as nat));
        lemma_add_mod_noop_right(n - 1, p0 + 1, 8);
    }
}

/// Any sequence of `n` backward half-steps from phase `p0` lands on
/// `(p0 - n) mod 8`, the non-negative representative.
pub proof fn lemma_backward_phase_n_closed(p0: int, n: nat)
    requires
        0 <= p0 < 8,
    ensures
        backward_phase_n(p0, n) == (p0 - n) % 8,
    decreases n,
{
    if n == 0 {
        lemma_small_mod(p0 as nat, 8);
    } else {
        lemma_mod_bound(p0 + 7, 8);
        lemma_backward_phase_n_closed(backward_phase(p0), (n - 1) as nat);
        assert(backward_phase_n(p0, n) == backward_phase_n(backward_phase(p0), (n - 1) as nat));
        // ((p0 + 7) % 8 - (n - 1)) % 8 == (p0 + 7 - (n - 1)) % 8
        lemma_sub_mod_noop(p0 + 7, n - 1, 8);
        lemma_sub_mod_noop((p0 + 7) % 8, n - 1, 8);
        lemma_mod_twice(p0 + 7, 8);
        // (p0 - n + 8) % 8 == (p0 - n) % 8
        lemma_mod_add_multiples_vanish(p0 - n, 8);
    }
}

/// Round trip: `n` half-steps forward and then `n` half-steps backward
/// restore the phase index, and with it the coil pattern.
pub proof fn lemma_round_trip(p0: int, n: nat)
    requires
        0 <= p0 < 8,
    ensures
        backward_phase_n(forward_phase_n(p0, n), n) == p0,
        spec_phase_row(backward_phase_n(forward_phase_n(p0, n), n)) == spec_phase_row(p0),
{
    lemma_forward_phase_n_closed(p0, n);
    lemma_mod_bound(p0 + n, 8);
    lemma_backward_phase_n_closed((p0 + n) % 8, n);
    lemma_sub_mod_noop(p0 + n, n as int, 8);
    lemma_sub_mod_noop((p0 + n) % 8, n as int, 8);
    lemma_mod_twice(p0 + n, 8);
    lemma_small_mod(p0 as nat, 8);
}

/// One step emits exactly five commands: the four booleans of the
/// excitation-table row of the phase it lands on, written to coils 0 to 3 in
/// that order, and then a single wait of the configured delay. No other
/// command — in particular no partial pattern — is ever emitted.
pub proof fn lemma_step_commands_shape(p: int, delay: u16)
    ensures
        step_commands(p, delay).len() == 5,
        step_commands(p, delay)[0] == (PinCommand::SetCoil { coil: 0, high: spec_phase_row(p).0 }),
        step_commands(p, delay)[1] == (PinCommand::SetCoil { coil: 1, high: spec_phase_row(p).1 }),
        step_commands(p, delay)[2] == (PinCommand::SetCoil { coil: 2, high: spec_phase_row(p).2 }),
        step_commands(p, delay)[3] == (PinCommand::SetCoil { coil: 3, high: spec_phase_row(p).3 }),
        step_commands(p, delay)[4] == (PinCommand::WaitMicros { micros: delay }),
{
}

} // verus!
