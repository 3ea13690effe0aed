//! The stepper driver: a phase index, a step delay, and the commands each
//! operation emits for the hardware.

use vstd::prelude::*;

use crate::phase::{phase_row, spec_phase_row};

verus! {

/// One command for the hardware layer: drive a coil terminal to a level, or
/// hold still for a number of microseconds. The driver emits commands; the
/// surrounding program performs them on the real pins.
#[derive(Clone, Copy, Debug, PartialEq, Eq, Structural)]
pub enum PinCommand {
    SetCoil { coil: u8, high: bool },
    WaitMicros { micros: u16 },
}

/// The four coil writes that assert exactly the excitation-table row for
/// phase `p`, on coils 0 to 3 in that order.
pub open spec fn coil_commands(p: int) -> Seq<PinCommand> {
    let row = spec_phase_row(p);
    seq![
        PinCommand::SetCoil { coil: 0, high: row.0 },
        PinCommand::SetCoil { coil: 1, high: row.1 },
        PinCommand::SetCoil { coil: 2, high: row.2 },
        PinCommand::SetCoil { coil: 3, high: row.3 },
    ]
}

/// Everything one step emits once the phase index has moved to `p`: the full
/// coil pattern for `p`, then the inter-step wait.
pub open spec fn step_commands(p: int, delay: u16) -> Seq<PinCommand> {
    coil_commands(p).push(PinCommand::WaitMicros { micros: delay })
}

/// The phase index after one forward half-step from `p`.
pub open spec fn forward_phase(p: int) -> int {
    (p + 1) % 8
}

/// The phase index after one backward half-step from `p`.
pub open spec fn backward_phase(p: int) -> int {
    (p + 7) % 8
}

/// The phase index after `n` forward half-steps from `p`: the n-fold
/// composition of `forward_phase`.
pub open spec fn forward_phase_n(p: int, n: nat) -> int
    decreases n,
{
    if n == 0 {
        p
    } else {
        forward_phase_n(forward_phase(p), (n - 1) as nat)
    }
}

/// The phase index after `n` backward half-steps from `p`.
pub open spec fn backward_phase_n(p: int, n: nat) -> int
    decreases n,
{
    if n == 0 {
        p
    } else {
        backward_phase_n(backward_phase(p), (n - 1) as nat)
    }
}

/// The commands emitted by `n` consecutive forward steps starting at phase
/// `p` with delay `delay`: the first step's commands, then those of the
/// remaining `n - 1` steps from the advanced phase.
pub open spec fn forward_commands(p: int, delay: u16, n: nat) -> Seq<PinCommand>
    decreases n,
{
    if n == 0 {
        Seq::empty()
    } else {
        step_commands(forward_phase(p), delay) + forward_commands(
            forward_phase(p),
            delay,
            (n - 1) as nat,
        )
    }
}

/// The commands emitted by `n` consecutive backward steps starting at phase
/// `p` with delay `delay`.
pub open spec fn backward_commands(p: int, delay: u16, n: nat) -> Seq<PinCommand>
    decreases n,
{
    if n == 0 {
        Seq::empty()
    } else {
        step_commands(backward_phase(p), delay) + backward_commands(
            backward_phase(p),
            delay,
            (n - 1) as nat,
        )
    }
}

/// Peeling the last of `n + 1` forward steps: the phase after `n + 1` steps
/// is one forward step past the phase after `n`, and the commands of `n + 1`
/// steps are those of the first `n` followed by the last step's block.
pub proof fn lemma_forward_unfold_last(p: int, delay: u16, n: nat)
    ensures
        forward_phase_n(p, n + 1) == forward_phase(forward_phase_n(p, n)),
        forward_commands(p, delay, n + 1) == forward_commands(p, delay, n) + step_commands(
            forward_phase_n(p, n + 1),
            delay,
        ),
    decreases n,
{
    if n == 0 {
        assert(forward_phase_n(p, 1) == forward_phase_n(forward_phase(p), 0));
        assert(forward_phase_n(forward_phase(p), 0) == forward_phase(p));
        assert(forward_commands(p, delay, 1) == step_commands(forward_phase(p), delay)
            + forward_commands(forward_phase(p), delay, 0));
        assert(forward_commands(p, delay, 1) =~= forward_commands(p, delay, 0) + step_commands(
            forward_phase_n(p, 1),
            delay,
        ));
    } else {
        lemma_forward_unfold_last(forward_phase(p), delay, (n - 1) as nat);
        assert(forward_phase_n(p, n + 1) == forward_phase_n(forward_phase(p), n));
        assert(forward_phase_n(p, n) == forward_phase_n(forward_phase(p), (n - 1) as nat));
        assert(forward_commands(p, delay, n + 1) == step_commands(forward_phase(p), delay)
            + forward_commands(forward_phase(p), delay, n));
        assert(forward_commands(p, delay, n) == step_commands(forward_phase(p), delay)
            + forward_commands(forward_phase(p), delay, (n - 1) as nat));
        assert(forward_commands(p, delay, n + 1) =~= forward_commands(p, delay, n)
            + step_commands(forward_phase_n(p, n + 1), delay));
    }
}

/// Peeling the last of `n + 1` backward steps.
pub proof fn lemma_backward_unfold_last(p: int, delay: u16, n: nat)
    ensures
        backward_phase_n(p, n + 1) == backward_phase(backward_phase_n(p, n)),
        backward_commands(p, delay, n + 1) == backward_commands(p, delay, n) + step_commands(
            backward_phase_n(p, n + 1),
            delay,
        ),
    decreases n,
{
    if n == 0 {
        assert(backward_phase_n(p, 1) == backward_phase_n(backward_phase(p), 0));
        assert(backward_phase_n(backward_phase(p), 0) == backward_phase(p));
        assert(backward_commands(p, delay, 1) == step_commands(backward_phase(p), delay)
            + backward_commands(backward_phase(p), delay, 0));
        assert(backward_commands(p, delay, 1) =~= backward_commands(p, delay, 0) + step_commands(
            backward_phase_n(p, 1),
            delay,
        ));
    } else {
        lemma_backward_unfold_last(backward_phase(p), delay, (n - 1) as nat);
        assert(backward_phase_n(p, n + 1) == backward_phase_n(backward_phase(p), n));
        assert(backward_phase_n(p, n) == backward_phase_n(backward_phase(p), (n - 1) as nat));
        assert(backward_commands(p, delay, n + 1) == step_commands(backward_phase(p), delay)
            + backward_commands(backward_phase(p), delay, n));
        assert(backward_commands(p, delay, n) == step_commands(backward_phase(p), delay)
            + backward_commands(backward_phase(p), delay, (n - 1) as nat));
        assert(backward_commands(p, delay, n + 1) =~= backward_commands(p, delay, n)
            + step_commands(backward_phase_n(p, n + 1), delay));
    }
}

/// A half-step stepper driver: the current position in the eight-phase
/// excitation cycle and the microsecond delay held between consecutive
/// half-steps.
pub struct StepperMotor {
    phase_index: u8,
    delay_micros: u16,
}

impl StepperMotor {
    /// The current phase index, as a mathematical integer.
    pub closed spec fn phase(self) -> int {
        self.phase_index as int
    }

    /// The delay, in microseconds, held after each half-step.
    pub closed spec fn delay(self) -> u16 {
        self.delay_micros
    }

    /// The phase index stays inside the eight-phase cycle.
    pub open spec fn wf(self) -> bool {
        0 <= self.phase() < 8
    }

    /// A driver at phase 0 with the given inter-step delay. The four coil
    /// pins themselves stay with the caller: the driver only tells it what
    /// to write on them.
    pub fn new(step_delay_micros: u16) -> (motor: StepperMotor)
        ensures
            motor.wf(),
            motor.phase() == 0,
            motor.delay() == step_delay_micros,
    {
        StepperMotor { phase_index: 0, delay_micros: step_delay_micros }
    }

    /// The current phase index.
    pub fn phase_index(&self) -> (p: u8)
        ensures
            p as int == self.phase(),
    {
        self.phase_index
    }

    /// The current inter-step delay in microseconds.
    pub fn delay_micros(&self) -> (d: u16)
        ensures
            d == self.delay(),
    {
        self.delay_micros
    }

    /// The four coil writes for the current phase, in coil order.
    fn apply_step(&self) -> (cmds: Vec<PinCommand>)
        requires
            self.wf(),
        ensures
            cmds@ == coil_commands(self.phase()),
    {
        let row = phase_row(self.phase_index);
        let mut cmds: Vec<PinCommand> = Vec::new();
        cmds.push(PinCommand::SetCoil { coil: 0, high: row.0 });
        cmds.push(PinCommand::SetCoil { coil: 1, high: row.1 });
        cmds.push(PinCommand::SetCoil { coil: 2, high: row.2 });
        cmds.push(PinCommand::SetCoil { coil: 3, high: row.3 });
        proof {
            assert(cmds@ =~= coil_commands(self.phase()));
        }
        cmds
    }

    /// Advance one half-step forward, then emit the new phase's coil pattern
    /// followed by the inter-step wait.
    pub fn step_forward(&mut self) -> (cmds: Vec<PinCommand>)
        requires
            old(self).wf(),
        ensures
            final(self).wf(),
            final(self).phase() == forward_phase(old(self).phase()),
            final(self).delay() == old(self).delay(),
            cmds@ == step_commands(final(self).phase(), old(self).delay()),
    {
        self.phase_index = (self.phase_index + 1) % 8;
        let mut cmds = self.apply_step();
        cmds.push(PinCommand::WaitMicros { micros: self.delay_micros });
        proof {
            assert(cmds@ =~= step_commands(self.phase(), self.delay()));
        }
        cmds
    }

    /// Advance one half-step backward (adding 7 is subtracting 1, modulo 8),
    /// then emit the new phase's coil pattern followed by the wait.
    pub fn step_backward(&mut self) -> (cmds: Vec<PinCommand>)
        requires
            old(self).wf(),
        ensures
            final(self).wf(),
            final(self).phase() == backward_phase(old(self).phase()),
            final(self).delay() == old(self).delay(),
            cmds@ == step_commands(final(self).phase(), old(self).delay()),
    {
        self.phase_index = (self.phase_index + 7) % 8;
        let mut cmds = self.apply_step();
        cmds.push(PinCommand::WaitMicros { micros: self.delay_micros });
        proof {
            assert(cmds@ =~= step_commands(self.phase(), self.delay()));
        }
        cmds
    }

    /// Step forward `steps` times when `steps` is positive, backward
    /// `-steps` times when it is negative, and not at all when it is zero —
    /// in which case nothing is emitted: no coil write, no wait.
    pub fn rotate_steps(&mut self, steps: i32) -> (cmds: Vec<PinCommand>)
        requires
            old(self).wf(),
        ensures
            final(self).wf(),
            final(self).delay() == old(self).delay(),
            steps == 0 ==> cmds@ == Seq::<PinCommand>::empty(),
            steps >= 0 ==> final(self).phase() == forward_phase_n(
                old(self).phase(),
                steps as nat,
            ) && cmds@ == forward_commands(old(self).phase(), old(self).delay(), steps as nat),
            steps < 0 ==> final(self).phase() == backward_phase_n(
                old(self).phase(),
                (0 - steps) as nat,
            ) && cmds@ == backward_commands(
                old(self).phase(),
                old(self).delay(),
                (0 - steps) as nat,
            ),
    {
        let ghost p0 = self.phase();
        let ghost d0 = self.delay();
        let mut cmds: Vec<PinCommand> = Vec::new();
        if steps >= 0 {
            let mut remaining: i32 = steps;
            while remaining > 0
                invariant
                    0 <= remaining <= steps,
                    self.wf(),
                    self.delay() == d0,
                    self.phase() == forward_phase_n(p0, (steps - remaining) as nat),
                    cmds@ == forward_commands(p0, d0, (steps - remaining) as nat),
                decreases remaining,
            {
                proof {
                    lemma_forward_unfold_last(p0, d0, (steps - remaining) as nat);
                }
                let mut step_cmds = self.step_forward();
                cmds.append(&mut step_cmds);
                remaining = remaining - 1;
            }
        } else {
            let mut remaining: i32 = steps;
            while remaining < 0
                invariant
                    steps <= remaining <= 0,
                    self.wf(),
                    self.delay() == d0,
                    self.phase() == backward_phase_n(p0, (remaining - steps) as nat),
                    cmds@ == backward_commands(p0, d0, (remaining - steps) as nat),
                decreases 0 - remaining,
            {
                proof {
                    lemma_backward_unfold_last(p0, d0, (remaining - steps) as nat);
                }
                let mut step_cmds = self.step_backward();
                cmds.append(&mut step_cmds);
                remaining = remaining + 1;
            }
        }
        cmds
    }

    /// Replace the inter-step delay for every step from now on; the phase
    /// index, and so the coil pattern, is untouched.
    pub fn set_speed(&mut self, delay_micros: u16)
        ensures
            final(self).phase() == old(self).phase(),
            final(self).delay() == delay_micros,
    {
        self.delay_micros = delay_micros;
    }
}

} // verus!
