use stepper_driver::motor::{PinCommand, StepperMotor};
use stepper_driver::phase::phase_row;

/// The eight rows of the half-step excitation table, in phase order.
fn table() -> Vec<(bool, bool, bool, bool)> {
    vec![
        (true, false, false, false),
        (true, true, false, false),
        (false, true, false, false),
        (false, true, true, false),
        (false, false, true, false),
        (false, false, true, true),
        (false, false, false, true),
        (true, false, false, true),
    ]
}

/// The five commands one step emits after landing on the phase with row
/// `row`: the four coil writes in coil order, then the wait.
fn step_block(row: (bool, bool, bool, bool), delay: u16) -> Vec<PinCommand> {
    vec![
        PinCommand::SetCoil { coil: 0, high: row.0 },
        PinCommand::SetCoil { coil: 1, high: row.1 },
        PinCommand::SetCoil { coil: 2, high: row.2 },
        PinCommand::SetCoil { coil: 3, high: row.3 },
        PinCommand::WaitMicros { micros: delay },
    ]
}

#[test]
fn phase_table_rows() {
    let rows = table();
    for p in 0..8u8 {
        assert_eq!(phase_row(p), rows[p as usize]);
    }
}

#[test]
fn new_starts_at_phase_zero() {
    let motor = StepperMotor::new(1000);
    assert_eq!(motor.phase_index(), 0);
    assert_eq!(motor.delay_micros(), 1000);
}

#[test]
fn step_forward_emits_next_pattern() {
    let mut motor = StepperMotor::new(1000);
    let cmds = motor.step_forward();
    assert_eq!(motor.phase_index(), 1);
    assert_eq!(cmds, step_block((true, true, false, false), 1000));
}

#[test]
fn step_backward_wraps_to_seven() {
    let mut motor = StepperMotor::new(1000);
    let cmds = motor.step_backward();
    assert_eq!(motor.phase_index(), 7);
    assert_eq!(cmds, step_block((true, false, false, true), 1000));
}

#[test]
fn eight_forward_steps_return_to_start() {
    let rows = table();
    let mut motor = StepperMotor::new(500);
    let mut applied: Vec<Vec<PinCommand>> = Vec::new();
    for _ in 0..8 {
        applied.push(motor.step_forward());
    }
    assert_eq!(motor.phase_index(), 0);
    // the eight applied patterns walk the whole table once, in cyclic order
    // starting one row past the initial phase
    for (i, block) in applied.iter().enumerate() {
        let expected_phase = (i + 1) % 8;
        assert_eq!(*block, step_block(rows[expected_phase], 500));
    }
}

#[test]
fn eight_backward_steps_return_to_start() {
    let mut motor = StepperMotor::new(500);
    for _ in 0..8 {
        motor.step_backward();
    }
    assert_eq!(motor.phase_index(), 0);
}

#[test]
fn rotate_zero_is_a_no_op() {
    let mut motor = StepperMotor::new(1000);
    motor.step_forward();
    let cmds = motor.rotate_steps(0);
    assert!(cmds.is_empty());
    assert_eq!(motor.phase_index(), 1);
    assert_eq!(motor.delay_micros(), 1000);
}

#[test]
fn rotate_forward_matches_single_steps() {
    let mut rotated = StepperMotor::new(800);
    let mut stepped = StepperMotor::new(800);
    let cmds = rotated.rotate_steps(5);
    let mut expected: Vec<PinCommand> = Vec::new();
    for _ in 0..5 {
        expected.extend(stepped.step_forward());
    }
    assert_eq!(cmds, expected);
    assert_eq!(rotated.phase_index(), stepped.phase_index());
    assert_eq!(rotated.phase_index(), 5);
}

#[test]
fn rotate_backward_matches_single_steps() {
    let mut rotated = StepperMotor::new(800);
    let mut stepped = StepperMotor::new(800);
    let cmds = rotated.rotate_steps(-4);
    let mut expected: Vec<PinCommand> = Vec::new();
    for _ in 0..4 {
        expected.extend(stepped.step_backward());
    }
    assert_eq!(cmds, expected);
    assert_eq!(rotated.phase_index(), stepped.phase_index());
    assert_eq!(rotated.phase_index(), 4);
}

#[test]
fn rotate_wraps_past_the_cycle() {
    let mut motor = StepperMotor::new(100);
    let cmds = motor.rotate_steps(11);
    assert_eq!(motor.phase_index(), 3);
    assert_eq!(cmds.len(), 11 * 5);
}

#[test]
fn rotate_wraps_backward_past_the_cycle() {
    let mut motor = StepperMotor::new(100);
    let cmds = motor.rotate_steps(-11);
    assert_eq!(motor.phase_index(), 5);
    assert_eq!(cmds.len(), 11 * 5);
}

#[test]
fn rotate_round_trip_restores_phase_and_pattern() {
    let mut motor = StepperMotor::new(100);
    motor.rotate_steps(3);
    let phase_before = motor.phase_index();
    let pattern_before = phase_row(phase_before);
    motor.rotate_steps(5);
    motor.rotate_steps(-5);
    assert_eq!(motor.phase_index(), phase_before);
    assert_eq!(phase_row(motor.phase_index()), pattern_before);
}

#[test]
fn rotate_negative_three_from_phase_one() {
    let rows = table();
    let mut motor = StepperMotor::new(1000);
    motor.step_forward();
    assert_eq!(motor.phase_index(), 1);
    let cmds = motor.rotate_steps(-3);
    assert_eq!(motor.phase_index(), 6);
    let mut expected: Vec<PinCommand> = Vec::new();
    expected.extend(step_block(rows[0], 1000));
    expected.extend(step_block(rows[7], 1000));
    expected.extend(step_block(rows[6], 1000));
    assert_eq!(cmds, expected);
}

#[test]
fn set_speed_applies_from_the_next_step() {
    let mut motor = StepperMotor::new(1000);
    let first = motor.step_forward();
    motor.set_speed(250);
    assert_eq!(motor.delay_micros(), 250);
    let second = motor.step_forward();
    // the step taken before the change keeps its wait; the next one uses the
    // new delay
    assert_eq!(first[4], PinCommand::WaitMicros { micros: 1000 });
    assert_eq!(second[4], PinCommand::WaitMicros { micros: 250 });
}

#[test]
fn set_speed_keeps_the_phase() {
    let mut motor = StepperMotor::new(1000);
    motor.rotate_steps(2);
    motor.set_speed(10);
    assert_eq!(motor.phase_index(), 2);
}

#[test]
fn zero_delay_is_passed_through() {
    let mut motor = StepperMotor::new(0);
    let cmds = motor.step_forward();
    assert_eq!(cmds[4], PinCommand::WaitMicros { micros: 0 });
}
