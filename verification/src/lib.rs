//! Half-step driver for a four-coil stepper motor.
//!
//! The driver keeps a phase index into a fixed eight-row excitation table
//! and, for every step, emits the exact sequence of pin commands that moves
//! the coils to the next phase and holds them there for the configured
//! delay. Performing those commands — driving output pins high or low and
//! busy-waiting — is hardware I/O and is left to the surrounding program.

pub mod laws;
pub mod motor;
pub mod phase;
