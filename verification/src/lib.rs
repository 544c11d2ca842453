//! Verified core of a dual-fan laptop cooling controller: the register
//! command protocol, the fan-curve interpolator, the per-tick control
//! decisions, and the start/stop state machine.

pub mod control;
pub mod curve;
pub mod readback;
pub mod register;
pub mod tdp;
pub mod text;
pub mod tick;
