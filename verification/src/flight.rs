//! Keyboard-style control state for the single-player flight panel. The
//! floating-point airframe these inputs drive lives outside the verified
//! core; only the control state itself is modeled here.

use vstd::prelude::*;

verus! {

/// Pressed-key state sent by the flight panel's client.
#[derive(Clone, Copy, PartialEq, Eq, Structural)]
pub struct FlightSimInput {
    pub pitch_up: bool,
    pub pitch_down: bool,
    pub throttle_up: bool,
    pub throttle_down: bool,
}

impl Default for FlightSimInput {
    /// All controls released.
    fn default() -> (r: Self)
        ensures
            !r.pitch_up,
            !r.pitch_down,
            !r.throttle_up,
            !r.throttle_down,
    {
        FlightSimInput { pitch_up: false, pitch_down: false, throttle_up: false, throttle_down: false }
    }
}

/// Pressed-key state polled by the single-player window loop.
#[derive(Clone, Copy, PartialEq, Eq, Structural)]
pub struct InputState {
    pub pitch_up: bool,
    pub pitch_down: bool,
    pub throttle_up: bool,
    pub throttle_down: bool,
}

impl Default for InputState {
    /// All controls released.
    fn default() -> (r: Self)
        ensures
            !r.pitch_up,
            !r.pitch_down,
            !r.throttle_up,
            !r.throttle_down,
    {
        InputState { pitch_up: false, pitch_down: false, throttle_up: false, throttle_down: false }
    }
}

} // verus!
