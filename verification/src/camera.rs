//! Camera mode selection.
//!
//! The viewer offers two camera rigs — a free-flying camera and an orbiting
//! one — and a key that switches between them.  The numeric camera driving
//! lives in the application; the mode and the switching decision are here.

use vstd::prelude::*;

verus! {

/// Which camera rig is driving the view.
#[derive(Clone, Copy, PartialEq, Eq, Structural, Debug)]
pub enum Mode {
    Fly,
    Orbit,
}

impl Default for Mode {
    /// The viewer starts in orbit mode.
    fn default() -> (m: Mode)
        ensures
            m == Mode::Orbit,
    {
        Mode::Orbit
    }
}

impl Mode {
    /// The other mode: the camera-switch key flips between the two rigs.
    pub fn toggled(self) -> (m: Mode)
        ensures
            m == (match self {
                Mode::Fly => Mode::Orbit,
                Mode::Orbit => Mode::Fly,
            }),
            m != self,
    {
        match self {
            Mode::Fly => Mode::Orbit,
            Mode::Orbit => Mode::Fly,
        }
    }
}

} // verus!
