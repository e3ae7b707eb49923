//! A stateless gain stage.

use crate::frame::StereoData;
use crate::modifiers::Modifier;
use vstd::prelude::*;

verus! {

/// Multiplies every frame by a fixed linear gain.
#[derive(Clone, Copy, Debug, PartialEq, Eq, Structural)]
pub struct Gain {
    pub gain: i32,
}

impl Gain {
    /// A gain stage with the given linear gain.
    pub fn new(gain: i32) -> (m: Self)
        ensures
            m.gain == gain,
    {
        Gain { gain }
    }
}

impl Modifier for Gain {
    open spec fn filtered(self, x: StereoData) -> StereoData {
        x.scaled(self.gain)
    }

    open spec fn stepped(self, x: StereoData) -> Self {
        self
    }

    fn process(&mut self, x: StereoData) -> (y: StereoData) {
        x.scale(self.gain)
    }

    fn duplicate(&self) -> (copy: Self) {
        Gain { gain: self.gain }
    }
}

} // verus!
