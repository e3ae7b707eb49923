//! A delay of one sample.

use crate::frame::StereoData;
use crate::modifiers::Modifier;
use vstd::prelude::*;

verus! {

/// Delays its input by one frame: each call returns the frame of the
/// call before it, and the first call returns silence.
#[derive(Clone, Copy, Debug, PartialEq, Eq, Structural)]
pub struct UnitDelay {
    pub held: StereoData,
}

impl UnitDelay {
    /// A delay that holds silence.
    pub fn new() -> (m: Self)
        ensures
            m.held == StereoData::silent(),
    {
        UnitDelay { held: StereoData::silence() }
    }
}

impl Modifier for UnitDelay {
    open spec fn filtered(self, x: StereoData) -> StereoData {
        self.held
    }

    open spec fn stepped(self, x: StereoData) -> Self {
        UnitDelay { held: x }
    }

    fn process(&mut self, x: StereoData) -> (y: StereoData) {
        let y = self.held;
        self.held = x;
        y
    }

    fn duplicate(&self) -> (copy: Self) {
        UnitDelay { held: self.held }
    }
}

} // verus!
