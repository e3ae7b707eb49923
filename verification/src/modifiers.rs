//! Modifiers: one-input, one-output effects.

pub mod delay;
pub mod gain;

use crate::frame::StereoData;
use vstd::prelude::*;

verus! {

/// An effect that turns one dry frame into one wet frame per call and
/// may keep state between calls. Its behaviour is a function of its
/// state and the dry frame.
pub trait Modifier: Sized {
    /// The wet frame that `process` returns for the dry frame `x`.
    spec fn filtered(self, x: StereoData) -> StereoData;

    /// The modifier after it has processed the dry frame `x`.
    spec fn stepped(self, x: StereoData) -> Self;

    /// Filters one frame and advances the state by one sample.
    fn process(&mut self, x: StereoData) -> (y: StereoData)
        ensures
            y == old(self).filtered(x),
            *final(self) == old(self).stepped(x),
    ;

    /// Returns an independent copy in the same state.
    fn duplicate(&self) -> (copy: Self)
        ensures
            copy == *self,
    ;
}

} // verus!
