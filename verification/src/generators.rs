//! Generators: the blocks at the head of a sound's chain.

use crate::frame::StereoData;
use crate::sounds::basic_block::Block;
use vstd::prelude::*;

verus! {

/// The identity generator: its output is its latched input.
#[derive(Clone, Copy, Debug, PartialEq, Eq, Structural)]
pub struct Passthrough {
    pub input: StereoData,
}

impl Passthrough {
    /// A pass-through whose latch is silent.
    pub fn new() -> (g: Self)
        ensures
            g.input == StereoData::silent(),
    {
        Passthrough { input: StereoData::silence() }
    }
}

impl Block for Passthrough {
    open spec fn latched(self) -> StereoData {
        self.input
    }

    open spec fn primed(self, input: StereoData) -> Self {
        Passthrough { input }
    }

    open spec fn output(self) -> StereoData {
        self.input
    }

    open spec fn advanced(self) -> Self {
        self
    }

    proof fn lemma_prime_latches(self, input: StereoData) {
    }

    proof fn lemma_prime_overwrites(self, first: StereoData, second: StereoData) {
    }

    proof fn lemma_process_keeps_input(self) {
    }

    fn prime_input(&mut self, input: StereoData) {
        self.input = input;
    }

    fn process(&mut self) -> (out: StereoData) {
        self.input
    }

    fn duplicate(&self) -> (copy: Self) {
        Passthrough { input: self.input }
    }
}

} // verus!
