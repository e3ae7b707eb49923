//! Blocks: the capability shared by generators and modifiers.

use crate::frame::StereoData;
use crate::modifiers::Modifier;
use vstd::prelude::*;

verus! {

/// A unit of a signal chain. It latches one input frame at a time and
/// computes one output frame per `process` call from its state and the
/// latched input. A block that was never primed holds silence.
pub trait Block: Sized {
    /// The input that the next `process` call consumes.
    spec fn latched(self) -> StereoData;

    /// The block after `input` has been latched.
    spec fn primed(self, input: StereoData) -> Self;

    /// The frame that the next `process` call returns.
    spec fn output(self) -> StereoData;

    /// The block after one `process` call.
    spec fn advanced(self) -> Self;

    /// Priming stores the frame as the latched input.
    proof fn lemma_prime_latches(self, input: StereoData)
        ensures
            self.primed(input).latched() == input,
    ;

    /// Priming twice leaves the block as priming with the later frame alone.
    proof fn lemma_prime_overwrites(self, first: StereoData, second: StereoData)
        ensures
            self.primed(first).primed(second) == self.primed(second),
    ;

    /// Processing does not consume the latched input.
    proof fn lemma_process_keeps_input(self)
        ensures
            self.advanced().latched() == self.latched(),
    ;

    /// Records the next input frame.
    fn prime_input(&mut self, input: StereoData)
        ensures
            *final(self) == old(self).primed(input),
    ;

    /// Computes one output frame and advances the state by one sample.
    fn process(&mut self) -> (out: StereoData)
        ensures
            out == old(self).output(),
            *final(self) == old(self).advanced(),
    ;

    /// Returns an independent copy in the same state.
    fn duplicate(&self) -> (copy: Self)
        ensures
            copy == *self,
    ;
}

/// A modifier with a latch in front of it, which makes it a block.
pub struct ModifierBlock<M: Modifier> {
    pub modifier: M,
    pub input: StereoData,
}

impl<M: Modifier> ModifierBlock<M> {
    /// Wraps a modifier; the latch starts out silent.
    pub fn new(modifier: M) -> (b: Self)
        ensures
            b.modifier == modifier,
            b.input == StereoData::silent(),
    {
        ModifierBlock { modifier, input: StereoData::silence() }
    }
}

impl<M: Modifier> Block for ModifierBlock<M> {
    open spec fn latched(self) -> StereoData {
        self.input
    }

    open spec fn primed(self, input: StereoData) -> Self {
        ModifierBlock { modifier: self.modifier, input }
    }

    open spec fn output(self) -> StereoData {
        self.modifier.filtered(self.input)
    }

    open spec fn advanced(self) -> Self {
        ModifierBlock { modifier: self.modifier.stepped(self.input), input: self.input }
    }

    proof fn lemma_prime_latches(self, input: StereoData) {
    }

    proof fn lemma_prime_overwrites(self, first: StereoData, second: StereoData) {
    }

    proof fn lemma_process_keeps_input(self) {
    }

    fn prime_input(&mut self, input: StereoData) {
        self.input = input;
    }

    fn process(&mut self) -> (out: StereoData) {
        self.modifier.process(self.input)
    }

    fn duplicate(&self) -> (copy: Self) {
        ModifierBlock { modifier: self.modifier.duplicate(), input: self.input }
    }
}

/// The running value after `x` went through the first `n` blocks.
pub open spec fn chain_running<M: Block>(blocks: Seq<M>, x: StereoData, n: int) -> StereoData
    decreases n,
{
    if n <= 0 {
        x
    } else {
        blocks[n - 1].primed(chain_running(blocks, x, n - 1)).output()
    }
}

/// What a chain makes of `x`: each block in order is primed with the
/// running value and its output becomes the new running value.
pub open spec fn chain_output<M: Block>(blocks: Seq<M>, x: StereoData) -> StereoData {
    chain_running(blocks, x, blocks.len() as int)
}

/// The blocks of a chain after `x` went through it.
pub open spec fn chain_advanced<M: Block>(blocks: Seq<M>, x: StereoData) -> Seq<M> {
    Seq::new(blocks.len(), |i: int| blocks[i].primed(chain_running(blocks, x, i)).advanced())
}

/// Feeds one frame through every block of a chain, first to last.
pub fn run_chain<M: Block>(blocks: &mut Vec<M>, x: StereoData) -> (out: StereoData)
    ensures
        out == chain_output(old(blocks)@, x),
        final(blocks)@ == chain_advanced(old(blocks)@, x),
{
    let mut out = x;
    let mut i: usize = 0;
    while i < blocks.len()
        invariant
            i <= blocks.len(),
            blocks.len() == old(blocks).len(),
            out == chain_running(old(blocks)@, x, i as int),
            forall|j: int| 0 <= j < i ==> blocks[j] == chain_advanced(old(blocks)@, x)[j],
            forall|j: int| i <= j < blocks.len() ==> blocks[j] == old(blocks)[j],
        decreases blocks.len() - i,
    {
        blocks[i].prime_input(out);
        out = blocks[i].process();
        i += 1;
    }
    assert(blocks@ =~= chain_advanced(old(blocks)@, x));
    out
}

/// Running a chain leaves in every block's latch the running value
/// that the block was fed.
pub proof fn lemma_chain_latches<M: Block>(blocks: Seq<M>, x: StereoData, i: int)
    requires
        0 <= i < blocks.len(),
    ensures
        chain_advanced(blocks, x)[i].latched() == chain_running(blocks, x, i),
{
    let fed = chain_running(blocks, x, i);
    blocks[i].lemma_prime_latches(fed);
    blocks[i].primed(fed).lemma_process_keeps_input();
}

} // verus!
