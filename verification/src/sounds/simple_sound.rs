//! A sound: one generator and a chain of modifiers run in series, with
//! gain staging, mute and pause.

use crate::channels::simple_channel::SimpleChannel;
use crate::frame::{apply_gain, exact_gain, lemma_exact_gain, lemma_gain_laws, StereoData, UNITY};
use crate::generators::Passthrough;
use crate::sounds::basic_block::{chain_advanced, chain_output, run_chain, Block};
use vstd::prelude::*;

verus! {

/// Where a sound sits: the identity of its channel and its slot there.
#[derive(Clone, Copy, Debug, PartialEq, Eq, Structural)]
pub struct Registration {
    pub channel: usize,
    pub slot: usize,
}

/// A generator of type `G` followed by modifiers of type `M`.
pub struct SimpleSound<G: Block, M: Block> {
    generator: G,
    modifier_list: Vec<M>,
    input_gain: i32,
    output_gain: i32,
    registration: Option<Registration>,
    is_muted: bool,
    is_paused: bool,
}

/// What a sound is, as a value: the model that the contracts speak of.
pub struct SoundState<G, M> {
    pub generator: G,
    pub modifiers: Seq<M>,
    pub input_gain: i32,
    pub output_gain: i32,
    pub registration: Option<Registration>,
    pub muted: bool,
    pub paused: bool,
}

impl<G: Block, M: Block> SoundState<G, M> {
    /// A sound as `SimpleSound::new` makes it.
    pub open spec fn fresh(input_gain: i32, output_gain: i32, generator: G) -> Self {
        SoundState {
            generator,
            modifiers: Seq::empty(),
            input_gain,
            output_gain,
            registration: None,
            muted: false,
            paused: false,
        }
    }

    /// The generator once it has latched `input` under the input gain.
    pub open spec fn primed_generator(self, input: StereoData) -> G {
        self.generator.primed(input.scaled(self.input_gain))
    }

    /// What enters the modifier chain: the generator's output for
    /// `input`, under the output gain.
    pub open spec fn generated(self, input: StereoData) -> StereoData {
        self.primed_generator(input).output().scaled(self.output_gain)
    }

    /// What leaves the modifier chain for `input`.
    pub open spec fn chained(self, input: StereoData) -> StereoData {
        chain_output(self.modifiers, self.generated(input))
    }

    /// The frame that `process` returns for `input`.
    pub open spec fn response(self, input: StereoData) -> StereoData {
        if self.paused || self.muted {
            StereoData::silent()
        } else {
            self.chained(input)
        }
    }

    /// The sound after `process` has run on `input`: untouched while
    /// paused, else with every block advanced by one sample.
    pub open spec fn after(self, input: StereoData) -> Self {
        if self.paused {
            self
        } else {
            SoundState {
                generator: self.primed_generator(input).advanced(),
                modifiers: chain_advanced(self.modifiers, self.generated(input)),
                ..self
            }
        }
    }

    /// This sound with the pause flag flipped.
    pub open spec fn pause_toggled(self) -> Self {
        SoundState { paused: !self.paused, ..self }
    }

    /// This sound with the mute flag flipped.
    pub open spec fn mute_toggled(self) -> Self {
        SoundState { muted: !self.muted, ..self }
    }

    /// This sound with the registration `r`.
    pub open spec fn stamped(self, r: Option<Registration>) -> Self {
        SoundState { registration: r, ..self }
    }
}

impl<G: Block, M: Block> View for SimpleSound<G, M> {
    type V = SoundState<G, M>;

    closed spec fn view(&self) -> SoundState<G, M> {
        SoundState {
            generator: self.generator,
            modifiers: self.modifier_list@,
            input_gain: self.input_gain,
            output_gain: self.output_gain,
            registration: self.registration,
            muted: self.is_muted,
            paused: self.is_paused,
        }
    }
}

impl<G: Block, M: Block> SimpleSound<G, M> {
    /// Makes a sound with an empty modifier chain: detached, unmuted
    /// and unpaused.
    pub fn new(input_gain: i32, output_gain: i32, generator: G) -> (sound: Self)
        ensures
            sound@ == SoundState::<G, M>::fresh(input_gain, output_gain, generator),
    {
        SimpleSound {
            generator,
            modifier_list: Vec::new(),
            input_gain,
            output_gain,
            registration: None,
            is_muted: false,
            is_paused: false,
        }
    }

    /// Appends one modifier to the chain; it is applied after those
    /// already there.
    pub fn add_modifier(&mut self, m: M)
        ensures
            final(self)@ == (SoundState { modifiers: old(self)@.modifiers.push(m), ..old(self)@ }),
    {
        self.modifier_list.push(m);
    }

    /// Appends a list of modifiers to the chain, in their order.
    pub fn extend_modifiers(&mut self, m_list: Vec<M>)
        ensures
            final(self)@ == (SoundState {
                modifiers: old(self)@.modifiers + m_list@,
                ..old(self)@
            }),
    {
        let mut m_list = m_list;
        self.modifier_list.append(&mut m_list);
    }

    /// The linear gain applied to the input before the generator.
    pub fn get_input_gain(&self) -> (g: i32)
        ensures
            g == self@.input_gain,
    {
        self.input_gain
    }

    /// The linear gain applied to the generator's output.
    pub fn get_output_gain(&self) -> (g: i32)
        ensures
            g == self@.output_gain,
    {
        self.output_gain
    }

    /// Sets the linear gain applied to the input before the generator.
    pub fn set_input_gain(&mut self, g: i32)
        ensures
            final(self)@ == (SoundState { input_gain: g, ..old(self)@ }),
    {
        self.input_gain = g;
    }

    /// Sets the linear gain applied to the generator's output.
    pub fn set_output_gain(&mut self, g: i32)
        ensures
            final(self)@ == (SoundState { output_gain: g, ..old(self)@ }),
    {
        self.output_gain = g;
    }

    /// Flips the pause flag.
    pub fn toggle_pause(&mut self)
        ensures
            final(self)@ == old(self)@.pause_toggled(),
    {
        self.is_paused = !self.is_paused;
    }

    /// Whether the sound is paused.
    pub fn is_paused(&self) -> (b: bool)
        ensures
            b == self@.paused,
    {
        self.is_paused
    }

    /// Flips the mute flag.
    pub fn toggle_mute(&mut self)
        ensures
            final(self)@ == old(self)@.mute_toggled(),
    {
        self.is_muted = !self.is_muted;
    }

    /// Whether the sound is muted.
    pub fn is_muted(&self) -> (b: bool)
        ensures
            b == self@.muted,
    {
        self.is_muted
    }

    /// Where the sound is registered, if anywhere.
    pub fn registration(&self) -> (r: Option<Registration>)
        ensures
            r == self@.registration,
    {
        self.registration
    }

    /// Records where the sound sits, or that it sits nowhere.
    pub(crate) fn stamp(&mut self, r: Option<Registration>)
        ensures
            final(self)@ == old(self)@.stamped(r),
    {
        self.registration = r;
    }

    /// Computes one output frame.
    ///
    /// A paused sound returns silence and nothing in it advances. Else
    /// the generator is primed with the input under the input gain, its
    /// output under the output gain runs through the modifiers in chain
    /// order, and every block advances by one sample. A muted sound
    /// does all of that and returns silence.
    pub fn process(&mut self, input: StereoData) -> (out: StereoData)
        ensures
            out == old(self)@.response(input),
            final(self)@ == old(self)@.after(input),
            old(self)@.paused ==> out == StereoData::silent() && final(self)@ == old(self)@,
    {
        if self.is_paused {
            return StereoData::silence();
        }
        self.generator.prime_input(input.scale(self.input_gain));
        let generated = self.generator.process().scale(self.output_gain);
        let out = run_chain(&mut self.modifier_list, generated);
        if self.is_muted {
            StereoData::silence()
        } else {
            out
        }
    }

    /// Returns an independent copy in the same state, registration
    /// included.
    pub(crate) fn duplicate(&self) -> (copy: Self)
        ensures
            copy@ == self@,
    {
        let mut modifier_list: Vec<M> = Vec::new();
        let mut i: usize = 0;
        while i < self.modifier_list.len()
            invariant
                i <= self.modifier_list.len(),
                modifier_list@ == self.modifier_list@.take(i as int),
            decreases self.modifier_list.len() - i,
        {
            modifier_list.push(self.modifier_list[i].duplicate());
            i += 1;
        }
        assert(modifier_list@ =~= self.modifier_list@);
        SimpleSound {
            generator: self.generator.duplicate(),
            modifier_list,
            input_gain: self.input_gain,
            output_gain: self.output_gain,
            registration: self.registration,
            is_muted: self.is_muted,
            is_paused: self.is_paused,
        }
    }

    /// Registers the sound with `channel` under the lowest free slot id
    /// and returns that id. The sound moves into the channel and
    /// records the channel and the id. A sound in hand sits in no
    /// channel; one that sits in a channel of a mixer is registered
    /// with another by `Mixer::reregister`.
    pub fn register(this: Self, channel: &mut SimpleChannel<G, M>) -> (slot: usize)
        ensures
            old(channel)@.is_next_slot(slot as int),
            final(channel)@ == old(channel)@.with_sound(slot as int, this@),
            final(channel)@.wf(),
    {
        channel.add_sound(this)
    }

    /// Takes the sound under `slot` out of `channel` and returns it with
    /// its registration cleared. Does nothing and returns `None` if no
    /// sound is registered under that id.
    pub fn unregister(channel: &mut SimpleChannel<G, M>, slot: usize) -> (sound: Option<Self>)
        ensures
            match sound {
                Some(sound) => {
                    &&& old(channel)@.occupied(slot as int)
                    &&& sound@ == old(channel)@.slots[slot as int].unwrap().stamped(None)
                    &&& final(channel)@ == old(channel)@.without(slot as int)
                },
                None => {
                    &&& !old(channel)@.occupied(slot as int)
                    &&& final(channel)@ == old(channel)@
                },
            },
            final(channel)@.wf(),
    {
        match channel.remove_sound(slot) {
            Ok(sound) => Some(sound),
            Err(_) => None,
        }
    }
}

impl<G: Block, M: Block> Clone for SimpleSound<G, M> {
    /// Returns an independent copy in the same state. The copy sits in
    /// no channel, so it records no registration.
    fn clone(&self) -> (copy: Self)
        ensures
            copy@ == self@.stamped(None),
    {
        let mut copy = self.duplicate();
        copy.stamp(None);
        copy
    }
}

/// Pausing short-circuits the sound: while paused it answers every
/// input with silence and nothing in it moves, so that once unpaused
/// it behaves as if the frames fed meanwhile had never come.
pub proof fn lemma_pause_short_circuit<G: Block, M: Block>(
    s: SoundState<G, M>,
    x: StereoData,
    y: StereoData,
)
    requires
        s.paused,
    ensures
        s.response(x) == StereoData::silent(),
        s.after(x) == s,
        s.after(x).pause_toggled().response(y) == s.pause_toggled().response(y),
        s.after(x).pause_toggled().after(y) == s.pause_toggled().after(y),
{
}

/// What the generator had latched before `process` does not matter:
/// `process` primes it anew, which overwrites the latch.
pub proof fn lemma_process_reprimes<G: Block, M: Block>(
    s: SoundState<G, M>,
    stale: StereoData,
    x: StereoData,
)
    ensures
        (SoundState { generator: s.generator.primed(stale), ..s }).response(x) == s.response(x),
        !s.paused ==> (SoundState { generator: s.generator.primed(stale), ..s }).after(x) == s.after(
            x,
        ),
{
    s.generator.lemma_prime_overwrites(stale, x.scaled(s.input_gain));
}

/// Muting silences the output and nothing else: a muted sound
/// advances exactly as it would unmuted, so that once unmuted it
/// answers as if it had never been muted.
pub proof fn lemma_mute_keeps_running<G: Block, M: Block>(
    s: SoundState<G, M>,
    x: StereoData,
    y: StereoData,
)
    requires
        s.muted,
    ensures
        s.response(x) == StereoData::silent(),
        s.after(x).mute_toggled() == s.mute_toggled().after(x),
        s.after(x).mute_toggled().response(y) == s.mute_toggled().after(x).response(y),
{
}

/// A pass-through generator at unit gains with no modifiers, neither
/// muted nor paused, returns every input as it is.
pub proof fn lemma_unity_passthrough<M: Block>(s: SoundState<Passthrough, M>, x: StereoData)
    requires
        !s.paused,
        !s.muted,
        s.modifiers.len() == 0,
        s.input_gain == UNITY,
        s.output_gain == UNITY,
    ensures
        s.response(x) == x,
{
    lemma_gain_laws(x, UNITY);
}

/// Whether the two gain stages act on the sample `a` without rounding
/// or clipping.
pub open spec fn gains_exact(a: int, input_gain: int, output_gain: int) -> bool {
    exact_gain(a, input_gain) && exact_gain(apply_gain(a, input_gain), output_gain)
}

/// With a pass-through generator and no modifiers, the output is
/// linear in each gain: where the input gain is multiplied by `ki` and
/// the output gain by `ko`, all else being equal, the output is
/// multiplied by `ki * ko`. This holds where the gain stages neither
/// round nor clip, before and after the change.
pub proof fn lemma_gain_linearity<M: Block>(
    s: SoundState<Passthrough, M>,
    x: StereoData,
    ki: int,
    ko: int,
    input_gain: i32,
    output_gain: i32,
)
    requires
        !s.paused,
        !s.muted,
        s.modifiers.len() == 0,
        input_gain == ki * s.input_gain,
        output_gain == ko * s.output_gain,
        gains_exact(x.left as int, s.input_gain as int, s.output_gain as int),
        gains_exact(x.right as int, s.input_gain as int, s.output_gain as int),
        gains_exact(x.left as int, input_gain as int, output_gain as int),
        gains_exact(x.right as int, input_gain as int, output_gain as int),
    ensures
        ({
            let t = SoundState { input_gain, output_gain, ..s };
            &&& t.response(x).left == ki * ko * s.response(x).left
            &&& t.response(x).right == ki * ko * s.response(x).right
        }),
{
    lemma_two_stages(x.left as int, s.input_gain as int, s.output_gain as int, ki, ko);
    lemma_two_stages(x.right as int, s.input_gain as int, s.output_gain as int, ki, ko);
}

/// One sample through two exact gain stages, before and after the
/// gains are multiplied by `ki` and `ko`.
proof fn lemma_two_stages(a: int, gi: int, go: int, ki: int, ko: int)
    requires
        gains_exact(a, gi, go),
        gains_exact(a, ki * gi, ko * go),
    ensures
        apply_gain(apply_gain(a, ki * gi), ko * go) == ki * ko * apply_gain(apply_gain(a, gi), go),
{
    let first = apply_gain(a, gi);
    let out = apply_gain(first, go);
    let first_scaled = apply_gain(a, ki * gi);
    let out_scaled = apply_gain(first_scaled, ko * go);
    lemma_exact_gain(a, gi);
    lemma_exact_gain(first, go);
    lemma_exact_gain(a, ki * gi);
    lemma_exact_gain(first_scaled, ko * go);
    assert(first_scaled == ki * first) by (nonlinear_arith)
        requires
            first * 65536 == a * gi,
            first_scaled * 65536 == a * (ki * gi),
    ;
    assert(out_scaled == ki * ko * out) by (nonlinear_arith)
        requires
            out * 65536 == first * go,
            out_scaled * 65536 == (ki * first) * (ko * go),
    ;
}

} // verus!
