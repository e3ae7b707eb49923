//! The mixer: an ordered collection of channels whose outputs are
//! summed and then run through a chain of post-modifiers.

use crate::channels::simple_channel::{
    lemma_register, lemma_register_twice, lemma_unregister, ChannelState, SimpleChannel,
};
use crate::frame::{clip_sample, lemma_sum_bounds, mixdown, sum_left, sum_right, StereoData};
use crate::sounds::basic_block::{chain_advanced, chain_output, run_chain, Block};
use crate::sounds::simple_sound::{SimpleSound, SoundState};
use std::collections::VecDeque;
use vstd::prelude::*;

verus! {

/// Channels of sounds built from `G` and `M`, and post-modifiers of
/// type `M` applied to their sum.
pub struct Mixer<G: Block, M: Block> {
    modifier_list: Vec<M>,
    channel_list: VecDeque<SimpleChannel<G, M>>,
}

/// What a mixer is, as a value: its post-modifiers in processing order
/// and its channels from front to back.
pub struct MixerState<G, M> {
    pub modifiers: Seq<M>,
    pub channels: Seq<ChannelState<G, M>>,
}

/// The models of a sequence of channels.
pub open spec fn channel_states<G: Block, M: Block>(list: Seq<SimpleChannel<G, M>>) -> Seq<
    ChannelState<G, M>,
> {
    Seq::new(list.len(), |i: int| list[i]@)
}

/// The dry input of the channel at position `i`: `inputs[i]`, or
/// silence where `inputs` has no frame for it.
pub open spec fn input_for(inputs: Seq<StereoData>, i: int) -> StereoData {
    if 0 <= i < inputs.len() {
        inputs[i]
    } else {
        StereoData::silent()
    }
}

impl<G: Block, M: Block> MixerState<G, M> {
    /// The bookkeeping of every channel holds.
    pub open spec fn wf(self) -> bool {
        forall|i: int| 0 <= i < self.channels.len() ==> (#[trigger] self.channels[i]).wf()
    }

    /// This mixer with `channel` in place of the channel at `index`.
    pub open spec fn with_channel(self, index: int, channel: ChannelState<G, M>) -> Self {
        MixerState { channels: self.channels.update(index, channel), ..self }
    }

    /// Whether a sound is registered under `slot` of the channel at
    /// position `channel`.
    pub open spec fn holds(self, channel: int, slot: int) -> bool {
        0 <= channel < self.channels.len() && self.channels[channel].occupied(slot)
    }

    /// This mixer with `sound` registered under `slot` of the channel
    /// at position `channel`.
    pub open spec fn with_sound(self, channel: int, slot: int, sound: SoundState<G, M>) -> Self {
        self.with_channel(channel, self.channels[channel].with_sound(slot, sound))
    }

    /// This mixer with `slot` of the channel at position `channel`
    /// freed.
    pub open spec fn without(self, channel: int, slot: int) -> Self {
        self.with_channel(channel, self.channels[channel].without(slot))
    }

    /// The frame of each channel for its dry input.
    pub open spec fn channel_outputs(self, inputs: Seq<StereoData>) -> Seq<StereoData> {
        Seq::new(self.channels.len(), |i: int| self.channels[i].response(input_for(inputs, i)))
    }

    /// The combined channels before any post-modifier: the channel
    /// frames summed exactly and clipped once.
    pub open spec fn bus(self, inputs: Seq<StereoData>) -> StereoData {
        mixdown(self.channel_outputs(inputs))
    }

    /// The frame that `process` returns: the bus after the chain of
    /// post-modifiers.
    pub open spec fn response(self, inputs: Seq<StereoData>) -> StereoData {
        chain_output(self.modifiers, self.bus(inputs))
    }

    /// The mixer after `process` has run on `inputs`.
    pub open spec fn after(self, inputs: Seq<StereoData>) -> Self {
        MixerState {
            modifiers: chain_advanced(self.modifiers, self.bus(inputs)),
            channels: Seq::new(
                self.channels.len(),
                |i: int| self.channels[i].after(input_for(inputs, i)),
            ),
        }
    }
}

impl<G: Block, M: Block> View for Mixer<G, M> {
    type V = MixerState<G, M>;

    closed spec fn view(&self) -> MixerState<G, M> {
        MixerState {
            modifiers: self.modifier_list@,
            channels: channel_states(self.channel_list@),
        }
    }
}

impl<G: Block, M: Block> Mixer<G, M> {
    /// Makes a mixer without post-modifiers whose `num` channels are
    /// independent copies of `c`, each with the identity and the
    /// sounds of `c`.
    pub fn new(c: SimpleChannel<G, M>, num: usize) -> (mixer: Self)
        ensures
            mixer@.modifiers == Seq::<M>::empty(),
            mixer@.channels.len() == num,
            forall|i: int| 0 <= i < num ==> mixer@.channels[i] == c@,
    {
        let mut channel_list: VecDeque<SimpleChannel<G, M>> = VecDeque::new();
        let mut i: usize = 0;
        while i < num
            invariant
                i <= num,
                channel_list@.len() == i,
                forall|j: int| 0 <= j < i ==> (#[trigger] channel_list@[j])@ == c@,
            decreases num - i,
        {
            channel_list.push_back(c.clone());
            i += 1;
        }
        Mixer { modifier_list: Vec::new(), channel_list }
    }

    /// The post-modifiers, in processing order.
    pub fn modifier_list(&self) -> (list: &Vec<M>)
        ensures
            list@ == self@.modifiers,
    {
        &self.modifier_list
    }

    /// The post-modifiers, for change. The channels are not touched.
    pub fn modifier_list_mut(&mut self) -> (list: &mut Vec<M>)
        ensures
            list@ == old(self)@.modifiers,
            final(self)@ == (MixerState {
                modifiers: final(list)@,
                channels: old(self)@.channels,
            }),
    {
        &mut self.modifier_list
    }

    /// The channels, from front to back.
    pub fn channel_list(&self) -> (list: &VecDeque<SimpleChannel<G, M>>)
        ensures
            channel_states(list@) == self@.channels,
    {
        &self.channel_list
    }

    /// The channels, for change at either end. The post-modifiers are
    /// not touched.
    pub fn channel_list_mut(&mut self) -> (list: &mut VecDeque<SimpleChannel<G, M>>)
        ensures
            channel_states(list@) == old(self)@.channels,
            final(self)@ == (MixerState {
                modifiers: old(self)@.modifiers,
                channels: channel_states(final(list)@),
            }),
    {
        &mut self.channel_list
    }

    /// Computes one output frame. The channel at position `i` processes
    /// `inputs[i]`, or silence where `inputs` is too short; the channel
    /// frames are summed exactly and clipped once, and the sum runs
    /// through the post-modifiers in order.
    pub fn process(&mut self, inputs: &[StereoData]) -> (out: StereoData)
        ensures
            out == old(self)@.response(inputs@),
            final(self)@ == old(self)@.after(inputs@),
    {
        let ghost outputs = old(self)@.channel_outputs(inputs@);
        let ghost target = old(self)@.after(inputs@);
        let n: usize = self.channel_list.len();
        let mut left: i128 = 0;
        let mut right: i128 = 0;
        let mut i: usize = 0;
        // Each channel is taken from the front, processed and put at
        // the back: after `n` rounds the order is as it was.
        while i < n
            invariant
                i <= n,
                n == old(self).channel_list@.len(),
                self.channel_list@.len() == n,
                self.modifier_list == old(self).modifier_list,
                outputs == old(self)@.channel_outputs(inputs@),
                target == old(self)@.after(inputs@),
                left == sum_left(outputs, i as int),
                right == sum_right(outputs, i as int),
                forall|j: int|
                    0 <= j < n - i ==> #[trigger] self.channel_list@[j] == old(
                        self,
                    ).channel_list@[i + j],
                forall|k: int|
                    n - i <= k < n ==> (#[trigger] self.channel_list@[k])@ == target.channels[k - (n
                        - i)],
            decreases n - i,
        {
            proof {
                lemma_sum_bounds(outputs, i as int);
                lemma_sum_bounds(outputs, i as int + 1);
            }
            let input = if i < inputs.len() {
                inputs[i]
            } else {
                StereoData::silence()
            };
            let ghost before = self.channel_list@;
            let mut channel = self.channel_list.pop_front().unwrap();
            let frame = channel.process(input);
            left = left + frame.left as i128;
            right = right + frame.right as i128;
            self.channel_list.push_back(channel);
            assert forall|j: int| 0 <= j < n - (i + 1) implies #[trigger] self.channel_list@[j] == old(
                self,
            ).channel_list@[i + 1 + j] by {
                assert(self.channel_list@[j] == before[j + 1]);
            }
            assert forall|k: int| n - (i + 1) <= k < n implies (#[trigger] self.channel_list@[k])@
                == target.channels[k - (n - (i + 1))] by {
                if k < n - 1 {
                    assert(self.channel_list@[k] == before[k + 1]);
                }
            }
            i += 1;
        }
        let bus = StereoData { left: clip_sample(left), right: clip_sample(right) };
        let out = run_chain(&mut self.modifier_list, bus);
        assert(self@.channels =~= target.channels);
        out
    }

    /// Takes the channel at position `index` out of the list.
    fn take_channel(&mut self, index: usize) -> (channel: SimpleChannel<G, M>)
        requires
            index < old(self).channel_list@.len(),
        ensures
            channel == old(self).channel_list@[index as int],
            final(self).channel_list@ == old(self).channel_list@.remove(index as int),
            final(self).modifier_list == old(self).modifier_list,
    {
        self.channel_list.remove(index).unwrap()
    }

    /// Puts `channel` into the list at position `index`.
    fn put_channel(&mut self, index: usize, channel: SimpleChannel<G, M>)
        requires
            index <= old(self).channel_list@.len(),
        ensures
            final(self).channel_list@ == old(self).channel_list@.insert(index as int, channel),
            final(self).modifier_list == old(self).modifier_list,
    {
        self.channel_list.insert(index, channel);
    }

    /// Registers `sound` with the channel at position `channel`, under
    /// the lowest free slot id of that channel, and returns the id. No
    /// other channel changes. Where the mixer has no channel at that
    /// position nothing changes and the sound is handed back.
    pub fn register(&mut self, sound: SimpleSound<G, M>, channel: usize) -> (placed: Result<
        usize,
        SimpleSound<G, M>,
    >)
        ensures
            match placed {
                Ok(slot) => {
                    &&& channel < old(self)@.channels.len()
                    &&& old(self)@.channels[channel as int].is_next_slot(slot as int)
                    &&& final(self)@ == old(self)@.with_sound(channel as int, slot as int, sound@)
                },
                Err(back) => {
                    &&& channel >= old(self)@.channels.len()
                    &&& back == sound
                    &&& final(self)@ == old(self)@
                },
            },
    {
        if channel >= self.channel_list.len() {
            return Err(sound);
        }
        let mut target = self.take_channel(channel);
        let slot = SimpleSound::register(sound, &mut target);
        self.put_channel(channel, target);
        assert(self@.channels =~= old(self)@.with_sound(
            channel as int,
            slot as int,
            sound@,
        ).channels);
        Ok(slot)
    }

    /// Takes the sound under `slot` out of the channel at position
    /// `channel` and returns it with its registration cleared. No
    /// other channel changes. Does nothing and returns `None` if no
    /// such sound is registered.
    pub fn unregister(&mut self, channel: usize, slot: usize) -> (sound: Option<SimpleSound<G, M>>)
        ensures
            match sound {
                Some(sound) => {
                    &&& old(self)@.holds(channel as int, slot as int)
                    &&& sound@ == old(self)@.channels[channel as int].slots[slot as int].unwrap().stamped(
                        None,
                    )
                    &&& final(self)@ == old(self)@.without(channel as int, slot as int)
                },
                None => {
                    &&& !old(self)@.holds(channel as int, slot as int)
                    &&& final(self)@ == old(self)@
                },
            },
    {
        if channel >= self.channel_list.len() {
            return None;
        }
        let mut source = self.take_channel(channel);
        let sound = SimpleSound::unregister(&mut source, slot);
        self.put_channel(channel, source);
        proof {
            if sound is Some {
                assert(self@.channels =~= old(self)@.without(channel as int, slot as int).channels);
            } else {
                assert(self@.channels =~= old(self)@.channels);
            }
        }
        sound
    }

    /// Registers the sound that sits under `slot` of the channel at
    /// position `from` with the channel at position `to`: it is first
    /// unregistered where it sits and then registered with `to`, whose
    /// new slot id is returned. `to` may be `from`. No third channel
    /// changes. Does nothing and returns `None` if no such sound is
    /// registered or the mixer has no channel at position `to`.
    pub fn reregister(&mut self, from: usize, slot: usize, to: usize) -> (moved: Option<usize>)
        ensures
            match moved {
                Some(new_slot) => {
                    let freed = old(self)@.without(from as int, slot as int);
                    let sound = old(self)@.channels[from as int].slots[slot as int].unwrap();
                    &&& old(self)@.holds(from as int, slot as int)
                    &&& to < old(self)@.channels.len()
                    &&& freed.channels[to as int].is_next_slot(new_slot as int)
                    &&& final(self)@ == freed.with_sound(to as int, new_slot as int, sound)
                },
                None => {
                    &&& !(old(self)@.holds(from as int, slot as int) && to < old(
                        self,
                    )@.channels.len())
                    &&& final(self)@ == old(self)@
                },
            },
    {
        if to >= self.channel_list.len() {
            return None;
        }
        match self.unregister(from, slot) {
            Some(sound) => {
                let ghost freed = self@;
                match self.register(sound, to) {
                    Ok(new_slot) => {
                        assert(self@ == freed.with_sound(
                            to as int,
                            new_slot as int,
                            old(self)@.channels[from as int].slots[slot as int].unwrap(),
                        ));
                        Some(new_slot)
                    },
                    // `to` was found to be in range above.
                    Err(_) => None,
                }
            },
            None => None,
        }
    }
}

/// The channels of a mixer are independent: in a mixer whose channels
/// are all copies of one prototype, as `new` makes it, registering a
/// sound with one channel or unregistering one from it leaves every
/// other channel the copy that it was.
pub proof fn lemma_channel_isolation<G: Block, M: Block>(
    m: MixerState<G, M>,
    prototype: ChannelState<G, M>,
    channel: int,
    slot: int,
    sound: SoundState<G, M>,
    other: int,
)
    requires
        forall|i: int| 0 <= i < m.channels.len() ==> m.channels[i] == prototype,
        0 <= channel < m.channels.len(),
        0 <= other < m.channels.len(),
        other != channel,
    ensures
        m.with_sound(channel, slot, sound).channels[other] == prototype,
        m.without(channel, slot).channels[other] == prototype,
        m.with_sound(channel, slot, sound).channels.len() == m.channels.len(),
        m.without(channel, slot).channels.len() == m.channels.len(),
{
}

/// Registering an already registered sound with a channel takes it
/// out of the slot it sat in and puts it under a slot id of the target
/// channel that was free, where it records the target and that id.
/// It then sits in exactly one slot: moved between two channels, the
/// one holds a sound less and the other a sound more; registered
/// again with its own channel, that channel holds as many as before.
/// No third channel changes.
pub proof fn lemma_reregister<G: Block, M: Block>(
    m: MixerState<G, M>,
    from: int,
    slot: int,
    to: int,
    new_slot: int,
)
    requires
        m.wf(),
        m.holds(from, slot),
        0 <= to < m.channels.len(),
        m.without(from, slot).channels[to].is_next_slot(new_slot),
    ensures
        ({
            let sound = m.channels[from].slots[slot].unwrap();
            let freed = m.without(from, slot);
            let r = freed.with_sound(to, new_slot, sound);
            &&& !freed.holds(from, slot)
            &&& !freed.holds(to, new_slot)
            &&& r.holds(to, new_slot)
            &&& r.channels[to].slots[new_slot] == Some(
                sound.stamped(Some(m.channels[to].registration_of(new_slot))),
            )
            &&& (from != to || new_slot != slot) ==> !r.holds(from, slot)
            &&& from != to ==> {
                &&& r.channels[from].sound_count() == m.channels[from].sound_count() - 1
                &&& r.channels[to].sound_count() == m.channels[to].sound_count() + 1
            }
            &&& from == to ==> r.channels[to].sound_count() == m.channels[to].sound_count()
            &&& r.channels.len() == m.channels.len()
            &&& forall|k: int|
                0 <= k < m.channels.len() && k != from && k != to ==> r.channels[k] == m.channels[k]
            &&& r.wf()
        }),
{
    let sound = m.channels[from].slots[slot].unwrap();
    let freed = m.without(from, slot);
    let r = freed.with_sound(to, new_slot, sound);
    lemma_unregister(m.channels[from], slot, StereoData::silent());
    if from == to {
        lemma_register_twice(m.channels[from], slot, new_slot);
    } else {
        lemma_register(m.channels[to], new_slot, sound);
    }
    assert forall|i: int| 0 <= i < r.channels.len() implies (#[trigger] r.channels[i]).wf() by {
        if i != to && i != from {
            assert(r.channels[i] == m.channels[i]);
        }
    }
}

} // verus!
