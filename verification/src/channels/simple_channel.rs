//! A channel: a slot table of sounds that are mixed into one stream.

use crate::frame::{
    clip_sample, lemma_mixdown_swap, lemma_sum_bounds, lemma_sum_update, mixdown, sum_left,
    sum_right, StereoData,
};
use crate::sounds::basic_block::Block;
use crate::sounds::simple_sound::{Registration, SimpleSound, SoundState};
use vstd::prelude::*;

verus! {

/// Why a channel operation failed.
#[derive(Clone, Copy, Debug, PartialEq, Eq, Structural)]
pub enum ChannelError {
    /// No sound is registered under the given slot id.
    NotFound,
}

/// A collection of sounds, each under a slot id that stays the same
/// for as long as the sound is registered. A freed id is used again.
pub struct SimpleChannel<G: Block, M: Block> {
    id: usize,
    slots: Vec<Option<SimpleSound<G, M>>>,
}

/// What a channel is, as a value: its identity and its slot table.
/// The slot id of a sound is its index in `slots`.
pub struct ChannelState<G, M> {
    pub id: usize,
    pub slots: Seq<Option<SoundState<G, M>>>,
}

/// The model of one slot.
pub open spec fn slot_state<G: Block, M: Block>(slot: Option<SimpleSound<G, M>>) -> Option<
    SoundState<G, M>,
> {
    match slot {
        Some(sound) => Some(sound@),
        None => None,
    }
}

impl<G: Block, M: Block> ChannelState<G, M> {
    /// Whether a sound is registered under `slot`.
    pub open spec fn occupied(self, slot: int) -> bool {
        0 <= slot < self.slots.len() && self.slots[slot] is Some
    }

    /// The registration that a sound under `slot` records.
    pub open spec fn registration_of(self, slot: int) -> Registration {
        Registration { channel: self.id, slot: slot as usize }
    }

    /// Every registered sound records this channel and its own slot.
    pub open spec fn wf(self) -> bool {
        forall|i: int| #[trigger]
            self.occupied(i) ==> self.slots[i].unwrap().registration == Some(
                self.registration_of(i),
            )
    }

    /// Whether `slot` is the id that the next added sound gets: the
    /// lowest one that is free.
    pub open spec fn is_next_slot(self, slot: int) -> bool {
        &&& 0 <= slot <= self.slots.len()
        &&& !self.occupied(slot)
        &&& forall|j: int| 0 <= j < slot ==> #[trigger] self.occupied(j)
    }

    /// This channel with `sound` registered under the free id `slot`.
    pub open spec fn with_sound(self, slot: int, sound: SoundState<G, M>) -> Self {
        let entry = Some(sound.stamped(Some(self.registration_of(slot))));
        ChannelState {
            slots: if slot < self.slots.len() {
                self.slots.update(slot, entry)
            } else {
                self.slots.push(entry)
            },
            ..self
        }
    }

    /// This channel with `slot` freed.
    pub open spec fn without(self, slot: int) -> Self {
        ChannelState { slots: self.slots.update(slot, None), ..self }
    }

    /// The number of sounds registered under the first `n` slot ids.
    pub open spec fn registered_below(self, n: int) -> int
        decreases n,
    {
        if n <= 0 {
            0
        } else {
            self.registered_below(n - 1) + if self.slots[n - 1] is Some {
                1int
            } else {
                0int
            }
        }
    }

    /// The number of registered sounds.
    pub open spec fn sound_count(self) -> int {
        self.registered_below(self.slots.len() as int)
    }

    /// What each slot contributes to the mix for `input`: the response
    /// of its sound, or silence where it is free.
    pub open spec fn outputs(self, input: StereoData) -> Seq<StereoData> {
        Seq::new(
            self.slots.len(),
            |i: int|
                match self.slots[i] {
                    Some(sound) => sound.response(input),
                    None => StereoData::silent(),
                },
        )
    }

    /// The frame that `process` returns for `input`: the responses of
    /// all registered sounds, summed exactly and clipped once.
    pub open spec fn response(self, input: StereoData) -> StereoData {
        mixdown(self.outputs(input))
    }

    /// The channel after `process` has run on `input`.
    pub open spec fn after(self, input: StereoData) -> Self {
        ChannelState {
            slots: Seq::new(
                self.slots.len(),
                |i: int|
                    match self.slots[i] {
                        Some(sound) => Some(sound.after(input)),
                        None => None,
                    },
            ),
            ..self
        }
    }
}

impl<G: Block, M: Block> View for SimpleChannel<G, M> {
    type V = ChannelState<G, M>;

    closed spec fn view(&self) -> ChannelState<G, M> {
        Self::table_state(self.id, self.slots@)
    }
}

impl<G: Block, M: Block> SimpleChannel<G, M> {
    #[verifier::type_invariant]
    pub(crate) open spec fn bookkeeping(self) -> bool {
        self@.wf()
    }

    /// The model of a channel with the given identity and slot table.
    spec fn table_state(id: usize, slots: Seq<Option<SimpleSound<G, M>>>) -> ChannelState<G, M> {
        ChannelState { id, slots: Seq::new(slots.len(), |i: int| slot_state(slots[i])) }
    }

    /// Makes an empty channel with the identity `id`.
    pub fn new(id: usize) -> (channel: Self)
        ensures
            channel@ == (ChannelState::<G, M> { id, slots: Seq::empty() }),
    {
        let channel = SimpleChannel { id, slots: Vec::new() };
        assert(channel@.slots =~= Seq::empty());
        channel
    }

    /// The identity of this channel.
    pub fn id(&self) -> (id: usize)
        ensures
            id == self@.id,
    {
        self.id
    }

    /// The number of slots in the table, free ones included: every
    /// registered slot id is below it.
    pub fn slot_count(&self) -> (n: usize)
        ensures
            n == self@.slots.len(),
    {
        self.slots.len()
    }

    /// The sound registered under `slot`, if there is one.
    pub fn sound(&self, slot: usize) -> (found: Option<&SimpleSound<G, M>>)
        ensures
            match found {
                Some(sound) => self@.occupied(slot as int) && sound@ == self@.slots[slot as int].unwrap(),
                None => !self@.occupied(slot as int),
            },
            self@.wf(),
    {
        proof {
            use_type_invariant(self);
        }
        if slot < self.slots.len() {
            self.slots[slot].as_ref()
        } else {
            None
        }
    }

    /// Registers `sound` under the lowest free slot id and returns that
    /// id. The stored sound records this channel and the id.
    pub fn add_sound(&mut self, sound: SimpleSound<G, M>) -> (slot: usize)
        ensures
            old(self)@.is_next_slot(slot as int),
            final(self)@ == old(self)@.with_sound(slot as int, sound@),
            final(self)@.wf(),
    {
        proof {
            use_type_invariant(&*self);
        }
        // The table is worked on outside the channel and put back, so
        // that the channel's bookkeeping holds at every step.
        let mut slots: Vec<Option<SimpleSound<G, M>>> = Vec::new();
        core::mem::swap(&mut self.slots, &mut slots);
        let ghost incoming = sound@;
        let mut sound = sound;
        let mut i: usize = 0;
        while i < slots.len() && slots[i].is_some()
            invariant
                i <= slots.len(),
                forall|j: int| 0 <= j < i ==> slots[j] is Some,
            decreases slots.len() - i,
        {
            i += 1;
        }
        sound.stamp(Some(Registration { channel: self.id, slot: i }));
        if i < slots.len() {
            slots[i] = Some(sound);
        } else {
            slots.push(Some(sound));
        }
        proof {
            let target = old(self)@.with_sound(i as int, incoming);
            assert forall|j: int| 0 <= j < i implies #[trigger] old(self)@.occupied(j) by {
                assert(slots[j] is Some);
            }
            lemma_register(old(self)@, i as int, incoming);
            assert(Self::table_state(self.id, slots@).slots =~= target.slots);
        }
        core::mem::swap(&mut self.slots, &mut slots);
        i
    }

    /// Removes the sound registered under `slot` and returns it,
    /// detached. Fails if no sound is registered under that id.
    pub fn remove_sound(&mut self, slot: usize) -> (removed: Result<
        SimpleSound<G, M>,
        ChannelError,
    >)
        ensures
            match removed {
                Ok(sound) => {
                    &&& old(self)@.occupied(slot as int)
                    &&& sound@ == old(self)@.slots[slot as int].unwrap().stamped(None)
                    &&& final(self)@ == old(self)@.without(slot as int)
                },
                Err(e) => {
                    &&& e == ChannelError::NotFound
                    &&& !old(self)@.occupied(slot as int)
                    &&& final(self)@ == old(self)@
                },
            },
            final(self)@.wf(),
    {
        proof {
            use_type_invariant(&*self);
        }
        if slot >= self.slots.len() {
            return Err(ChannelError::NotFound);
        }
        let mut slots: Vec<Option<SimpleSound<G, M>>> = Vec::new();
        core::mem::swap(&mut self.slots, &mut slots);
        let taken = slots[slot].take();
        proof {
            if taken is Some {
                lemma_unregister(old(self)@, slot as int, StereoData::silent());
                assert(Self::table_state(self.id, slots@).slots =~= old(self)@.without(
                    slot as int,
                ).slots);
            } else {
                assert(Self::table_state(self.id, slots@).slots =~= old(self)@.slots);
            }
        }
        core::mem::swap(&mut self.slots, &mut slots);
        match taken {
            Some(sound) => {
                let mut sound = sound;
                sound.stamp(None);
                Ok(sound)
            },
            None => Err(ChannelError::NotFound),
        }
    }

    /// Computes one output frame: every registered sound processes
    /// `input`, and their frames are summed exactly and clipped once.
    /// A channel without sounds returns silence.
    pub fn process(&mut self, input: StereoData) -> (out: StereoData)
        ensures
            out == old(self)@.response(input),
            final(self)@ == old(self)@.after(input),
            final(self)@.wf(),
    {
        proof {
            use_type_invariant(&*self);
        }
        let mut slots: Vec<Option<SimpleSound<G, M>>> = Vec::new();
        core::mem::swap(&mut self.slots, &mut slots);
        let ghost outputs = old(self)@.outputs(input);
        let ghost target = old(self)@.after(input);
        let mut left: i128 = 0;
        let mut right: i128 = 0;
        let mut i: usize = 0;
        while i < slots.len()
            invariant
                i <= slots.len(),
                slots.len() == old(self).slots.len(),
                outputs == old(self)@.outputs(input),
                target == old(self)@.after(input),
                left == sum_left(outputs, i as int),
                right == sum_right(outputs, i as int),
                forall|j: int| 0 <= j < i ==> slot_state(slots[j]) == #[trigger] target.slots[j],
                forall|j: int| i <= j < slots.len() ==> slots[j] == #[trigger] old(self).slots[j],
            decreases slots.len() - i,
        {
            proof {
                lemma_sum_bounds(outputs, i as int);
                lemma_sum_bounds(outputs, i as int + 1);
            }
            match &mut slots[i] {
                Some(sound) => {
                    let frame = sound.process(input);
                    left = left + frame.left as i128;
                    right = right + frame.right as i128;
                },
                None => {},
            }
            i += 1;
        }
        proof {
            lemma_process_keeps_registrations(old(self)@, input);
            assert(Self::table_state(self.id, slots@).slots =~= target.slots);
        }
        core::mem::swap(&mut self.slots, &mut slots);
        StereoData { left: clip_sample(left), right: clip_sample(right) }
    }
}

impl<G: Block, M: Block> Clone for SimpleChannel<G, M> {
    /// Returns an independent copy: the same identity and, slot for
    /// slot, a copy of each registered sound.
    fn clone(&self) -> (copy: Self)
        ensures
            copy@ == self@,
    {
        proof {
            use_type_invariant(self);
        }
        let mut slots: Vec<Option<SimpleSound<G, M>>> = Vec::new();
        let mut i: usize = 0;
        while i < self.slots.len()
            invariant
                i <= self.slots.len(),
                slots.len() == i,
                forall|j: int| 0 <= j < i ==> slot_state(slots[j]) == slot_state(#[trigger] self.slots[j]),
            decreases self.slots.len() - i,
        {
            let entry = match &self.slots[i] {
                Some(sound) => Some(sound.duplicate()),
                None => None,
            };
            slots.push(entry);
            i += 1;
        }
        assert(Self::table_state(self.id, slots@).slots =~= self@.slots);
        SimpleChannel { id: self.id, slots }
    }
}

/// The count of registered sounds reads only the slots it covers.
proof fn lemma_count_prefix<G: Block, M: Block>(a: ChannelState<G, M>, b: ChannelState<G, M>, n: int)
    requires
        0 <= n <= a.slots.len(),
        n <= b.slots.len(),
        forall|i: int| 0 <= i < n ==> (a.slots[i] is Some) == (b.slots[i] is Some),
    ensures
        a.registered_below(n) == b.registered_below(n),
    decreases n,
{
    if n > 0 {
        lemma_count_prefix(a, b, n - 1);
    }
}

/// Filling or freeing one slot changes the count of registered sounds
/// by what that slot held and holds.
proof fn lemma_count_update<G: Block, M: Block>(
    c: ChannelState<G, M>,
    k: int,
    entry: Option<SoundState<G, M>>,
    n: int,
)
    requires
        0 <= k < n <= c.slots.len(),
    ensures
        (ChannelState { slots: c.slots.update(k, entry), ..c }).registered_below(n)
            == c.registered_below(n) - (if c.slots[k] is Some {
            1int
        } else {
            0int
        }) + (if entry is Some {
            1int
        } else {
            0int
        }),
    decreases n,
{
    let changed = ChannelState { slots: c.slots.update(k, entry), ..c };
    if k == n - 1 {
        lemma_count_prefix(c, changed, n - 1);
    } else {
        lemma_count_update(c, k, entry, n - 1);
    }
}

/// Processing neither registers nor unregisters: the same slots hold
/// sounds afterwards, and each sound records what it recorded before.
pub proof fn lemma_process_keeps_registrations<G: Block, M: Block>(
    c: ChannelState<G, M>,
    input: StereoData,
)
    requires
        c.wf(),
    ensures
        ({
            let r = c.after(input);
            &&& r.id == c.id
            &&& r.slots.len() == c.slots.len()
            &&& forall|k: int| r.occupied(k) == #[trigger] c.occupied(k)
            &&& forall|k: int| #[trigger]
                c.occupied(k) ==> r.slots[k].unwrap().registration
                    == c.slots[k].unwrap().registration
            &&& r.sound_count() == c.sound_count()
            &&& r.wf()
        }),
{
    let r = c.after(input);
    lemma_count_prefix(c, r, c.slots.len() as int);
    assert forall|k: int| #[trigger] r.occupied(k) implies r.slots[k].unwrap().registration == Some(
        r.registration_of(k),
    ) by {
        assert(c.occupied(k));
    }
}

/// Registering a sound adds exactly it: the sound sits under the new
/// slot id and records the channel and that id, the id was free
/// before, every other slot is as it was, and the channel holds one
/// sound more.
pub proof fn lemma_register<G: Block, M: Block>(
    c: ChannelState<G, M>,
    slot: int,
    sound: SoundState<G, M>,
)
    requires
        c.wf(),
        c.is_next_slot(slot),
    ensures
        ({
            let r = c.with_sound(slot, sound);
            &&& !c.occupied(slot)
            &&& r.occupied(slot)
            &&& r.slots[slot] == Some(sound.stamped(Some(c.registration_of(slot))))
            &&& forall|k: int| 0 <= k < c.slots.len() && k != slot ==> r.slots[k] == c.slots[k]
            &&& r.sound_count() == c.sound_count() + 1
            &&& r.wf()
        }),
{
    let r = c.with_sound(slot, sound);
    if slot < c.slots.len() {
        lemma_count_update(c, slot, r.slots[slot], c.slots.len() as int);
    } else {
        lemma_count_prefix(c, r, c.slots.len() as int);
    }
    assert forall|i: int| #[trigger] r.occupied(i) implies r.slots[i].unwrap().registration == Some(
        r.registration_of(i),
    ) by {
        if i != slot {
            assert(c.occupied(i));
        }
    }
}

/// Unregistering a sound takes exactly it away: its slot is free, the
/// sound in hand records no registration, every other slot is as it
/// was, the channel holds one sound less, and each side of the mix
/// loses what that sound contributed.
pub proof fn lemma_unregister<G: Block, M: Block>(
    c: ChannelState<G, M>,
    slot: int,
    input: StereoData,
)
    requires
        c.wf(),
        c.occupied(slot),
    ensures
        ({
            let r = c.without(slot);
            let sound = c.slots[slot].unwrap();
            let n = c.slots.len() as int;
            &&& !r.occupied(slot)
            &&& sound.stamped(None).registration is None
            &&& forall|k: int| 0 <= k < n && k != slot ==> r.slots[k] == c.slots[k]
            &&& r.sound_count() == c.sound_count() - 1
            &&& sum_left(r.outputs(input), n) == sum_left(c.outputs(input), n) - sound.response(
                input,
            ).left
            &&& sum_right(r.outputs(input), n) == sum_right(c.outputs(input), n) - sound.response(
                input,
            ).right
            &&& r.wf()
        }),
{
    let r = c.without(slot);
    let n = c.slots.len() as int;
    lemma_count_update(c, slot, None, n);
    lemma_sum_update(c.outputs(input), slot, StereoData::silent(), n);
    assert(r.outputs(input) =~= c.outputs(input).update(slot, StereoData::silent()));
    assert forall|i: int| #[trigger] r.occupied(i) implies r.slots[i].unwrap().registration == Some(
        r.registration_of(i),
    ) by {
        assert(c.occupied(i));
    }
}

/// Registering a sound again with the channel it already sits in
/// leaves exactly one slot for it: the old slot is freed, the new
/// slot id holds the sound, every other slot is as it was, and the
/// channel holds as many sounds as before.
pub proof fn lemma_register_twice<G: Block, M: Block>(c: ChannelState<G, M>, slot: int, new_slot: int)
    requires
        c.wf(),
        c.occupied(slot),
        c.without(slot).is_next_slot(new_slot),
    ensures
        ({
            let sound = c.slots[slot].unwrap();
            let r = c.without(slot).with_sound(new_slot, sound);
            &&& 0 <= new_slot <= slot
            &&& r.occupied(new_slot)
            &&& r.slots[new_slot] == Some(sound.stamped(Some(c.registration_of(new_slot))))
            &&& new_slot != slot ==> !r.occupied(slot)
            &&& r.slots.len() == c.slots.len()
            &&& forall|k: int|
                0 <= k < c.slots.len() && k != slot && k != new_slot ==> r.slots[k] == c.slots[k]
            &&& r.sound_count() == c.sound_count()
            &&& r.wf()
        }),
{
    let freed = c.without(slot);
    if new_slot > slot {
        assert(freed.occupied(slot));
    }
    lemma_unregister(c, slot, StereoData::silent());
    lemma_register(freed, new_slot, c.slots[slot].unwrap());
}

/// Which slot a sound sits in does not matter to the mix: exchanging
/// the contents of two slots leaves the channel's response unchanged.
pub proof fn lemma_mix_order_independent<G: Block, M: Block>(
    c: ChannelState<G, M>,
    i: int,
    j: int,
    input: StereoData,
)
    requires
        0 <= i < c.slots.len(),
        0 <= j < c.slots.len(),
    ensures
        (ChannelState { slots: c.slots.update(i, c.slots[j]).update(j, c.slots[i]), ..c }).response(
            input,
        ) == c.response(input),
{
    let r = ChannelState { slots: c.slots.update(i, c.slots[j]).update(j, c.slots[i]), ..c };
    let outputs = c.outputs(input);
    assert(r.outputs(input) =~= outputs.update(i, outputs[j]).update(j, outputs[i]));
    lemma_mixdown_swap(outputs, i, j);
}

} // verus!
