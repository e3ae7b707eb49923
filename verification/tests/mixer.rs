use signal_chain::channels::mixer::Mixer;
use signal_chain::channels::simple_channel::SimpleChannel;
use signal_chain::frame::{StereoData, UNITY};
use signal_chain::generators::Passthrough;
use signal_chain::modifiers::delay::UnitDelay;
use signal_chain::modifiers::gain::Gain;
use signal_chain::sounds::basic_block::ModifierBlock;
use signal_chain::sounds::simple_sound::{Registration, SimpleSound};

type Bus = Mixer<Passthrough, ModifierBlock<Gain>>;
type Strip = SimpleChannel<Passthrough, ModifierBlock<Gain>>;
type Voice = SimpleSound<Passthrough, ModifierBlock<Gain>>;

fn fr(left: i32, right: i32) -> StereoData {
    StereoData { left, right }
}

fn voice(output_gain: i32) -> Voice {
    Voice::new(UNITY, output_gain, Passthrough::new())
}

fn registered_gains(mixer: &Bus, channel: usize) -> Vec<Option<i32>> {
    let strip = &mixer.channel_list()[channel];
    (0..strip.slot_count()).map(|i| strip.sound(i).map(|s| s.get_output_gain())).collect()
}

#[test]
fn new_mixer_has_the_given_number_of_channels() {
    let mixer = Bus::new(Strip::new(0), 3);
    assert_eq!(mixer.channel_list().len(), 3);
    assert!(mixer.modifier_list().is_empty());
    let none = Bus::new(Strip::new(0), 0);
    assert_eq!(none.channel_list().len(), 0);
}

#[test]
fn new_mixer_copies_the_prototype_into_each_channel() {
    let mut prototype = Strip::new(5);
    prototype.add_sound(voice(2 * UNITY));
    prototype.add_sound(voice(3 * UNITY));
    prototype.remove_sound(0).unwrap();
    let mixer = Bus::new(prototype, 4);
    for channel in 0..4 {
        assert_eq!(mixer.channel_list()[channel].id(), 5);
        assert_eq!(registered_gains(&mixer, channel), vec![None, Some(3 * UNITY)]);
        assert_eq!(
            mixer.channel_list()[channel].sound(1).unwrap().registration(),
            Some(Registration { channel: 5, slot: 1 })
        );
    }
}

#[test]
fn channels_of_a_new_mixer_are_independent() {
    let mut prototype = Strip::new(0);
    prototype.add_sound(voice(UNITY));
    let mut mixer = Bus::new(prototype, 3);
    mixer.channel_list_mut()[0].add_sound(voice(7));
    mixer.channel_list_mut()[2].remove_sound(0).unwrap();
    assert_eq!(registered_gains(&mixer, 0), vec![Some(UNITY), Some(7)]);
    assert_eq!(registered_gains(&mixer, 1), vec![Some(UNITY)]);
    assert_eq!(registered_gains(&mixer, 2), vec![None]);
    assert_eq!(mixer.process(&[fr(1, 1), fr(10, 10), fr(100, 100)]), fr(11, 11));
}

#[test]
fn two_channels_one_sound_mix_to_the_input() {
    let mut mixer = Bus::new(Strip::new(0), 2);
    assert_eq!(mixer.register(voice(UNITY), 0).ok(), Some(0));
    let out = mixer.process(&[fr(UNITY, UNITY), StereoData::silence()]);
    assert_eq!(out, fr(UNITY, UNITY));
}

#[test]
fn post_modifier_acts_on_the_mix() {
    let mut mixer = Bus::new(Strip::new(0), 2);
    mixer.register(voice(UNITY), 0).ok().unwrap();
    mixer.modifier_list_mut().push(ModifierBlock::new(Gain::new(UNITY / 2)));
    let out = mixer.process(&[fr(UNITY, UNITY), StereoData::silence()]);
    assert_eq!(out, fr(UNITY / 2, UNITY / 2));
}

#[test]
fn post_modifiers_run_in_order() {
    let mut mixer = Bus::new(Strip::new(0), 1);
    mixer.register(voice(UNITY), 0).ok().unwrap();
    mixer.modifier_list_mut().push(ModifierBlock::new(Gain::new(2 * UNITY)));
    mixer.modifier_list_mut().push(ModifierBlock::new(Gain::new(UNITY / 2)));
    assert_eq!(mixer.modifier_list().len(), 2);
    assert_eq!(mixer.process(&[fr(i32::MAX - 1, 8)]), fr(i32::MAX / 2, 8));
}

#[test]
fn mixer_without_channels_outputs_silence() {
    let mut mixer = Bus::new(Strip::new(0), 0);
    assert_eq!(mixer.process(&[fr(5, 5)]), StereoData::silence());
    assert_eq!(mixer.process(&[]), StereoData::silence());
}

#[test]
fn each_channel_gets_its_own_input() {
    let mut mixer = Bus::new(Strip::new(0), 3);
    mixer.register(voice(UNITY), 0).ok().unwrap();
    mixer.register(voice(2 * UNITY), 1).ok().unwrap();
    mixer.register(voice(4 * UNITY), 2).ok().unwrap();
    assert_eq!(mixer.process(&[fr(1, -1), fr(10, -10), fr(100, -100)]), fr(421, -421));
}

#[test]
fn missing_inputs_count_as_silence() {
    let mut mixer = Bus::new(Strip::new(0), 3);
    for channel in 0..3 {
        mixer.register(voice(UNITY), channel).ok().unwrap();
    }
    assert_eq!(mixer.process(&[fr(1, 2)]), fr(1, 2));
    assert_eq!(mixer.process(&[]), StereoData::silence());
    assert_eq!(mixer.process(&[fr(1, 2), fr(3, 4), fr(5, 6), fr(7, 8)]), fr(9, 12));
}

#[test]
fn mixer_clips_the_channel_sum_once() {
    let mut mixer = Bus::new(Strip::new(0), 3);
    mixer.register(voice(UNITY), 0).ok().unwrap();
    mixer.register(voice(UNITY), 1).ok().unwrap();
    mixer.register(voice(-UNITY), 2).ok().unwrap();
    let loud = fr(i32::MAX, -i32::MAX);
    assert_eq!(mixer.process(&[loud, loud, loud]), loud);
}

#[test]
fn mixer_keeps_the_channel_order() {
    let mut mixer = Bus::new(Strip::new(0), 3);
    mixer.register(voice(1), 0).ok().unwrap();
    mixer.register(voice(2), 1).ok().unwrap();
    mixer.register(voice(3), 2).ok().unwrap();
    mixer.process(&[fr(1, 1), fr(1, 1), fr(1, 1)]);
    mixer.process(&[fr(1, 1)]);
    assert_eq!(registered_gains(&mixer, 0), vec![Some(1)]);
    assert_eq!(registered_gains(&mixer, 1), vec![Some(2)]);
    assert_eq!(registered_gains(&mixer, 2), vec![Some(3)]);
}

#[test]
fn mixer_advances_sounds_and_post_modifiers() {
    let mut mixer: Mixer<Passthrough, ModifierBlock<UnitDelay>> =
        Mixer::new(SimpleChannel::new(0), 1);
    let mut delayed = SimpleSound::new(UNITY, UNITY, Passthrough::new());
    delayed.add_modifier(ModifierBlock::new(UnitDelay::new()));
    mixer.register(delayed, 0).ok().unwrap();
    mixer.modifier_list_mut().push(ModifierBlock::new(UnitDelay::new()));
    assert_eq!(mixer.process(&[fr(1, 1)]), StereoData::silence());
    assert_eq!(mixer.process(&[fr(2, 2)]), StereoData::silence());
    assert_eq!(mixer.process(&[fr(3, 3)]), fr(1, 1));
    assert_eq!(mixer.process(&[fr(4, 4)]), fr(2, 2));
}

#[test]
fn channels_are_added_and_removed_at_either_end() {
    let mut mixer = Bus::new(Strip::new(1), 1);
    mixer.channel_list_mut().push_front(Strip::new(0));
    mixer.channel_list_mut().push_back(Strip::new(2));
    let ids: Vec<usize> = mixer.channel_list().iter().map(|c| c.id()).collect();
    assert_eq!(ids, vec![0, 1, 2]);
    mixer.register(voice(UNITY), 2).ok().unwrap();
    assert_eq!(mixer.process(&[fr(1, 1), fr(2, 2), fr(4, 4)]), fr(4, 4));
    assert_eq!(mixer.channel_list_mut().pop_front().unwrap().id(), 0);
    assert_eq!(mixer.process(&[fr(1, 1), fr(2, 2), fr(4, 4)]), fr(2, 2));
    assert_eq!(mixer.channel_list_mut().pop_back().unwrap().id(), 2);
    assert_eq!(mixer.process(&[fr(1, 1), fr(2, 2), fr(4, 4)]), StereoData::silence());
}

#[test]
fn register_hands_the_sound_back_without_a_channel() {
    let mut mixer = Bus::new(Strip::new(0), 2);
    let back = mixer.register(voice(9), 2).err().unwrap();
    assert_eq!(back.get_output_gain(), 9);
    assert_eq!(back.registration(), None);
    assert_eq!(registered_gains(&mixer, 0), vec![]);
    assert_eq!(registered_gains(&mixer, 1), vec![]);
}

#[test]
fn register_touches_one_channel() {
    let mut mixer = Bus::new(Strip::new(0), 3);
    assert_eq!(mixer.register(voice(1), 1).ok(), Some(0));
    assert_eq!(mixer.register(voice(2), 1).ok(), Some(1));
    assert_eq!(registered_gains(&mixer, 0), vec![]);
    assert_eq!(registered_gains(&mixer, 1), vec![Some(1), Some(2)]);
    assert_eq!(registered_gains(&mixer, 2), vec![]);
}

#[test]
fn unregister_returns_the_sound_detached() {
    let mut mixer = Bus::new(Strip::new(0), 2);
    mixer.register(voice(1), 1).ok().unwrap();
    mixer.register(voice(2), 1).ok().unwrap();
    let sound = mixer.unregister(1, 0).unwrap();
    assert_eq!(sound.get_output_gain(), 1);
    assert_eq!(sound.registration(), None);
    assert_eq!(registered_gains(&mixer, 1), vec![None, Some(2)]);
    assert_eq!(registered_gains(&mixer, 0), vec![]);
}

#[test]
fn unregister_of_an_absent_sound_changes_nothing() {
    let mut mixer = Bus::new(Strip::new(0), 2);
    mixer.register(voice(1), 1).ok().unwrap();
    assert!(mixer.unregister(0, 0).is_none());
    assert!(mixer.unregister(1, 1).is_none());
    assert!(mixer.unregister(2, 0).is_none());
    assert_eq!(registered_gains(&mixer, 0), vec![]);
    assert_eq!(registered_gains(&mixer, 1), vec![Some(1)]);
}

#[test]
fn reregister_moves_a_sound_to_another_channel() {
    let mut mixer = Bus::new(Strip::new(0), 3);
    mixer.register(voice(1), 0).ok().unwrap();
    mixer.register(voice(2), 0).ok().unwrap();
    mixer.register(voice(3), 2).ok().unwrap();
    assert_eq!(mixer.reregister(0, 0, 2), Some(1));
    assert_eq!(registered_gains(&mixer, 0), vec![None, Some(2)]);
    assert_eq!(registered_gains(&mixer, 1), vec![]);
    assert_eq!(registered_gains(&mixer, 2), vec![Some(3), Some(1)]);
    assert_eq!(
        mixer.channel_list()[2].sound(1).unwrap().registration(),
        Some(Registration { channel: 0, slot: 1 })
    );
}

#[test]
fn reregister_with_the_same_channel_leaves_one_slot() {
    let mut mixer = Bus::new(Strip::new(0), 2);
    mixer.register(voice(1), 0).ok().unwrap();
    mixer.register(voice(2), 0).ok().unwrap();
    mixer.register(voice(3), 0).ok().unwrap();
    assert_eq!(mixer.reregister(0, 2, 0), Some(2));
    assert_eq!(registered_gains(&mixer, 0), vec![Some(1), Some(2), Some(3)]);
    mixer.unregister(0, 0).unwrap();
    // The lowest free id is now below the one the sound has.
    assert_eq!(mixer.reregister(0, 2, 0), Some(0));
    assert_eq!(registered_gains(&mixer, 0), vec![Some(3), Some(2), None]);
    assert_eq!(
        mixer.channel_list()[0].sound(0).unwrap().registration(),
        Some(Registration { channel: 0, slot: 0 })
    );
}

#[test]
fn reregister_of_an_absent_sound_changes_nothing() {
    let mut mixer = Bus::new(Strip::new(0), 2);
    mixer.register(voice(1), 0).ok().unwrap();
    assert_eq!(mixer.reregister(0, 1, 1), None);
    assert_eq!(mixer.reregister(1, 0, 0), None);
    assert_eq!(mixer.reregister(2, 0, 0), None);
    assert_eq!(registered_gains(&mixer, 0), vec![Some(1)]);
    assert_eq!(registered_gains(&mixer, 1), vec![]);
}

#[test]
fn reregister_without_a_target_changes_nothing() {
    let mut mixer = Bus::new(Strip::new(0), 2);
    mixer.register(voice(1), 0).ok().unwrap();
    assert_eq!(mixer.reregister(0, 0, 2), None);
    assert_eq!(registered_gains(&mixer, 0), vec![Some(1)]);
    assert_eq!(
        mixer.channel_list()[0].sound(0).unwrap().registration(),
        Some(Registration { channel: 0, slot: 0 })
    );
}

#[test]
fn moved_sound_is_mixed_where_it_sits() {
    let mut mixer = Bus::new(Strip::new(0), 2);
    mixer.register(voice(UNITY), 0).ok().unwrap();
    assert_eq!(mixer.process(&[fr(1, 1), fr(10, 10)]), fr(1, 1));
    mixer.reregister(0, 0, 1).unwrap();
    assert_eq!(mixer.process(&[fr(1, 1), fr(10, 10)]), fr(10, 10));
    mixer.unregister(1, 0).unwrap();
    assert_eq!(mixer.process(&[fr(1, 1), fr(10, 10)]), StereoData::silence());
}
