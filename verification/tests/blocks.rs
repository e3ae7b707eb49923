use signal_chain::frame::{StereoData, UNITY};
use signal_chain::generators::Passthrough;
use signal_chain::modifiers::delay::UnitDelay;
use signal_chain::modifiers::gain::Gain;
use signal_chain::modifiers::Modifier;
use signal_chain::sounds::basic_block::{run_chain, Block, ModifierBlock};

fn pair(left: i32, right: i32) -> StereoData {
    StereoData { left, right }
}

#[test]
fn unprimed_passthrough_yields_silence() {
    let mut g = Passthrough::new();
    assert_eq!(g.process(), StereoData::silence());
}

#[test]
fn passthrough_returns_what_it_latched() {
    let mut g = Passthrough::new();
    g.prime_input(pair(5, -6));
    assert_eq!(g.process(), pair(5, -6));
}

#[test]
fn process_without_priming_uses_the_last_input() {
    let mut g = Passthrough::new();
    g.prime_input(pair(5, -6));
    assert_eq!(g.process(), pair(5, -6));
    assert_eq!(g.process(), pair(5, -6));
}

#[test]
fn priming_overwrites_an_unconsumed_input() {
    let mut g = Passthrough::new();
    g.prime_input(pair(1, 1));
    g.prime_input(pair(2, 2));
    assert_eq!(g.process(), pair(2, 2));
}

#[test]
fn gain_modifier_scales_each_frame() {
    let mut m = Gain::new(UNITY / 2);
    assert_eq!(m.process(pair(UNITY, -UNITY)), pair(UNITY / 2, -UNITY / 2));
    assert_eq!(m.process(pair(3, 4)), pair(1, 2));
}

#[test]
fn unit_delay_returns_the_frame_before() {
    let mut m = UnitDelay::new();
    assert_eq!(m.process(pair(1, 2)), StereoData::silence());
    assert_eq!(m.process(pair(3, 4)), pair(1, 2));
    assert_eq!(m.process(pair(5, 6)), pair(3, 4));
}

#[test]
fn unprimed_modifier_block_filters_silence() {
    let mut b = ModifierBlock::new(Gain::new(3 * UNITY));
    assert_eq!(b.process(), StereoData::silence());
}

#[test]
fn modifier_block_filters_what_it_latched() {
    let mut b = ModifierBlock::new(Gain::new(3 * UNITY));
    b.prime_input(pair(10, -10));
    assert_eq!(b.process(), pair(30, -30));
    assert_eq!(b.process(), pair(30, -30));
}

#[test]
fn modifier_block_advances_its_modifier_once_per_process() {
    let mut b = ModifierBlock::new(UnitDelay::new());
    b.prime_input(pair(7, 8));
    assert_eq!(b.process(), StereoData::silence());
    assert_eq!(b.process(), pair(7, 8));
    b.prime_input(pair(9, 9));
    assert_eq!(b.process(), pair(7, 8));
    assert_eq!(b.process(), pair(9, 9));
}

#[test]
fn duplicate_is_independent_of_its_source() {
    let mut a = ModifierBlock::new(UnitDelay::new());
    a.prime_input(pair(1, 1));
    a.process();
    let mut b = a.duplicate();
    a.prime_input(pair(2, 2));
    assert_eq!(a.process(), pair(1, 1));
    assert_eq!(b.process(), pair(1, 1));
    assert_eq!(a.process(), pair(2, 2));
    assert_eq!(b.process(), pair(1, 1));
}

#[test]
fn empty_chain_returns_its_input() {
    let mut chain: Vec<ModifierBlock<Gain>> = Vec::new();
    assert_eq!(run_chain(&mut chain, pair(4, 5)), pair(4, 5));
}

#[test]
fn chain_applies_blocks_first_to_last() {
    // Doubling clips before halving; the other way round nothing clips.
    let mut clip_first =
        vec![ModifierBlock::new(Gain::new(2 * UNITY)), ModifierBlock::new(Gain::new(UNITY / 2))];
    let mut halve_first =
        vec![ModifierBlock::new(Gain::new(UNITY / 2)), ModifierBlock::new(Gain::new(2 * UNITY))];
    let x = pair(i32::MAX - 1, 100);
    assert_eq!(run_chain(&mut clip_first, x), pair(i32::MAX / 2, 100));
    assert_eq!(run_chain(&mut halve_first, x), pair(i32::MAX - 1, 100));
}

#[test]
fn chain_leaves_each_block_holding_what_it_was_fed() {
    let mut chain =
        vec![ModifierBlock::new(Gain::new(2 * UNITY)), ModifierBlock::new(Gain::new(3 * UNITY))];
    assert_eq!(run_chain(&mut chain, pair(1, -1)), pair(6, -6));
    assert_eq!(chain[0].input, pair(1, -1));
    assert_eq!(chain[1].input, pair(2, -2));
}

#[test]
fn chain_of_delays_delays_by_its_length() {
    let mut chain = vec![ModifierBlock::new(UnitDelay::new()), ModifierBlock::new(UnitDelay::new())];
    assert_eq!(run_chain(&mut chain, pair(1, 1)), StereoData::silence());
    assert_eq!(run_chain(&mut chain, pair(2, 2)), StereoData::silence());
    assert_eq!(run_chain(&mut chain, pair(3, 3)), pair(1, 1));
    assert_eq!(run_chain(&mut chain, pair(4, 4)), pair(2, 2));
}
