//! A small fixed-point audio signal chain: blocks produce and transform
//! stereo frames, sounds bundle a generator with a chain of modifiers,
//! channels hold sounds in a slot table and a mixer combines channels.

pub mod frame;
pub mod generators;
pub mod modifiers;
pub mod sounds;
pub mod channels;
