//! A polyphonic MIDI software synthesizer library.
//!
//! The verified core covers the parts of the synthesizer that decide what
//! sounds: parsing raw MIDI bytes, translating key presses and the sustain
//! pedal into note events, allocating a bounded set of voices with a stealing
//! policy, mapping controller numbers to synthesizer parameters, and the
//! deterministic noise generator. The sample-by-sample floating-point signal
//! chain and all device I/O live outside the library and consume its results.

pub mod button_map;
pub mod channel_map;
pub mod midi;
pub mod midi_controller;
pub mod rng;
pub mod synth_controller;
