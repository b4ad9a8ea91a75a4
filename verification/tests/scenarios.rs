//! End-to-end event-path scenarios: raw MIDI bytes through the parser and
//! the interpreter into the voice allocator, the way the running
//! synthesizer wires them together.

use midisynth::button_map::ParamId;
use midisynth::midi::parse_midi_message;
use midisynth::midi_controller::MidiController;
use midisynth::synth_controller::{SynthController, SynthEvent};

struct Rig {
    interpreter: MidiController,
    allocator: SynthController,
    param_changes: Vec<(u8, u8)>,
}

impl Rig {
    fn new(keyboard_channel: u8, controller_channel: u8) -> Rig {
        Rig {
            interpreter: MidiController::new(keyboard_channel, controller_channel),
            allocator: SynthController::new(),
            param_changes: Vec::new(),
        }
    }

    /// One raw message through the whole event path.
    fn feed(&mut self, bytes: &[u8]) {
        let Some(event) = parse_midi_message(0, bytes) else {
            return;
        };
        for sev in self.interpreter.handle_midi_event(event) {
            match sev {
                SynthEvent::NoteOn { key, .. } => {
                    self.allocator.add_channel(key);
                },
                SynthEvent::NoteOff { key } => {
                    self.allocator.note_off(key);
                },
                SynthEvent::ParamChange { param, value } => {
                    self.param_changes.push((param, value));
                },
            }
        }
    }
}

/// A note sounds while held and its channel is released on note-off.
#[test]
fn basic_note_end_to_end() {
    let mut rig = Rig::new(0, 1);
    rig.feed(&[0x90, 69, 100]);
    assert_eq!(rig.allocator.num_channels(), 1);
    let live = rig.allocator.live_channels();
    assert_eq!(live[0].1.key, 69);
    rig.feed(&[0x80, 69, 0]);
    // the channel decays (a real voice is retired once its envelope is
    // done) but no longer sustains its key
    assert!(!rig.allocator.live_channels()[0].1.is_sustained);
    assert_eq!(rig.allocator.key_to_channel(69), None);
}

/// The sustain pedal keeps the channel sustaining through the physical
/// release and lets go exactly when the pedal lifts.
#[test]
fn sustain_pedal_end_to_end() {
    let mut rig = Rig::new(0, 1);
    rig.feed(&[0xB0, 64, 127]);
    rig.feed(&[0x90, 60, 80]);
    rig.feed(&[0x80, 60, 0]);
    let live = rig.allocator.live_channels();
    assert_eq!(live.len(), 1);
    assert!(live[0].1.is_sustained);
    rig.feed(&[0xB0, 64, 0]);
    let live = rig.allocator.live_channels();
    assert_eq!(live.len(), 1);
    assert!(!live[0].1.is_sustained);
}

/// Retrigger end to end: the second note-on replaces the first channel
/// with a fresh one.
#[test]
fn retrigger_end_to_end() {
    let mut rig = Rig::new(0, 1);
    rig.feed(&[0x90, 72, 90]);
    let first = rig.allocator.key_to_channel(72).unwrap();
    rig.feed(&[0x90, 72, 110]);
    let second = rig.allocator.key_to_channel(72).unwrap();
    assert_ne!(first, second);
    assert_eq!(rig.allocator.num_channels(), 2);
    // the first channel is live but released; the second sustains the key
    let live = rig.allocator.live_channels();
    assert!(!live.iter().find(|e| e.0 == first).unwrap().1.is_sustained);
    assert!(live.iter().find(|e| e.0 == second).unwrap().1.is_sustained);
}

/// A note on a channel that neither side listens on changes nothing.
#[test]
fn unknown_channel_end_to_end() {
    let mut rig = Rig::new(0, 1);
    rig.feed(&[0x95, 69, 100]);
    assert_eq!(rig.allocator.num_channels(), 0);
    assert!(rig.param_changes.is_empty());
}

/// A controller on the controller channel reaches the synthesizer as a
/// parameter change and resolves through the button map.
#[test]
fn parameter_change_end_to_end() {
    let mut rig = Rig::new(0, 1);
    rig.feed(&[0xB1, 81, 0]);
    assert_eq!(rig.param_changes, vec![(81, 0)]);
    let map = midisynth::button_map::ButtonMap {
        master_volume: 81,
        key_velocity: 82,
        volume_attack: 1,
        volume_decay: 2,
        volume_sustain: 3,
        volume_release: 4,
        osc1_waveform: 11,
        osc2_waveform: 12,
        osc_balance: 13,
        distortion_pregain: 21,
        distortion_level: 22,
        distortion_mix: 23,
        filter_cutoff: 31,
        filter_resonance: 32,
        filter_relative: 33,
        enable_compressor: 34,
    };
    let (param, value) = rig.param_changes[0];
    assert_eq!(map.param_for(param), Some(ParamId::MasterVolume));
    assert_eq!(value, 0);
}
