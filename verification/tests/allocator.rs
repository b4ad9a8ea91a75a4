use midisynth::synth_controller::{SynthController, MAX_CHANNELS};

/// One note: a channel appears under its key, and retiring it empties the
/// allocator again.
#[test]
fn basic_note_lifecycle() {
    let mut sc = SynthController::new();
    assert_eq!(sc.num_channels(), 0);
    let out = sc.add_channel(69);
    assert!(out.stolen.is_none());
    assert_eq!(sc.num_channels(), 1);
    let live = sc.live_channels();
    assert_eq!(live.len(), 1);
    assert_eq!(live[0].0, out.added);
    assert_eq!(live[0].1.key, 69);
    assert!(live[0].1.is_sustained);
    assert_eq!(sc.key_to_channel(69), Some(out.added));

    // note-off: the channel stays live (its voice decays) but no longer
    // sustains the key
    let released = sc.note_off(69);
    assert_eq!(released, Some(out.added));
    assert_eq!(sc.key_to_channel(69), None);
    let live = sc.live_channels();
    assert_eq!(live.len(), 1);
    assert!(!live[0].1.is_sustained);

    // the voice reports done: retire it
    let retired = sc.remove_channel(out.added);
    assert_eq!(retired.unwrap().key, 69);
    assert_eq!(sc.num_channels(), 0);
}

#[test]
fn note_off_without_note_is_ignored() {
    let mut sc = SynthController::new();
    assert_eq!(sc.note_off(10), None);
    assert_eq!(sc.num_channels(), 0);
}

/// Retrigger at the allocator: the interpreter's note-off releases the
/// first channel, the note-on then makes a distinct second one.
#[test]
fn retrigger_makes_second_channel() {
    let mut sc = SynthController::new();
    let first = sc.add_channel(72);
    let released = sc.note_off(72);
    assert_eq!(released, Some(first.added));
    let second = sc.add_channel(72);
    assert_ne!(first.added, second.added);
    assert_eq!(sc.num_channels(), 2);
    assert_eq!(sc.key_to_channel(72), Some(second.added));
    let live = sc.live_channels();
    let first_entry = live.iter().find(|e| e.0 == first.added).unwrap();
    let second_entry = live.iter().find(|e| e.0 == second.added).unwrap();
    assert!(!first_entry.1.is_sustained);
    assert!(second_entry.1.is_sustained);
}

/// The polyphony bound: the count never exceeds `MAX_CHANNELS`, and the
/// 65th note steals the maximum of the stealing order — all channels are
/// still sustaining, so the most recently pressed one goes.
#[test]
fn voice_stealing_when_full() {
    let mut sc = SynthController::new();
    let mut added = Vec::new();
    for key in 0..MAX_CHANNELS as u8 {
        let out = sc.add_channel(key);
        assert!(out.stolen.is_none());
        added.push(out.added);
        assert!(sc.num_channels() <= MAX_CHANNELS);
    }
    assert_eq!(sc.num_channels(), MAX_CHANNELS);

    let out = sc.add_channel(64);
    assert_eq!(sc.num_channels(), MAX_CHANNELS);
    let (stolen_key, stolen_channel) = out.stolen.expect("a full allocator must steal");
    // all channels were sustaining with ids 0..63, so the victim is the
    // most recently pressed: key 63, id 63
    assert_eq!(stolen_key, added[63]);
    assert_eq!(stolen_channel.key, 63);
    assert_eq!(stolen_channel.id, 63);
    assert!(stolen_channel.is_sustained);
    assert_eq!(sc.key_to_channel(63), None);
    assert_eq!(sc.key_to_channel(64), Some(out.added));
    // the earliest note still sounds
    assert_eq!(sc.key_to_channel(0), Some(added[0]));
}

/// The stealing order is the maximum of (is_sustained, id): releasing the
/// newest channel moves the choice to the largest still-sustaining id.
#[test]
fn stealing_prefers_maximum_of_order() {
    let mut sc = SynthController::new();
    let mut added = Vec::new();
    for key in 0..MAX_CHANNELS as u8 {
        added.push(sc.add_channel(key).added);
    }
    // release the newest channel; it stops sustaining
    sc.note_off(63);
    let out = sc.add_channel(100);
    let (stolen_key, stolen_channel) = out.stolen.unwrap();
    // the maximum of the order is now the largest still-sustaining id
    assert_eq!(stolen_key, added[62]);
    assert_eq!(stolen_channel.key, 62);
    assert_eq!(stolen_channel.id, 62);
    assert!(stolen_channel.is_sustained);
}

/// With every channel released, the largest id (most recently released
/// pressed note) is stolen.
#[test]
fn stealing_all_released() {
    let mut sc = SynthController::new();
    let mut added = Vec::new();
    for key in 0..MAX_CHANNELS as u8 {
        added.push(sc.add_channel(key).added);
    }
    for key in 0..MAX_CHANNELS as u8 {
        sc.note_off(key);
    }
    let out = sc.add_channel(5);
    let (stolen_key, stolen_channel) = out.stolen.unwrap();
    assert_eq!(stolen_key, added[63]);
    assert_eq!(stolen_channel.id, 63);
    assert!(!stolen_channel.is_sustained);
}

/// A new note on a key whose channel was stolen points the key at the new
/// channel; the reference is never stale.
#[test]
fn key_reference_follows_newest_channel() {
    let mut sc = SynthController::new();
    let first = sc.add_channel(30);
    let second = sc.add_channel(30);
    // both channels live, the key points at the newer one
    assert_eq!(sc.num_channels(), 2);
    assert_eq!(sc.key_to_channel(30), Some(second.added));
    // removing the older channel does not disturb the reference
    sc.remove_channel(first.added);
    assert_eq!(sc.key_to_channel(30), Some(second.added));
}
