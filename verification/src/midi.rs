//! Raw MIDI events and the parser for live MIDI bytes.
//!
//! A live MIDI channel-voice message is three bytes: a status byte with the
//! high bit set, whose upper nibble selects the kind and whose lower nibble
//! carries the channel, followed by two data bytes with the high bit clear.
//! The synthesizer reacts to note-on, note-off and control-change messages;
//! everything else on the wire is ignored. A note-on with velocity zero is
//! the conventional encoding of a note-off and is parsed as one.

use vstd::prelude::*;

verus! {

/// The payload of a raw MIDI event.
#[derive(Copy, Clone, Debug, PartialEq, Eq, Structural)]
pub enum EventContent {
    NoteOff { key: u8, vel: u8 },
    NoteOn { key: u8, vel: u8 },
    Controller { controller: u8, value: u8 },
}

/// A raw MIDI event: when it arrived, on which channel, and what it says.
#[derive(Copy, Clone, Debug, PartialEq, Eq, Structural)]
pub struct Event {
    pub timestamp: u64,
    pub channel: u8,
    pub content: EventContent,
}

/// What a well-formed three-byte message means, if anything.
///
/// Only status nibbles 0x8 (note off), 0x9 (note on) and 0xB (control
/// change) are meaningful here; a note-on with velocity zero means note off.
pub open spec fn message_meaning(status: u8, d1: u8, d2: u8) -> Option<(u8, EventContent)> {
    let kind = status / 16;
    let channel = status % 16;
    if kind == 0x8 {
        Some((channel, EventContent::NoteOff { key: d1, vel: d2 }))
    } else if kind == 0x9 {
        if d2 == 0 {
            Some((channel, EventContent::NoteOff { key: d1, vel: 0 }))
        } else {
            Some((channel, EventContent::NoteOn { key: d1, vel: d2 }))
        }
    } else if kind == 0xB {
        Some((channel, EventContent::Controller { controller: d1, value: d2 }))
    } else {
        None
    }
}

/// The parse of a raw byte string: defined exactly when the bytes are one
/// complete, valid channel-voice message that the synthesizer reacts to.
pub open spec fn parse_spec(bytes: Seq<u8>) -> Option<(u8, EventContent)> {
    if bytes.len() == 3 && bytes[0] >= 0x80 && bytes[1] < 0x80 && bytes[2] < 0x80 {
        message_meaning(bytes[0], bytes[1], bytes[2])
    } else {
        None
    }
}

/// Parses the bytes of one live MIDI message into an event stamped with
/// `timestamp`. Returns `None` exactly on input that is not a complete,
/// valid note-on, note-off or control-change message.
pub fn parse_midi_message(timestamp: u64, bytes: &[u8]) -> (r: Option<Event>)
    ensures
        match r {
            Some(ev) => {
                &&& parse_spec(bytes@) == Some((ev.channel, ev.content))
                &&& ev.timestamp == timestamp
            },
            None => parse_spec(bytes@) is None,
        },
{
    if bytes.len() != 3 {
        return None;
    }
    let status: u8 = bytes[0];
    let d1: u8 = bytes[1];
    let d2: u8 = bytes[2];
    if status < 0x80 || d1 >= 0x80 || d2 >= 0x80 {
        return None;
    }
    let kind: u8 = status / 16;
    let channel: u8 = status % 16;
    let content: EventContent = if kind == 0x8 {
        EventContent::NoteOff { key: d1, vel: d2 }
    } else if kind == 0x9 {
        if d2 == 0 {
            EventContent::NoteOff { key: d1, vel: 0 }
        } else {
            EventContent::NoteOn { key: d1, vel: d2 }
        }
    } else if kind == 0xB {
        EventContent::Controller { controller: d1, value: d2 }
    } else {
        return None;
    };
    Some(Event { timestamp, channel, content })
}

/// The set of known MIDI input devices; enumeration is not wired up, so it
/// is empty.
pub fn list_devices() -> (r: Vec<String>)
    ensures
        r@.len() == 0,
{
    Vec::new()
}

} // verus!
