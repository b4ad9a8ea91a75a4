//! The MIDI interpreter: raw MIDI events in, semantic synth events out.
//!
//! The interpreter owns the sustain-pedal semantics. It tracks, per key,
//! whether the key is physically pressed and whether it is logically
//! sustained, and it emits exactly one `NoteOn` when a key becomes audible
//! and exactly one `NoteOff` when it falls silent. The caller hands each
//! emitted event to the voice allocator's queue.

use vstd::prelude::*;

use crate::midi::{Event, EventContent};
use crate::synth_controller::SynthEvent;

verus! {

/// The controller number of the sustain pedal.
pub const MIDI_SUSTAIN_PEDAL: u8 = 64;

/// The number of MIDI keys.
pub const NUM_KEYS: usize = 128;

/// What a note-on for `key` with velocity `vel` emits: a retriggering
/// note-off first whenever the key is already audible, then the note-on.
pub open spec fn key_on_emits(pressed: Seq<bool>, sustained: Seq<bool>, key: u8, vel: u8) -> Seq<
    SynthEvent,
> {
    if pressed[key as int] || sustained[key as int] {
        seq![SynthEvent::NoteOff { key }, SynthEvent::NoteOn { key, vel }]
    } else {
        seq![SynthEvent::NoteOn { key, vel }]
    }
}

/// What a note-off for `key` emits: nothing while the pedal is held or the
/// key was not pressed, else the note-off.
pub open spec fn key_off_emits(pressed: Seq<bool>, pedal: bool, key: u8) -> Seq<SynthEvent> {
    if pressed[key as int] && !pedal {
        seq![SynthEvent::NoteOff { key }]
    } else {
        seq![]
    }
}

/// What releasing the pedal emits for the keys below `n`: one note-off, in
/// ascending key order, for every key that was sustained but is no longer
/// pressed.
pub open spec fn pedal_off_emits_upto(pressed: Seq<bool>, sustained: Seq<bool>, n: int) -> Seq<
    SynthEvent,
>
    decreases n,
{
    if n <= 0 {
        seq![]
    } else if sustained[n - 1] && !pressed[n - 1] {
        pedal_off_emits_upto(pressed, sustained, n - 1).push(
            SynthEvent::NoteOff { key: (n - 1) as u8 },
        )
    } else {
        pedal_off_emits_upto(pressed, sustained, n - 1)
    }
}

/// What releasing the pedal emits over the whole keyboard.
pub open spec fn pedal_off_emits(pressed: Seq<bool>, sustained: Seq<bool>) -> Seq<SynthEvent> {
    pedal_off_emits_upto(pressed, sustained, NUM_KEYS as int)
}

/// How often `ev` occurs in `s`.
pub open spec fn event_count(s: Seq<SynthEvent>, ev: SynthEvent) -> nat
    decreases s.len(),
{
    if s.len() == 0 {
        0
    } else {
        event_count(s.drop_last(), ev) + if s.last() == ev {
            1nat
        } else {
            0nat
        }
    }
}

/// Whether the key numbers an event carries are in range for the 128-key
/// tables. The MIDI wire format guarantees this for parsed events.
pub open spec fn event_keys_in_range(e: Event) -> bool {
    match e.content {
        EventContent::NoteOn { key, vel } => key < NUM_KEYS,
        EventContent::NoteOff { key, vel } => key < NUM_KEYS,
        EventContent::Controller { controller, value } => true,
    }
}

/// Translates raw MIDI events into semantic synth events.
#[derive(Clone, Debug)]
pub struct MidiController {
    sustain_pedal: bool,
    pressed: Vec<bool>,
    sustained: Vec<bool>,
    keyboard_channel: u8,
    controller_channel: u8,
}

impl MidiController {
    /// The per-key physical key-down state.
    pub closed spec fn pressed(&self) -> Seq<bool> {
        self.pressed@
    }

    /// The per-key logical sustain state.
    pub closed spec fn sustained(&self) -> Seq<bool> {
        self.sustained@
    }

    /// Whether the sustain pedal is down.
    pub closed spec fn pedal(&self) -> bool {
        self.sustain_pedal
    }

    /// The channel listened to for keyboard events.
    pub closed spec fn keyboard_channel(&self) -> u8 {
        self.keyboard_channel
    }

    /// The channel listened to for parameter controllers.
    pub closed spec fn controller_channel(&self) -> u8 {
        self.controller_channel
    }

    /// Both key-state tables cover all 128 keys.
    pub open spec fn wf(&self) -> bool {
        &&& self.pressed().len() == NUM_KEYS
        &&& self.sustained().len() == NUM_KEYS
    }

    /// A fresh interpreter: pedal up, no key pressed, no key sustained.
    pub fn new(keyboard_channel: u8, controller_channel: u8) -> (r: Self)
        ensures
            r.wf(),
            !r.pedal(),
            forall|i: int| 0 <= i < NUM_KEYS ==> !r.pressed()[i] && !r.sustained()[i],
            r.keyboard_channel() == keyboard_channel,
            r.controller_channel() == controller_channel,
    {
        let mut pressed: Vec<bool> = Vec::new();
        let mut sustained: Vec<bool> = Vec::new();
        let mut i: usize = 0;
        while i < NUM_KEYS
            invariant
                i <= NUM_KEYS,
                pressed@.len() == i,
                sustained@.len() == i,
                forall|j: int| 0 <= j < i ==> !pressed@[j] && !sustained@[j],
            decreases NUM_KEYS - i,
        {
            pressed.push(false);
            sustained.push(false);
            i += 1;
        }
        MidiController { sustain_pedal: false, pressed, sustained, keyboard_channel, controller_channel }
    }

    /// A key went down: retrigger if audible, sound the note, record the
    /// press, and latch the sustain state while the pedal is held.
    fn key_on(&mut self, out: &mut Vec<SynthEvent>, key: u8, vel: u8)
        requires
            old(self).wf(),
            key < NUM_KEYS,
        ensures
            final(self).wf(),
            final(out)@ == old(out)@ + key_on_emits(
                old(self).pressed(),
                old(self).sustained(),
                key,
                vel,
            ),
            final(self).pressed() == old(self).pressed().update(key as int, true),
            final(self).sustained() == if old(self).pedal() {
                old(self).sustained().update(key as int, true)
            } else {
                old(self).sustained()
            },
            final(self).pedal() == old(self).pedal(),
            final(self).keyboard_channel() == old(self).keyboard_channel(),
            final(self).controller_channel() == old(self).controller_channel(),
    {
        let already_audible: bool = self.pressed[key as usize] || self.sustained[key as usize];
        if already_audible {
            out.push(SynthEvent::NoteOff { key });
        }
        out.push(SynthEvent::NoteOn { key, vel });

        self.pressed.set(key as usize, true);
        if self.sustain_pedal {
            self.sustained.set(key as usize, true);
        }
    }

    /// A key came up: silence it unless the pedal holds it, and record the
    /// release. The sustain table is only cleared when the pedal lifts.
    fn key_off(&mut self, out: &mut Vec<SynthEvent>, key: u8)
        requires
            old(self).wf(),
            key < NUM_KEYS,
        ensures
            final(self).wf(),
            final(out)@ == old(out)@ + key_off_emits(old(self).pressed(), old(self).pedal(), key),
            final(self).pressed() == old(self).pressed().update(key as int, false),
            final(self).sustained() == old(self).sustained(),
            final(self).pedal() == old(self).pedal(),
            final(self).keyboard_channel() == old(self).keyboard_channel(),
            final(self).controller_channel() == old(self).controller_channel(),
    {
        if self.pressed[key as usize] && !self.sustain_pedal {
            out.push(SynthEvent::NoteOff { key });
        }
        self.pressed.set(key as usize, false);
    }

    /// The pedal went down: latch every currently pressed key as sustained.
    fn pedal_on(&mut self)
        requires
            old(self).wf(),
        ensures
            final(self).wf(),
            final(self).pedal(),
            final(self).pressed() == old(self).pressed(),
            final(self).sustained().len() == NUM_KEYS,
            forall|i: int|
                0 <= i < NUM_KEYS ==> final(self).sustained()[i] == (old(self).sustained()[i]
                    || old(self).pressed()[i]),
            final(self).keyboard_channel() == old(self).keyboard_channel(),
            final(self).controller_channel() == old(self).controller_channel(),
    {
        self.sustain_pedal = true;
        let mut i: usize = 0;
        while i < NUM_KEYS
            invariant
                old(self).wf(),
                i <= NUM_KEYS,
                self.sustain_pedal,
                self.pressed == old(self).pressed,
                self.keyboard_channel == old(self).keyboard_channel,
                self.controller_channel == old(self).controller_channel,
                self.sustained@.len() == NUM_KEYS,
                forall|j: int|
                    0 <= j < i ==> self.sustained@[j] == (old(self).sustained()[j]
                        || old(self).pressed()[j]),
                forall|j: int| i <= j < NUM_KEYS ==> self.sustained@[j] == old(self).sustained()[j],
            decreases NUM_KEYS - i,
        {
            let latched: bool = self.sustained[i] || self.pressed[i];
            self.sustained.set(i, latched);
            i += 1;
        }
    }

    /// The pedal lifted: every key that was held only by the pedal falls
    /// silent, exactly once, in ascending key order, and the sustain table
    /// is cleared.
    fn pedal_off(&mut self, out: &mut Vec<SynthEvent>)
        requires
            old(self).wf(),
        ensures
            final(self).wf(),
            final(out)@ == old(out)@ + pedal_off_emits(old(self).pressed(), old(self).sustained()),
            !final(self).pedal(),
            final(self).pressed() == old(self).pressed(),
            final(self).sustained().len() == NUM_KEYS,
            forall|i: int| 0 <= i < NUM_KEYS ==> !final(self).sustained()[i],
            final(self).keyboard_channel() == old(self).keyboard_channel(),
            final(self).controller_channel() == old(self).controller_channel(),
    {
        self.sustain_pedal = false;
        let mut i: usize = 0;
        while i < NUM_KEYS
            invariant
                old(self).wf(),
                i <= NUM_KEYS,
                !self.sustain_pedal,
                self.pressed == old(self).pressed,
                self.keyboard_channel == old(self).keyboard_channel,
                self.controller_channel == old(self).controller_channel,
                self.sustained@.len() == NUM_KEYS,
                forall|j: int| 0 <= j < i ==> !self.sustained@[j],
                forall|j: int| i <= j < NUM_KEYS ==> self.sustained@[j] == old(self).sustained()[j],
                out@ == old(out)@ + pedal_off_emits_upto(
                    old(self).pressed(),
                    old(self).sustained(),
                    i as int,
                ),
            decreases NUM_KEYS - i,
        {
            if self.sustained[i] && !self.pressed[i] {
                out.push(SynthEvent::NoteOff { key: i as u8 });
            }
            self.sustained.set(i, false);
            i += 1;
            proof {
                assert(out@ =~= old(out)@ + pedal_off_emits_upto(
                    old(self).pressed(),
                    old(self).sustained(),
                    i as int,
                ));
            }
        }
    }

    /// Interprets one raw MIDI event and returns the semantic events it
    /// emits, in order. Note events count only on the keyboard channel; a
    /// sustain-pedal controller on the keyboard channel drives the pedal
    /// state; any controller on the controller channel becomes a parameter
    /// change. A raw event can do both when the two channels coincide.
    pub fn handle_midi_event(&mut self, event: Event) -> (out: Vec<SynthEvent>)
        requires
            old(self).wf(),
            event_keys_in_range(event),
        ensures
            final(self).wf(),
            final(self).keyboard_channel() == old(self).keyboard_channel(),
            final(self).controller_channel() == old(self).controller_channel(),
            match event.content {
                EventContent::NoteOn { key, vel } => (if event.channel == old(
                    self,
                ).keyboard_channel() {
                    &&& out@ == key_on_emits(old(self).pressed(), old(self).sustained(), key, vel)
                    &&& final(self).pressed() == old(self).pressed().update(key as int, true)
                    &&& final(self).sustained() == (if old(self).pedal() {
                        old(self).sustained().update(key as int, true)
                    } else {
                        old(self).sustained()
                    })
                    &&& final(self).pedal() == old(self).pedal()
                } else {
                    &&& out@ == Seq::<SynthEvent>::empty()
                    &&& *final(self) == *old(self)
                }),
                EventContent::NoteOff { key, vel } => (if event.channel == old(
                    self,
                ).keyboard_channel() {
                    &&& out@ == key_off_emits(old(self).pressed(), old(self).pedal(), key)
                    &&& final(self).pressed() == old(self).pressed().update(key as int, false)
                    &&& final(self).sustained() == old(self).sustained()
                    &&& final(self).pedal() == old(self).pedal()
                } else {
                    &&& out@ == Seq::<SynthEvent>::empty()
                    &&& *final(self) == *old(self)
                }),
                EventContent::Controller { controller, value } => ({
                    let pedal_evs = if event.channel == old(self).keyboard_channel() && controller
                        == MIDI_SUSTAIN_PEDAL && value == 0 {
                        pedal_off_emits(old(self).pressed(), old(self).sustained())
                    } else {
                        Seq::<SynthEvent>::empty()
                    };
                    let param_evs = if event.channel == old(self).controller_channel() {
                        seq![SynthEvent::ParamChange { param: controller, value }]
                    } else {
                        Seq::<SynthEvent>::empty()
                    };
                    &&& out@ == pedal_evs + param_evs
                    &&& final(self).pressed() == old(self).pressed()
                    &&& (if event.channel == old(self).keyboard_channel() && controller
                        == MIDI_SUSTAIN_PEDAL {
                        if value > 0 {
                            &&& final(self).pedal()
                            &&& final(self).sustained().len() == NUM_KEYS
                            &&& (forall|i: int|
                                0 <= i < NUM_KEYS ==> final(self).sustained()[i] == (old(
                                    self,
                                ).sustained()[i] || old(self).pressed()[i]))
                        } else {
                            &&& !final(self).pedal()
                            &&& final(self).sustained().len() == NUM_KEYS
                            &&& (forall|i: int| 0 <= i < NUM_KEYS ==> !final(self).sustained()[i])
                        }
                    } else {
                        *final(self) == *old(self)
                    })
                }),
            },
    {
        let mut out: Vec<SynthEvent> = Vec::new();
        match event.content {
            EventContent::NoteOn { key, vel } => {
                if event.channel == self.keyboard_channel {
                    self.key_on(&mut out, key, vel);
                }
            },
            EventContent::NoteOff { key, vel: _ } => {
                if event.channel == self.keyboard_channel {
                    self.key_off(&mut out, key);
                }
            },
            EventContent::Controller { controller, value } => {
                if event.channel == self.keyboard_channel && controller == MIDI_SUSTAIN_PEDAL {
                    if value > 0 {
                        self.pedal_on();
                    } else {
                        self.pedal_off(&mut out);
                    }
                }
                if event.channel == self.controller_channel {
                    out.push(SynthEvent::ParamChange { param: controller, value });
                }
            },
        }
        out
    }
}

/// Retrigger: a note-on for a key that is already audible — pressed, or
/// held only by the pedal — emits exactly a note-off and then the note-on.
/// Since a note-on leaves the key pressed, two note-ons for one key without
/// a note-off between them always take this branch on the second call.
pub proof fn lemma_retrigger(pressed: Seq<bool>, sustained: Seq<bool>, key: u8, vel: u8)
    requires
        pressed[key as int] || sustained[key as int],
    ensures
        key_on_emits(pressed, sustained, key, vel) == seq![
            SynthEvent::NoteOff { key },
            SynthEvent::NoteOn { key, vel },
        ],
{
}

/// Sustain, holding part: while the pedal is down, a note-off for a
/// physically held key emits nothing.
pub proof fn lemma_pedal_holds_note(pressed: Seq<bool>, key: u8)
    ensures
        key_off_emits(pressed, true, key) == Seq::<SynthEvent>::empty(),
{
}

/// Appending one event raises its count by one and no other count.
proof fn lemma_event_count_push(s: Seq<SynthEvent>, x: SynthEvent, ev: SynthEvent)
    ensures
        event_count(s.push(x), ev) == event_count(s, ev) + if x == ev {
            1nat
        } else {
            0nat
        },
{
    assert(s.push(x).drop_last() =~= s);
    assert(s.push(x).last() == x);
}

/// The note-offs a pedal release emits for the keys below `n` contain
/// `NoteOff { key }` once when `key` is below `n`, sustained and not
/// pressed, and not at all otherwise.
proof fn lemma_pedal_off_count_upto(pressed: Seq<bool>, sustained: Seq<bool>, key: u8, n: int)
    requires
        key < NUM_KEYS,
        0 <= n <= NUM_KEYS,
    ensures
        event_count(pedal_off_emits_upto(pressed, sustained, n), SynthEvent::NoteOff { key })
            == if key < n && sustained[key as int] && !pressed[key as int] {
            1nat
        } else {
            0nat
        },
    decreases n,
{
    if n <= 0 {
    } else {
        lemma_pedal_off_count_upto(pressed, sustained, key, n - 1);
        if sustained[n - 1] && !pressed[n - 1] {
            lemma_event_count_push(
                pedal_off_emits_upto(pressed, sustained, n - 1),
                SynthEvent::NoteOff { key: (n - 1) as u8 },
                SynthEvent::NoteOff { key },
            );
        }
    }
}

/// Sustain, release part: when the pedal lifts, each key that was
/// sustained but no longer pressed gets exactly one note-off, and no other
/// key gets any.
pub proof fn lemma_pedal_release_emits_once(pressed: Seq<bool>, sustained: Seq<bool>, key: u8)
    requires
        key < NUM_KEYS,
    ensures
        event_count(pedal_off_emits(pressed, sustained), SynthEvent::NoteOff { key })
            == if sustained[key as int] && !pressed[key as int] {
            1nat
        } else {
            0nat
        },
{
    lemma_pedal_off_count_upto(pressed, sustained, key, NUM_KEYS as int);
}

} // verus!
