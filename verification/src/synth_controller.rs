//! The voice allocator: bounded polyphony with voice stealing.
//!
//! The allocator owns the bookkeeping of the audio callback: which channels
//! are live, which channel currently sustains each key, and which channel
//! to steal when all slots are taken. Channels are stored in a slot map
//! whose keys stay valid through churn, so the per-key references survive
//! other channels coming and going. The floating-point voices themselves
//! live with the caller, filed under the slot keys and ids this allocator
//! hands out.
//!
//! Two invariants of `wf` hold after every operation: a per-key reference
//! is never stale — it names a live channel that sustains exactly that
//! key — and the number of live channels never exceeds `MAX_CHANNELS`.

use vstd::prelude::*;

use slotmap::DefaultKey;

use crate::channel_map::{
    channel_contents, store_clear_sustained, store_entries, store_insert, store_len, store_remove,
    store_with_capacity, ChannelStore,
};
use crate::midi_controller::NUM_KEYS;

verus! {

/// A semantic synthesizer event, the interpreted form of raw MIDI.
///
/// Velocity and controller values are kept as their raw 7-bit MIDI numbers
/// (0..=127); the signal chain scales them to [0, 1] when it uses them.
#[derive(Copy, Clone, Debug, PartialEq, Eq, Structural)]
pub enum SynthEvent {
    NoteOn { key: u8, vel: u8 },
    NoteOff { key: u8 },
    ParamChange { param: u8, value: u8 },
}

/// The most channels that may sound at once.
pub const MAX_CHANNELS: usize = 64;

/// One live channel: the key it sounds, whether it still sustains that
/// key, and a serial number from the allocator's running counter.
#[derive(Copy, Clone, Debug, PartialEq, Eq, Structural)]
pub struct Channel {
    pub key: u8,
    pub is_sustained: bool,
    pub id: u64,
}

/// The stealing order: `b` is taken before `a` when `b` is sustaining and
/// `a` is not, or, at equal sustain, when `b` has the larger id. The
/// channel a full allocator steals is a maximum of this order.
pub open spec fn steal_order_le(a: Channel, b: Channel) -> bool {
    if a.is_sustained != b.is_sustained {
        b.is_sustained
    } else {
        a.id <= b.id
    }
}

/// Whether a per-key reference carries this channel id.
pub open spec fn refers_with_id(r: Option<(DefaultKey, u64)>, id: u64) -> bool {
    match r {
        Some(p) => p.1 == id,
        None => false,
    }
}

/// The result of allocating a channel: the slot key of the new channel,
/// and the slot key and last state of the channel that was stolen for it,
/// if one was.
#[derive(Copy, Clone, Debug)]
pub struct AddOutcome {
    pub added: DefaultKey,
    pub stolen: Option<(DefaultKey, Channel)>,
}

/// Well-formedness depends only on the channel contents and the reference
/// table, not on the id counter.
proof fn lemma_wf_same_core(a: SynthController, b: SynthController)
    requires
        a.wf(),
        a.channels() == b.channels(),
        a.key_refs_len() == b.key_refs_len(),
        forall|k: int| 0 <= k < NUM_KEYS ==> #[trigger] a.key_ref(k) == b.key_ref(k),
    ensures
        b.wf(),
{
    assert forall|k: int| 0 <= k < NUM_KEYS implies match #[trigger] b.key_ref(k) {
        Some(p) => {
            &&& b.channels().dom().contains(p.0)
            &&& b.channels()[p.0].key == k
            &&& b.channels()[p.0].is_sustained
            &&& b.channels()[p.0].id == p.1
        },
        None => true,
    } by {
        assert(b.key_ref(k) == a.key_ref(k));
    }
}

/// The voice allocator.
pub struct SynthController {
    channels: ChannelStore,
    sustained_voices: Vec<Option<(DefaultKey, u64)>>,
    id_ctr: u64,
}

impl SynthController {
    /// The live channels, by slot key.
    pub closed spec fn channels(&self) -> Map<DefaultKey, Channel> {
        channel_contents(self.channels)
    }

    /// The reference of key `k`: the slot key and id of the channel that
    /// currently sustains `k`, if one does.
    pub closed spec fn key_ref(&self, k: int) -> Option<(DefaultKey, u64)> {
        self.sustained_voices@[k]
    }

    /// The id the next channel will get.
    pub closed spec fn id_ctr(&self) -> u64 {
        self.id_ctr
    }

    /// The allocator's invariant, restored after every operation:
    /// - the channel map is finite and holds at most `MAX_CHANNELS` entries
    ///   (the polyphony bound);
    /// - there is at most one sustaining channel per key: each per-key
    ///   reference is `None` or names a live channel that has that key,
    ///   is sustaining, and carries the recorded id;
    /// - every live channel's key indexes the 128-entry reference table.
    pub open spec fn wf(&self) -> bool {
        &&& self.channels().dom().finite()
        &&& self.channels().dom().len() <= MAX_CHANNELS
        &&& self.key_refs_len() == NUM_KEYS
        &&& forall|k: int|
            0 <= k < NUM_KEYS ==> match #[trigger] self.key_ref(k) {
                Some(p) => {
                    &&& self.channels().dom().contains(p.0)
                    &&& self.channels()[p.0].key == k
                    &&& self.channels()[p.0].is_sustained
                    &&& self.channels()[p.0].id == p.1
                },
                None => true,
            }
        &&& forall|h: DefaultKey|
            #[trigger] self.channels().dom().contains(h) ==> self.channels()[h].key < NUM_KEYS
    }

    /// The length of the per-key reference table.
    pub closed spec fn key_refs_len(&self) -> int {
        self.sustained_voices@.len() as int
    }

    /// A fresh allocator: no channels, no key sustained, ids from zero.
    pub fn new() -> (r: Self)
        ensures
            r.wf(),
            r.channels() == Map::<DefaultKey, Channel>::empty(),
            forall|k: int| 0 <= k < NUM_KEYS ==> #[trigger] r.key_ref(k) is None,
            r.id_ctr() == 0,
    {
        let store: ChannelStore = store_with_capacity(MAX_CHANNELS + 1);
        let mut sustained_voices: Vec<Option<(DefaultKey, u64)>> = Vec::new();
        let mut i: usize = 0;
        while i < NUM_KEYS
            invariant
                i <= NUM_KEYS,
                sustained_voices@.len() == i,
                forall|j: int| 0 <= j < i ==> #[trigger] sustained_voices@[j] is None,
            decreases NUM_KEYS - i,
        {
            sustained_voices.push(None);
            i += 1;
        }
        let r = SynthController { channels: store, sustained_voices, id_ctr: 0 };
        proof {
            assert(r.channels().dom() =~= Set::<DefaultKey>::empty());
        }
        r
    }

    /// The number of live channels; at most `MAX_CHANNELS`.
    pub fn num_channels(&self) -> (n: usize)
        requires
            self.wf(),
        ensures
            n == self.channels().dom().len(),
    {
        store_len(&self.channels)
    }

    /// The live channels as a list of (slot key, channel) pairs: every
    /// live channel once, no stale entries, in no stated order.
    pub fn live_channels(&self) -> (r: Vec<(DefaultKey, Channel)>)
        requires
            self.wf(),
        ensures
            r@.len() == self.channels().dom().len(),
            forall|i: int|
                0 <= i < r@.len() ==> self.channels().dom().contains((#[trigger] r@[i]).0)
                    && self.channels()[r@[i].0] == r@[i].1,
            forall|i: int, j: int|
                0 <= i < j < r@.len() ==> (#[trigger] r@[i]).0 != (#[trigger] r@[j]).0,
            forall|k: DefaultKey|
                self.channels().dom().contains(k) ==> exists|i: int|
                    0 <= i < r@.len() && (#[trigger] r@[i]).0 == k,
    {
        store_entries(&self.channels)
    }

    /// The slot key of the channel currently sustaining `key`, if any.
    pub fn key_to_channel(&self, key: u8) -> (r: Option<DefaultKey>)
        requires
            self.wf(),
            key < NUM_KEYS,
        ensures
            r == match self.key_ref(key as int) {
                Some(p) => Some(p.0),
                None => None::<DefaultKey>,
            },
    {
        match self.sustained_voices[key as usize] {
            Some(p) => Some(p.0),
            None => None,
        }
    }

    /// Removes the channel under `key`, if live, and returns it. If the
    /// removed channel was sustaining and the reference of its key still
    /// carries its id, that reference is cleared.
    pub fn remove_channel(&mut self, key: DefaultKey) -> (r: Option<Channel>)
        requires
            old(self).wf(),
        ensures
            final(self).wf(),
            final(self).id_ctr() == old(self).id_ctr(),
            r == (if old(self).channels().dom().contains(key) {
                Some(old(self).channels()[key])
            } else {
                None::<Channel>
            }),
            match r {
                Some(c) => {
                    &&& final(self).channels() == old(self).channels().remove(key)
                    &&& (forall|k: int|
                        0 <= k < NUM_KEYS && k != c.key ==> #[trigger] final(self).key_ref(k)
                            == old(self).key_ref(k))
                    &&& final(self).key_ref(c.key as int) == (if c.is_sustained && refers_with_id(
                        old(self).key_ref(c.key as int),
                        c.id,
                    ) {
                        None::<(DefaultKey, u64)>
                    } else {
                        old(self).key_ref(c.key as int)
                    })
                },
                None => {
                    &&& final(self).channels() == old(self).channels()
                    &&& (forall|k: int|
                        0 <= k < NUM_KEYS ==> #[trigger] final(self).key_ref(k) == old(
                            self,
                        ).key_ref(k))
                },
            },
    {
        let removed: Option<Channel> = store_remove(&mut self.channels, key);
        match removed {
            Some(c) => {
                proof {
                    assert(old(self).channels().dom().contains(key));
                    assert(c.key < NUM_KEYS);
                }
                if c.is_sustained {
                    let slot: Option<(DefaultKey, u64)> = self.sustained_voices[c.key as usize];
                    match slot {
                        Some(p) => {
                            if p.1 == c.id {
                                self.sustained_voices.set(c.key as usize, None);
                            }
                        },
                        None => {},
                    }
                }
                proof {
                    let om = old(self).channels();
                    assert(self.channels().dom() =~= om.dom().remove(key));
                    assert forall|k: int| 0 <= k < NUM_KEYS implies match #[trigger] self.key_ref(
                        k,
                    ) {
                        Some(p) => {
                            &&& self.channels().dom().contains(p.0)
                            &&& self.channels()[p.0].key == k
                            &&& self.channels()[p.0].is_sustained
                            &&& self.channels()[p.0].id == p.1
                        },
                        None => true,
                    } by {
                        match self.key_ref(k) {
                            Some(p) => {
                                assert(old(self).key_ref(k) == Some(p));
                                assert(om.dom().contains(p.0) && om[p.0].key == k
                                    && om[p.0].is_sustained && om[p.0].id == p.1);
                                if p.0 == key {
                                    assert(c == om[key]);
                                    assert(c.is_sustained && c.key == k && c.id == p.1);
                                    assert(self.key_ref(k) is None);
                                }
                            },
                            None => {},
                        }
                    }
                    assert forall|h: DefaultKey|
                        #[trigger] self.channels().dom().contains(h) implies self.channels()[h].key
                        < NUM_KEYS by {
                        assert(om.dom().contains(h));
                    }
                    assert(self.wf());
                }
                Some(c)
            },
            None => {
                proof {
                    assert forall|k: int| 0 <= k < NUM_KEYS implies #[trigger] old(self).key_ref(k)
                        == self.key_ref(k) by {}
                    lemma_wf_same_core(*old(self), *self);
                }
                None
            },
        }
    }

    /// Allocates a channel for `key`. When the allocator is full, a
    /// channel maximal in the stealing order is removed first, so the
    /// count never exceeds `MAX_CHANNELS`. The new channel sustains `key`,
    /// takes the next id, and `key`'s reference is pointed at it.
    pub fn add_channel(&mut self, key: u8) -> (r: AddOutcome)
        requires
            old(self).wf(),
            key < NUM_KEYS,
        ensures
            final(self).wf(),
            final(self).id_ctr() == (if old(self).id_ctr() == u64::MAX {
                0
            } else {
                old(self).id_ctr() + 1
            }),
            final(self).channels().dom().contains(r.added),
            final(self).channels()[r.added] == (Channel {
                key,
                is_sustained: true,
                id: old(self).id_ctr(),
            }),
            final(self).key_ref(key as int) == Some((r.added, old(self).id_ctr())),
            final(self).channels().dom().len() <= old(self).channels().dom().len() + 1,
            (if old(self).channels().dom().len() < MAX_CHANNELS {
                &&& r.stolen is None
                &&& !old(self).channels().dom().contains(r.added)
                &&& final(self).channels() == old(self).channels().insert(
                    r.added,
                    (Channel { key, is_sustained: true, id: old(self).id_ctr() }),
                )
                &&& (forall|k: int|
                    0 <= k < NUM_KEYS && k != key ==> #[trigger] final(self).key_ref(k) == old(
                        self,
                    ).key_ref(k))
            } else {
                match r.stolen {
                    Some(s) => {
                        &&& old(self).channels().dom().contains(s.0)
                        &&& !old(self).channels().remove(s.0).dom().contains(r.added)
                        &&& s.1 == old(self).channels()[s.0]
                        &&& (forall|h: DefaultKey|
                            #[trigger] old(self).channels().dom().contains(h) ==> steal_order_le(
                                old(self).channels()[h],
                                s.1,
                            ))
                        &&& final(self).channels() == old(self).channels().remove(s.0).insert(
                            r.added,
                            (Channel { key, is_sustained: true, id: old(self).id_ctr() }),
                        )
                        &&& (forall|k: int|
                            0 <= k < NUM_KEYS && k != key && k != s.1.key
                                ==> #[trigger] final(self).key_ref(k) == old(self).key_ref(k))
                        &&& (s.1.key != key ==> final(self).key_ref(s.1.key as int) == (
                        if s.1.is_sustained && refers_with_id(
                            old(self).key_ref(s.1.key as int),
                            s.1.id,
                        ) {
                            None::<(DefaultKey, u64)>
                        } else {
                            old(self).key_ref(s.1.key as int)
                        }))
                    },
                    None => false,
                }
            }),
    {
        let id: u64 = self.id_ctr;
        self.id_ctr = self.id_ctr.wrapping_add(1);
        proof {
            assert forall|k: int| 0 <= k < NUM_KEYS implies #[trigger] old(self).key_ref(k)
                == self.key_ref(k) by {}
            lemma_wf_same_core(*old(self), *self);
        }

        let mut stolen: Option<(DefaultKey, Channel)> = None;
        if store_len(&self.channels) == MAX_CHANNELS {
            let entries: Vec<(DefaultKey, Channel)> = store_entries(&self.channels);
            let mut best: usize = 0;
            let mut i: usize = 1;
            while i < entries.len()
                invariant
                    0 < entries.len(),
                    best < i,
                    i <= entries.len(),
                    forall|j: int|
                        0 <= j < i ==> steal_order_le(
                            (#[trigger] entries@[j]).1,
                            entries@[best as int].1,
                        ),
                decreases entries.len() - i,
            {
                let cur: Channel = entries[i].1;
                let cb: Channel = entries[best].1;
                let better: bool = if cur.is_sustained != cb.is_sustained {
                    cur.is_sustained
                } else {
                    cur.id > cb.id
                };
                if better {
                    best = i;
                }
                i += 1;
            }
            let victim: (DefaultKey, Channel) = entries[best];
            proof {
                assert forall|h: DefaultKey|
                    #[trigger] old(self).channels().dom().contains(h) implies steal_order_le(
                    old(self).channels()[h],
                    victim.1,
                ) by {
                    let w = choose|w: int| 0 <= w < entries@.len() && entries@[w].0 == h;
                    assert(steal_order_le(entries@[w].1, entries@[best as int].1));
                }
            }
            self.remove_channel(victim.0);
            stolen = Some(victim);
        }

        let ghost mid = *self;
        let ch = Channel { key, is_sustained: true, id };
        let added: DefaultKey = store_insert(&mut self.channels, ch);
        self.sustained_voices.set(key as usize, Some((added, id)));
        proof {
            assert(mid.wf());
            assert(self.channels() == mid.channels().insert(added, ch));
            assert(self.channels().dom() =~= mid.channels().dom().insert(added));
            assert forall|k: int| 0 <= k < NUM_KEYS && k != key implies #[trigger] self.key_ref(k)
                == mid.key_ref(k) by {}
            assert(self.key_ref(key as int) == Some((added, id)));
            assert forall|k: int| 0 <= k < NUM_KEYS implies match #[trigger] self.key_ref(k) {
                Some(p) => {
                    &&& self.channels().dom().contains(p.0)
                    &&& self.channels()[p.0].key == k
                    &&& self.channels()[p.0].is_sustained
                    &&& self.channels()[p.0].id == p.1
                },
                None => true,
            } by {
                if k == key as int {
                    assert(self.channels()[added] == ch);
                } else {
                    match mid.key_ref(k) {
                        Some(p) => {
                            assert(mid.channels().dom().contains(p.0));
                            assert(p.0 != added);
                            assert(self.channels()[p.0] == mid.channels()[p.0]);
                        },
                        None => {},
                    }
                }
            }
            assert forall|h: DefaultKey|
                #[trigger] self.channels().dom().contains(h) implies self.channels()[h].key
                < NUM_KEYS by {
                if h != added {
                    assert(mid.channels().dom().contains(h));
                }
            }
            assert forall|k: int| 0 <= k < NUM_KEYS implies #[trigger] mid.key_ref(k) == old(
                self,
            ).key_ref(k) || (stolen matches Some(s) && (k == s.1.key || k == key)) by {}
        }
        AddOutcome { added, stolen }
    }

    /// A note-off for `key`: if a channel sustains it, that channel's
    /// sustain flag is cleared, the key's reference is dropped, and the
    /// channel's slot key is returned so the caller can start its
    /// voice's release.
    pub fn note_off(&mut self, key: u8) -> (r: Option<DefaultKey>)
        requires
            old(self).wf(),
            key < NUM_KEYS,
        ensures
            final(self).wf(),
            final(self).id_ctr() == old(self).id_ctr(),
            match old(self).key_ref(key as int) {
                Some(p) => {
                    &&& r == Some(p.0)
                    &&& final(self).channels() == old(self).channels().insert(
                        p.0,
                        (Channel {
                            key: old(self).channels()[p.0].key,
                            is_sustained: false,
                            id: old(self).channels()[p.0].id,
                        }),
                    )
                    &&& final(self).key_ref(key as int) is None
                    &&& (forall|k: int|
                        0 <= k < NUM_KEYS && k != key ==> #[trigger] final(self).key_ref(k) == old(
                            self,
                        ).key_ref(k))
                },
                None => {
                    &&& r is None
                    &&& final(self).channels() == old(self).channels()
                    &&& (forall|k: int|
                        0 <= k < NUM_KEYS ==> #[trigger] final(self).key_ref(k) == old(
                            self,
                        ).key_ref(k))
                },
            },
    {
        let slot: Option<(DefaultKey, u64)> = self.sustained_voices[key as usize];
        match slot {
            Some(p) => {
                proof {
                    assert(old(self).key_ref(key as int) == Some(p));
                    assert(old(self).channels().dom().contains(p.0));
                }
                store_clear_sustained(&mut self.channels, p.0);
                self.sustained_voices.set(key as usize, None);
                proof {
                    let om = old(self).channels();
                    assert(self.channels().dom() =~= om.dom());
                    assert forall|k: int| 0 <= k < NUM_KEYS && k != key implies #[trigger] self.key_ref(
                        k,
                    ) == old(self).key_ref(k) by {}
                    assert forall|k: int| 0 <= k < NUM_KEYS implies match #[trigger] self.key_ref(k) {
                        Some(q) => {
                            &&& self.channels().dom().contains(q.0)
                            &&& self.channels()[q.0].key == k
                            &&& self.channels()[q.0].is_sustained
                            &&& self.channels()[q.0].id == q.1
                        },
                        None => true,
                    } by {
                        if k != key {
                            match self.key_ref(k) {
                                Some(q) => {
                                    assert(old(self).key_ref(k) == Some(q));
                                    assert(om.dom().contains(q.0) && om[q.0].key == k);
                                    assert(om[p.0].key == key);
                                    assert(q.0 != p.0);
                                    assert(self.channels()[q.0] == om[q.0]);
                                },
                                None => {},
                            }
                        }
                    }
                    assert forall|h: DefaultKey|
                        #[trigger] self.channels().dom().contains(h) implies self.channels()[h].key
                        < NUM_KEYS by {
                        assert(om.dom().contains(h));
                        if h == p.0 {
                            assert(self.channels()[h].key == om[p.0].key);
                        }
                    }
                }
                Some(p.0)
            },
            None => {
                proof {
                    assert forall|k: int| 0 <= k < NUM_KEYS implies #[trigger] old(self).key_ref(k)
                        == self.key_ref(k) by {}
                    lemma_wf_same_core(*old(self), *self);
                }
                None
            },
        }
    }
}

/// At most one sustaining channel per key: in any well-formed allocator
/// state, a key's reference is `None` or names a live channel that has
/// that key and is sustaining.
pub proof fn lemma_at_most_one_sustaining_per_key(s: &SynthController, k: int)
    requires
        s.wf(),
        0 <= k < NUM_KEYS,
    ensures
        match s.key_ref(k) {
            Some(p) => s.channels().dom().contains(p.0) && s.channels()[p.0].key == k
                && s.channels()[p.0].is_sustained,
            None => true,
        },
{
}

/// The polyphony bound: a well-formed allocator never holds more than
/// `MAX_CHANNELS` live channels, and every operation returns a
/// well-formed allocator.
pub proof fn lemma_polyphony_bound(s: &SynthController)
    requires
        s.wf(),
    ensures
        s.channels().dom().len() <= MAX_CHANNELS,
{
}

} // verus!
