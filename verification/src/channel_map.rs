//! The trusted face of the channel store.
//!
//! The voice allocator keeps its channels in a `slotmap::DenseSlotMap`,
//! which hands out stable keys that survive insertions and removals of
//! other entries. Verus does not read that crate, so this module declares
//! the key type, holds the map itself opaquely, and wraps the handful of
//! operations the allocator calls. Each wrapper's contract states, over
//! the uninterpreted contents `channel_contents`, what the crate's source
//! does: nothing here is proved, it is the ground the allocator's proofs
//! stand on.

use vstd::prelude::*;

use slotmap::{DefaultKey, DenseSlotMap};

use crate::synth_controller::Channel;

verus! {

#[verifier::external_type_specification]
#[verifier::external_body]
pub struct ExDefaultKey(DefaultKey);

/// The channel store: a `DenseSlotMap` keyed by `DefaultKey`. Verus
/// refuses the map's generic declaration (its key parameter is bound by
/// the crate's `Key` trait), so the map is held opaquely in this struct
/// and `channel_contents` names what it holds.
#[verifier::external_body]
pub struct ChannelStore {
    inner: DenseSlotMap<DefaultKey, Channel>,
}

/// What a channel store holds: the map from live slot keys to channels.
pub uninterp spec fn channel_contents(m: ChannelStore) -> Map<DefaultKey, Channel>;

/// Relies on `DenseSlotMap::with_capacity`: a fresh map is empty.
#[verifier::external_body]
pub(crate) fn store_with_capacity(capacity: usize) -> (r: ChannelStore)
    ensures
        channel_contents(r).dom() == Set::<DefaultKey>::empty(),
{
    ChannelStore { inner: DenseSlotMap::with_capacity(capacity) }
}

/// Relies on `DenseSlotMap::len`: the number of stored values.
#[verifier::external_body]
pub(crate) fn store_len(m: &ChannelStore) -> (n: usize)
    ensures
        channel_contents(*m).dom().finite() ==> n == channel_contents(*m).dom().len(),
{
    m.inner.len()
}

/// Relies on `DenseSlotMap::insert`: stores the value under a key that no
/// live entry uses and returns that key. The call panics only on a map of
/// about 2^32 entries, which the precondition rules out.
#[verifier::external_body]
pub(crate) fn store_insert(m: &mut ChannelStore, ch: Channel) -> (k: DefaultKey)
    requires
        channel_contents(*old(m)).dom().finite(),
        channel_contents(*old(m)).dom().len() < 0xffff_fffe,
    ensures
        !channel_contents(*old(m)).contains_key(k),
        channel_contents(*final(m)) == channel_contents(*old(m)).insert(k, ch),
{
    m.inner.insert(ch)
}

/// Relies on `DenseSlotMap::remove`: takes out the value of a live key and
/// returns it; a key that is not live leaves the map unchanged.
#[verifier::external_body]
pub(crate) fn store_remove(m: &mut ChannelStore, key: DefaultKey) -> (r: Option<Channel>)
    ensures
        r == (if channel_contents(*old(m)).contains_key(key) {
            Some(channel_contents(*old(m))[key])
        } else {
            None::<Channel>
        }),
        channel_contents(*final(m)) == (if channel_contents(*old(m)).contains_key(key) {
            channel_contents(*old(m)).remove(key)
        } else {
            channel_contents(*old(m))
        }),
{
    m.inner.remove(key)
}

/// Relies on `DenseSlotMap::get_mut`: in-place access to the value of a
/// live key, here used to clear its sustain flag.
#[verifier::external_body]
pub(crate) fn store_clear_sustained(m: &mut ChannelStore, key: DefaultKey) -> (found: bool)
    ensures
        found == channel_contents(*old(m)).contains_key(key),
        channel_contents(*final(m)) == (if channel_contents(*old(m)).contains_key(key) {
            channel_contents(*old(m)).insert(
                key,
                (Channel {
                    key: channel_contents(*old(m))[key].key,
                    is_sustained: false,
                    id: channel_contents(*old(m))[key].id,
                }),
            )
        } else {
            channel_contents(*old(m))
        }),
{
    match m.inner.get_mut(key) {
        Some(c) => {
            c.is_sustained = false;
            true
        },
        None => false,
    }
}

/// Relies on `DenseSlotMap::iter`: visits every live entry exactly once,
/// in no stated order.
#[verifier::external_body]
pub(crate) fn store_entries(m: &ChannelStore) -> (r: Vec<(DefaultKey, Channel)>)
    ensures
        channel_contents(*m).dom().finite() ==> r@.len() == channel_contents(*m).dom().len(),
        forall|i: int|
            0 <= i < r@.len() ==> channel_contents(*m).contains_key((#[trigger] r@[i]).0)
                && channel_contents(*m)[r@[i].0] == r@[i].1,
        forall|i: int, j: int|
            0 <= i < j < r@.len() ==> (#[trigger] r@[i]).0 != (#[trigger] r@[j]).0,
        forall|k: DefaultKey|
            channel_contents(*m).contains_key(k) ==> exists|i: int|
                0 <= i < r@.len() && (#[trigger] r@[i]).0 == k,
{
    m.inner.iter().map(|(k, c)| (k, *c)).collect()
}

} // verus!
