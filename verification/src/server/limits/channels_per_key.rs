//! Sheds new channels once a key (for example a client's address) has as many open channels as
//! allowed. The decision to drop a channel is made once, when the channel materializes; a channel
//! that was let through is never dropped early.

use vstd::prelude::*;
use std::collections::HashMap;

verus! {

broadcast use vstd::std_specs::hash::group_hash_axioms;

/// The open-channel count of every key that has one, and the per-key limit.
///
/// A key's entry stays after its last channel closes (with count 0) until the notice that all of
/// its channels were dropped is handled; a channel that arrives in between starts a new count.
pub struct MaxChannelsPerKey {
    channels_per_key: u32,
    key_counts: HashMap<u64, u32>,
}

/// The most channels a key can have open under `limit`: the first channel of a key is always let
/// through, so a limit of 0 still admits one.
pub open spec fn ceiling(limit: u32) -> int {
    if limit == 0 {
        1
    } else {
        limit as int
    }
}

impl MaxChannelsPerKey {
    /// The open-channel count of each tracked key.
    pub closed spec fn counts(&self) -> Map<u64, u32> {
        self.key_counts@
    }

    /// The configured per-key limit.
    pub closed spec fn limit(&self) -> u32 {
        self.channels_per_key
    }

    /// No key has more channels open than the limit allows.
    pub open spec fn wf(&self) -> bool {
        forall|k: u64| #[trigger] self.counts().contains_key(k) ==> self.counts()[k] <= ceiling(
            self.limit(),
        )
    }

    /// Tracks no key yet, with at most `channels_per_key` channels per key.
    pub fn new(channels_per_key: u32) -> (m: MaxChannelsPerKey)
        ensures
            m.wf(),
            m.limit() == channels_per_key,
            m.counts() == Map::<u64, u32>::empty(),
    {
        MaxChannelsPerKey { channels_per_key, key_counts: HashMap::new() }
    }

    /// The number of tracked keys.
    pub fn tracked_keys(&self) -> (n: usize)
        ensures
            n == self.counts().len(),
    {
        proof {
            vstd::std_specs::hash::axiom_hashmap_view_finite_dom(self.key_counts);
        }
        self.key_counts.len()
    }

    /// The number of open channels of `key` (0 when it is not tracked).
    pub fn open_channels(&self, key: u64) -> (n: u32)
        ensures
            n == if self.counts().contains_key(key) {
                self.counts()[key]
            } else {
                0
            },
    {
        match self.key_counts.get(&key) {
            Some(n) => *n,
            None => 0,
        }
    }

    /// Admits a new channel of `key` and returns the key's new count, or refuses it with the key
    /// when the key is at its limit. An untracked key is always admitted; a tracked key whose
    /// channels have all closed starts over at 1 if the limit allows any channel.
    pub fn increment_channels_for_key(&mut self, key: u64) -> (res: Result<u32, u64>)
        requires
            old(self).wf(),
        ensures
            final(self).wf(),
            final(self).limit() == old(self).limit(),
            !old(self).counts().contains_key(key) ==> {
                &&& res == Ok::<u32, u64>(1)
                &&& final(self).counts() == old(self).counts().insert(key, 1)
            },
            old(self).counts().contains_key(key) ==> {
                let c = old(self).counts()[key];
                if c >= old(self).limit() {
                    &&& res == Err::<u32, u64>(key)
                    &&& final(self).counts() == old(self).counts()
                } else if c == 0 {
                    &&& res == Ok::<u32, u64>(1)
                    &&& final(self).counts() == old(self).counts().insert(key, 1)
                } else {
                    &&& res == Ok::<u32, u64>((c + 1) as u32)
                    &&& final(self).counts() == old(self).counts().insert(key, (c + 1) as u32)
                }
            },
    {
        match self.key_counts.get(&key) {
            None => {
                self.key_counts.insert(key, 1);
                Ok(1)
            },
            Some(c) => {
                let c = *c;
                if c >= self.channels_per_key {
                    Err(key)
                } else if c == 0 {
                    self.key_counts.insert(key, 1);
                    Ok(1)
                } else {
                    assert(c < self.channels_per_key);
                    self.key_counts.insert(key, c + 1);
                    Ok(c + 1)
                }
            },
        }
    }

    /// Records that a channel of `key` closed. Returns whether it was the key's last open
    /// channel, in which case the key is to be forgotten once that notice is handled.
    pub fn channel_closed(&mut self, key: u64) -> (last: bool)
        requires
            old(self).wf(),
            old(self).counts().contains_key(key),
            old(self).counts()[key] > 0,
        ensures
            final(self).wf(),
            final(self).limit() == old(self).limit(),
            final(self).counts() == old(self).counts().insert(
                key,
                (old(self).counts()[key] - 1) as u32,
            ),
            last == (old(self).counts()[key] == 1),
    {
        let c = *self.key_counts.get(&key).unwrap();
        self.key_counts.insert(key, c - 1);
        c == 1
    }

    /// Handles the notice that all channels of `key` were dropped: the key is no longer tracked.
    pub fn poll_closed_channels(&mut self, key: u64)
        requires
            old(self).wf(),
        ensures
            final(self).wf(),
            final(self).limit() == old(self).limit(),
            final(self).counts() == old(self).counts().remove(key),
    {
        self.key_counts.remove(&key);
        proof {
            assert forall|k: u64| #[trigger] self.counts().contains_key(k) implies self.counts()[k]
                <= ceiling(self.limit()) by {
                assert(old(self).counts().contains_key(k));
            }
        }
    }
}

} // verus!
