//! The cache as a mathematical object: a map of stamped entries, a set of
//! keys on which a fetch is in flight, and the effect of each operation.
//!
//! Times are counted in nanoseconds from an origin of the caller's choosing.
//! An entry stored at `t` is live at every `now < t + ttl`, and may be
//! collected at every `now > t + ttl`.

use vstd::prelude::*;

verus! {

/// A stored value and the time at which it was stored.
pub struct EntryModel<V> {
    pub value: V,
    pub inserted_at: nat,
}

/// What the cache answers to one caller.
pub enum Lookup<V> {
    /// A live entry exists; this is its value.
    Found(V),
    /// No live entry and no fetch in flight: the caller becomes the fetcher.
    NotFound,
    /// No live entry, and another caller is fetching: the caller waits.
    Pending,
}

/// Where one key stands at one moment.
pub enum KeyState {
    /// Nothing live is stored and nobody is fetching.
    Absent,
    /// Nothing live is stored and a fetch is in flight.
    Pending,
    /// A live entry is stored.
    Present,
}

/// The state of a cache.
pub struct CacheModel<V> {
    /// How long an entry stays live.
    pub ttl: nat,
    /// The stored entries, live or not.
    pub entries: Map<Seq<char>, EntryModel<V>>,
    /// The keys on which a fetch is in flight.
    pub pending: Set<Seq<char>>,
}

impl<V> EntryModel<V> {
    /// Whether the entry may still be served at `now`.
    pub open spec fn live_at(self, ttl: nat, now: nat) -> bool {
        now < self.inserted_at + ttl
    }

    /// Whether the entry is strictly older than `ttl` at `now`.
    pub open spec fn collectable_at(self, ttl: nat, now: nat) -> bool {
        now > self.inserted_at + ttl
    }
}

impl<V> CacheModel<V> {
    /// A cache that holds nothing.
    pub open spec fn empty(ttl: nat) -> Self {
        CacheModel { ttl, entries: Map::empty(), pending: Set::empty() }
    }

    /// Whether `key` has an entry that may be served at `now`.
    pub open spec fn has_live(self, key: Seq<char>, now: nat) -> bool {
        self.entries.contains_key(key) && self.entries[key].live_at(self.ttl, now)
    }

    /// Where `key` stands at `now`.
    pub open spec fn key_state(self, key: Seq<char>, now: nat) -> KeyState {
        if self.has_live(key, now) {
            KeyState::Present
        } else if self.pending.contains(key) {
            KeyState::Pending
        } else {
            KeyState::Absent
        }
    }

    /// The answer to a caller who asks for `key` at `now`.
    pub open spec fn lookup(self, key: Seq<char>, now: nat) -> Lookup<V> {
        if self.has_live(key, now) {
            Lookup::Found(self.entries[key].value)
        } else if self.pending.contains(key) {
            Lookup::Pending
        } else {
            Lookup::NotFound
        }
    }

    /// The cache after a caller asked for `key` at `now`: the caller who is
    /// answered `NotFound` leaves a pending slot behind.
    pub open spec fn get_cached(self, key: Seq<char>, now: nat) -> Self {
        if self.lookup(key, now) is NotFound {
            CacheModel { pending: self.pending.insert(key), ..self }
        } else {
            self
        }
    }

    /// The cache after the fetcher of `key` stored `value` at `now`.
    pub open spec fn set(self, key: Seq<char>, value: V, now: nat) -> Self {
        CacheModel {
            entries: self.entries.insert(key, EntryModel { value, inserted_at: now }),
            pending: self.pending.remove(key),
            ..self
        }
    }

    /// The cache after the fetcher of `key` gave up.
    pub open spec fn abandon(self, key: Seq<char>) -> Self {
        CacheModel { pending: self.pending.remove(key), ..self }
    }

    /// The cache after garbage collection at `now`.
    pub open spec fn gc(self, now: nat) -> Self {
        CacheModel {
            entries: Map::new(
                |key: Seq<char>|
                    self.entries.contains_key(key) && !self.entries[key].collectable_at(
                        self.ttl,
                        now,
                    ),
                |key: Seq<char>| self.entries[key],
            ),
            ..self
        }
    }

    /// The cache after one caller after another asked for `key`, at the
    /// given times.
    pub open spec fn after_lookups(self, key: Seq<char>, times: Seq<nat>) -> Self
        decreases times.len(),
    {
        if times.len() == 0 {
            self
        } else {
            self.after_lookups(key, times.drop_last()).get_cached(key, times.last())
        }
    }

    /// How many of those callers were answered `NotFound`, that is, how many
    /// fetches were started.
    pub open spec fn fetches_started(self, key: Seq<char>, times: Seq<nat>) -> nat
        decreases times.len(),
    {
        if times.len() == 0 {
            0
        } else {
            let before = self.after_lookups(key, times.drop_last());
            let earlier = self.fetches_started(key, times.drop_last());
            if before.lookup(key, times.last()) is NotFound {
                earlier + 1
            } else {
                earlier
            }
        }
    }
}

} // verus!
