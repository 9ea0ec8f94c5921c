//! A cache from keys to shared values whose entries expire, and in which at
//! most one caller at a time fetches the value of a key.
//!
//! The cache decides; its driver waits. A caller who is answered `Pending`
//! suspends until the fetcher of that key has called `set` or `abandon`, and
//! then asks again.

use crate::cache_model::{CacheModel, EntryModel, Lookup};
use crate::error::FetchError;
use std::sync::Arc;
use vstd::prelude::*;

verus! {

/// One stored value.
pub struct CacheEntry<V> {
    key: String,
    value: Arc<V>,
    inserted_at: u128,
}

/// The right, and the duty, to settle the fetch of one key: it is handed to
/// the single caller who fetches, and consumed by `set` or `abandon`.
#[derive(Debug)]
pub struct WriteHandle {
    key: String,
}

/// The answer of the cache to one caller.
#[derive(Debug)]
pub enum GetCachedResult<V> {
    /// A live entry exists.
    Found(Arc<V>),
    /// Nothing live is stored and nobody is fetching: the caller fetches.
    NotFound(WriteHandle),
    /// Another caller is fetching: wait for its `set` or `abandon`, then ask
    /// again.
    Pending,
}

/// The cache.
pub struct GenericCache<V> {
    ttl: u128,
    entries: Vec<CacheEntry<V>>,
    pending: Vec<String>,
}

impl View for WriteHandle {
    type V = Seq<char>;

    /// The key that the handle is for.
    closed spec fn view(&self) -> Seq<char> {
        self.key@
    }
}

impl<V> CacheEntry<V> {
    spec fn model(self) -> EntryModel<V> {
        EntryModel { value: *self.value, inserted_at: self.inserted_at as nat }
    }
}

spec fn has_key<V>(entries: Seq<CacheEntry<V>>, key: Seq<char>) -> bool {
    exists|i: int| 0 <= i < entries.len() && (#[trigger] entries[i]).key@ == key
}

spec fn index_of<V>(entries: Seq<CacheEntry<V>>, key: Seq<char>) -> int {
    choose|i: int| 0 <= i < entries.len() && (#[trigger] entries[i]).key@ == key
}

spec fn distinct_keys<V>(entries: Seq<CacheEntry<V>>) -> bool {
    forall|i: int, j: int|
        0 <= i < j < entries.len() ==> (#[trigger] entries[i]).key@ != (#[trigger] entries[j]).key@
}

spec fn entries_map<V>(entries: Seq<CacheEntry<V>>) -> Map<Seq<char>, EntryModel<V>> {
    Map::new(
        |key: Seq<char>| has_key(entries, key),
        |key: Seq<char>| entries[index_of(entries, key)].model(),
    )
}

spec fn has_slot(pending: Seq<String>, key: Seq<char>) -> bool {
    exists|i: int| 0 <= i < pending.len() && (#[trigger] pending[i])@ == key
}

spec fn distinct_slots(pending: Seq<String>) -> bool {
    forall|i: int, j: int|
        0 <= i < j < pending.len() ==> (#[trigger] pending[i])@ != (#[trigger] pending[j])@
}

spec fn slots_set(pending: Seq<String>) -> Set<Seq<char>> {
    Set::new(|key: Seq<char>| has_slot(pending, key))
}

proof fn lemma_entry_at<V>(entries: Seq<CacheEntry<V>>, i: int)
    requires
        distinct_keys(entries),
        0 <= i < entries.len(),
    ensures
        entries_map(entries).contains_key(entries[i].key@),
        entries_map(entries)[entries[i].key@] == entries[i].model(),
{
    let key = entries[i].key@;
    assert(has_key(entries, key));
    let j = index_of(entries, key);
    assert(j == i);
}

proof fn lemma_entries_push<V>(entries: Seq<CacheEntry<V>>, entry: CacheEntry<V>)
    requires
        distinct_keys(entries),
        !has_key(entries, entry.key@),
    ensures
        distinct_keys(entries.push(entry)),
        entries_map(entries.push(entry)) == entries_map(entries).insert(entry.key@, entry.model()),
{
    let after = entries.push(entry);
    assert forall|i: int, j: int| 0 <= i < j < after.len() implies (#[trigger] after[i]).key@ != (
    #[trigger] after[j]).key@ by {
        if j == entries.len() {
            assert(entries[i].key@ != entry.key@);
        } else {
            assert(entries[i].key@ != entries[j].key@);
        }
    }
    let want = entries_map(entries).insert(entry.key@, entry.model());
    assert forall|key: Seq<char>| entries_map(after).contains_key(key) == want.contains_key(
        key,
    ) by {
        if has_key(after, key) {
            let i = index_of(after, key);
            if i < entries.len() {
                assert(entries[i].key@ == key);
            }
        }
        if has_key(entries, key) {
            let i = index_of(entries, key);
            assert(after[i].key@ == key);
        }
        if key == entry.key@ {
            assert(after[entries.len() as int].key@ == key);
        }
    }
    assert forall|key: Seq<char>| entries_map(after).contains_key(key) implies entries_map(
        after,
    )[key] == want[key] by {
        let i = index_of(after, key);
        lemma_entry_at(after, i);
        if i < entries.len() {
            lemma_entry_at(entries, i);
        }
    }
    assert(entries_map(after) =~= want);
}

proof fn lemma_entries_remove<V>(entries: Seq<CacheEntry<V>>, i: int)
    requires
        distinct_keys(entries),
        0 <= i < entries.len(),
    ensures
        distinct_keys(entries.remove(i)),
        entries_map(entries.remove(i)) == entries_map(entries).remove(entries[i].key@),
{
    let after = entries.remove(i);
    let gone = entries[i].key@;
    assert forall|a: int, b: int| 0 <= a < b < after.len() implies (#[trigger] after[a]).key@ != (
    #[trigger] after[b]).key@ by {
        let a0 = if a < i { a } else { a + 1 };
        let b0 = if b < i { b } else { b + 1 };
        assert(entries[a0].key@ != entries[b0].key@);
    }
    let want = entries_map(entries).remove(gone);
    assert forall|key: Seq<char>| entries_map(after).contains_key(key) == want.contains_key(
        key,
    ) by {
        if has_key(after, key) {
            let a = index_of(after, key);
            let a0 = if a < i { a } else { a + 1 };
            assert(entries[a0].key@ == key);
            if key == gone {
                if a0 < i {
                    assert(entries[a0].key@ != entries[i].key@);
                } else {
                    assert(entries[i].key@ != entries[a0].key@);
                }
            }
        }
        if has_key(entries, key) && key != gone {
            let a0 = index_of(entries, key);
            let a = if a0 < i { a0 } else { a0 - 1 };
            assert(after[a].key@ == key);
        }
    }
    assert forall|key: Seq<char>| entries_map(after).contains_key(key) implies entries_map(
        after,
    )[key] == want[key] by {
        let a = index_of(after, key);
        let a0 = if a < i { a } else { a + 1 };
        lemma_entry_at(after, a);
        lemma_entry_at(entries, a0);
    }
    assert(entries_map(after) =~= want);
}

proof fn lemma_entries_len<V>(entries: Seq<CacheEntry<V>>)
    requires
        distinct_keys(entries),
    ensures
        entries_map(entries).dom().finite(),
        entries_map(entries).len() == entries.len(),
    decreases entries.len(),
{
    if entries.len() == 0 {
        assert(entries_map(entries) =~= Map::empty());
    } else {
        let last = entries.len() - 1;
        lemma_entries_remove(entries, last);
        lemma_entries_len(entries.remove(last));
        lemma_entry_at(entries, last);
        let key = entries[last].key@;
        assert(entries_map(entries).dom() =~= entries_map(entries.remove(last)).dom().insert(key));
    }
}

proof fn lemma_slots_push(pending: Seq<String>, slot: String)
    requires
        distinct_slots(pending),
        !has_slot(pending, slot@),
    ensures
        distinct_slots(pending.push(slot)),
        slots_set(pending.push(slot)) == slots_set(pending).insert(slot@),
{
    let after = pending.push(slot);
    assert forall|i: int, j: int| 0 <= i < j < after.len() implies (#[trigger] after[i])@ != (
    #[trigger] after[j])@ by {
        if j == pending.len() {
            assert(pending[i]@ != slot@);
        } else {
            assert(pending[i]@ != pending[j]@);
        }
    }
    let want = slots_set(pending).insert(slot@);
    assert forall|key: Seq<char>| slots_set(after).contains(key) == want.contains(key) by {
        if has_slot(after, key) {
            let i = choose|i: int| 0 <= i < after.len() && (#[trigger] after[i])@ == key;
            if i < pending.len() {
                assert(pending[i]@ == key);
            }
        }
        if has_slot(pending, key) {
            let i = choose|i: int| 0 <= i < pending.len() && (#[trigger] pending[i])@ == key;
            assert(after[i]@ == key);
        }
        if key == slot@ {
            assert(after[pending.len() as int]@ == key);
        }
    }
    assert(slots_set(after) =~= want);
}

proof fn lemma_slots_remove(pending: Seq<String>, i: int)
    requires
        distinct_slots(pending),
        0 <= i < pending.len(),
    ensures
        distinct_slots(pending.remove(i)),
        slots_set(pending.remove(i)) == slots_set(pending).remove(pending[i]@),
{
    let after = pending.remove(i);
    let gone = pending[i]@;
    assert forall|a: int, b: int| 0 <= a < b < after.len() implies (#[trigger] after[a])@ != (
    #[trigger] after[b])@ by {
        let a0 = if a < i { a } else { a + 1 };
        let b0 = if b < i { b } else { b + 1 };
        assert(pending[a0]@ != pending[b0]@);
    }
    let want = slots_set(pending).remove(gone);
    assert forall|key: Seq<char>| slots_set(after).contains(key) == want.contains(key) by {
        if has_slot(after, key) {
            let a = choose|a: int| 0 <= a < after.len() && (#[trigger] after[a])@ == key;
            let a0 = if a < i { a } else { a + 1 };
            assert(pending[a0]@ == key);
            if key == gone {
                if a0 < i {
                    assert(pending[a0]@ != pending[i]@);
                } else {
                    assert(pending[i]@ != pending[a0]@);
                }
            }
        }
        if has_slot(pending, key) && key != gone {
            let a0 = choose|a: int| 0 <= a < pending.len() && (#[trigger] pending[a])@ == key;
            let a = if a0 < i { a0 } else { a0 - 1 };
            assert(after[a]@ == key);
        }
    }
    assert(slots_set(after) =~= want);
}

/// `Arc::clone`: one more handle to the same shared value. Trusted: the new
/// handle points at the value that the old one points at.
#[verifier::external_body]
pub(crate) fn share<V>(value: &Arc<V>) -> (shared: Arc<V>)
    ensures
        shared == *value,
{
    Arc::clone(value)
}

impl WriteHandle {
    /// The key whose fetch the handle settles.
    pub fn key(&self) -> (key: &str)
        ensures
            key@ == self@,
    {
        self.key.as_str()
    }
}

impl<V> GenericCache<V> {
    #[verifier::type_invariant]
    spec fn well_formed(&self) -> bool {
        distinct_keys(self.entries@) && distinct_slots(self.pending@)
    }

    /// The state of the cache.
    pub closed spec fn view(&self) -> CacheModel<V> {
        CacheModel {
            ttl: self.ttl as nat,
            entries: entries_map(self.entries@),
            pending: slots_set(self.pending@),
        }
    }

    /// An empty cache whose entries stay live for `ttl` nanoseconds.
    pub fn with_expiration(ttl: u128) -> (cache: Self)
        ensures
            cache@ == CacheModel::<V>::empty(ttl as nat),
    {
        let cache = GenericCache { ttl, entries: Vec::new(), pending: Vec::new() };
        proof {
            assert(entries_map(cache.entries@) =~= Map::empty());
            assert(slots_set(cache.pending@) =~= Set::empty());
        }
        cache
    }

    /// How long an entry stays live, in nanoseconds.
    pub fn ttl(&self) -> (ttl: u128)
        ensures
            ttl == self@.ttl,
    {
        self.ttl
    }

    /// Moves the pending slots out, to be changed and put back.
    fn take_slots(&mut self) -> (slots: Vec<String>)
        ensures
            slots@ == old(self).pending@,
            final(self).pending@ == Seq::<String>::empty(),
            final(self).entries == old(self).entries,
            final(self).ttl == old(self).ttl,
    {
        proof {
            use_type_invariant(&*self);
        }
        let mut slots: Vec<String> = Vec::new();
        core::mem::swap(&mut self.pending, &mut slots);
        slots
    }

    /// Moves the entries out, to be changed and put back.
    fn take_entries(&mut self) -> (entries: Vec<CacheEntry<V>>)
        ensures
            entries@ == old(self).entries@,
            final(self).entries@ == Seq::<CacheEntry<V>>::empty(),
            final(self).pending == old(self).pending,
            final(self).ttl == old(self).ttl,
    {
        proof {
            use_type_invariant(&*self);
        }
        let mut entries: Vec<CacheEntry<V>> = Vec::new();
        core::mem::swap(&mut self.entries, &mut entries);
        entries
    }

    /// Where the entry of `key` stands, if it has one.
    fn find_entry(&self, key: &String) -> (found: Option<usize>)
        ensures
            match found {
                Some(i) => i < self.entries@.len() && self.entries@[i as int].key@ == key@,
                None => !has_key(self.entries@, key@),
            },
    {
        let mut i: usize = 0;
        while i < self.entries.len()
            invariant
                0 <= i <= self.entries@.len(),
                forall|j: int| 0 <= j < i ==> (#[trigger] self.entries@[j]).key@ != key@,
            decreases self.entries@.len() - i,
        {
            if self.entries[i].key == *key {
                return Some(i);
            }
            i = i + 1;
        }
        None
    }

    /// Where the pending slot of `key` stands, if it has one.
    fn find_slot(&self, key: &String) -> (found: Option<usize>)
        ensures
            match found {
                Some(i) => i < self.pending@.len() && self.pending@[i as int]@ == key@,
                None => !has_slot(self.pending@, key@),
            },
    {
        let mut i: usize = 0;
        while i < self.pending.len()
            invariant
                0 <= i <= self.pending@.len(),
                forall|j: int| 0 <= j < i ==> (#[trigger] self.pending@[j])@ != key@,
            decreases self.pending@.len() - i,
        {
            if self.pending[i] == *key {
                return Some(i);
            }
            i = i + 1;
        }
        None
    }
}

impl<V> GenericCache<V> {
    /// Answers a caller who asks for `key` at `now`.
    ///
    /// A live entry is served at once. Otherwise the caller waits if a fetch
    /// of `key` is in flight, and else becomes its fetcher: a pending slot is
    /// installed, so that every later caller is answered `Pending` until the
    /// handle is consumed.
    pub fn get_cached(&mut self, key: &str, now: u128) -> (res: GetCachedResult<V>)
        ensures
            final(self)@ == old(self)@.get_cached(key@, now as nat),
            match res {
                GetCachedResult::Found(value) => old(self)@.lookup(key@, now as nat)
                    == Lookup::Found(*value),
                GetCachedResult::NotFound(handle) => old(self)@.lookup(key@, now as nat)
                    is NotFound && handle@ == key@,
                GetCachedResult::Pending => old(self)@.lookup(key@, now as nat) is Pending,
            },
    {
        proof {
            use_type_invariant(&*self);
        }
        let owned = key.to_owned();
        match self.find_entry(&owned) {
            Some(i) => {
                proof {
                    lemma_entry_at(self.entries@, i as int);
                }
                let entry = &self.entries[i];
                if is_live(entry.inserted_at, self.ttl, now) {
                    return GetCachedResult::Found(share(&entry.value));
                }
            },
            None => {},
        }
        match self.find_slot(&owned) {
            Some(_) => GetCachedResult::Pending,
            None => {
                let slot = owned.clone();
                proof {
                    lemma_slots_push(self.pending@, slot);
                }
                let mut slots = self.take_slots();
                slots.push(slot);
                self.pending = slots;
                GetCachedResult::NotFound(WriteHandle { key: owned })
            },
        }
    }

    /// Stores `value` as the entry of the handle's key, stamped `now`, and
    /// releases the pending slot: every caller who waited on the key finds
    /// the new entry when it asks again. An older entry of the key is
    /// replaced as a whole.
    ///
    /// Fails, and changes nothing, if no fetch of the key is in flight.
    pub fn set(&mut self, handle: WriteHandle, value: Arc<V>, now: u128) -> (res: Result<
        (),
        FetchError,
    >)
        ensures
            old(self)@.pending.contains(handle@) ==> res is Ok && final(self)@ == old(self)@.set(
                handle@,
                *value,
                now as nat,
            ),
            !old(self)@.pending.contains(handle@) ==> res == Err::<(), FetchError>(
                FetchError::CacheProtocol,
            ) && final(self)@ == old(self)@,
    {
        proof {
            use_type_invariant(&*self);
        }
        let key = handle.key;
        match self.find_slot(&key) {
            None => Err(FetchError::CacheProtocol),
            Some(slot) => {
                proof {
                    lemma_slots_remove(self.pending@, slot as int);
                }
                let replaced = self.find_entry(&key);
                let mut slots = self.take_slots();
                slots.remove(slot);
                self.pending = slots;
                let mut entries = self.take_entries();
                let ghost before = entries@;
                match replaced {
                    Some(i) => {
                        proof {
                            lemma_entries_remove(entries@, i as int);
                        }
                        entries.remove(i);
                    },
                    None => {},
                }
                let entry = CacheEntry { key, value, inserted_at: now };
                proof {
                    assert(!has_key(entries@, entry.key@)) by {
                        if has_key(before, entry.key@) {
                            assert(!entries_map(entries@).contains_key(entry.key@));
                        }
                    }
                    lemma_entries_push(entries@, entry);
                    assert(entries_map(before).remove(entry.key@).insert(entry.key@, entry.model())
                        =~= entries_map(before).insert(entry.key@, entry.model()));
                }
                entries.push(entry);
                self.entries = entries;
                Ok(())
            },
        }
    }

    /// Gives up the fetch of the handle's key: the pending slot is released
    /// and no entry is stored, so that the next caller who asks for the key
    /// becomes its fetcher.
    ///
    /// Fails, and changes nothing, if no fetch of the key is in flight.
    pub fn abandon(&mut self, handle: WriteHandle) -> (res: Result<(), FetchError>)
        ensures
            old(self)@.pending.contains(handle@) ==> res is Ok && final(self)@
                == old(self)@.abandon(handle@),
            !old(self)@.pending.contains(handle@) ==> res == Err::<(), FetchError>(
                FetchError::CacheProtocol,
            ) && final(self)@ == old(self)@,
    {
        proof {
            use_type_invariant(&*self);
        }
        match self.find_slot(&handle.key) {
            None => Err(FetchError::CacheProtocol),
            Some(slot) => {
                proof {
                    lemma_slots_remove(self.pending@, slot as int);
                }
                let mut slots = self.take_slots();
                slots.remove(slot);
                self.pending = slots;
                Ok(())
            },
        }
    }
}

impl<V> GenericCache<V> {
    /// Removes every entry that is strictly older than the ttl at `now`.
    /// Younger entries and pending slots stay as they are.
    pub fn gc(&mut self, now: u128)
        ensures
            final(self)@ == old(self)@.gc(now as nat),
    {
        proof {
            use_type_invariant(&*self);
        }
        let ttl = self.ttl;
        let mut entries = self.take_entries();
        let ghost before = entries_map(entries@);
        let mut i: usize = 0;
        while i < entries.len()
            invariant
                distinct_keys(entries@),
                0 <= i <= entries@.len(),
                forall|key: Seq<char>| #[trigger]
                    entries_map(entries@).contains_key(key) ==> before.contains_key(key)
                        && entries_map(entries@)[key] == before[key],
                forall|key: Seq<char>|
                    before.contains_key(key) && !(#[trigger] before[key]).collectable_at(
                        ttl as nat,
                        now as nat,
                    ) ==> entries_map(entries@).contains_key(key),
                forall|j: int|
                    0 <= j < i ==> !(#[trigger] entries@[j]).model().collectable_at(
                        ttl as nat,
                        now as nat,
                    ),
            decreases entries@.len() - i,
        {
            if is_collectable(entries[i].inserted_at, ttl, now) {
                proof {
                    lemma_entry_at(entries@, i as int);
                    lemma_entries_remove(entries@, i as int);
                }
                entries.remove(i);
            } else {
                i = i + 1;
            }
        }
        proof {
            let kept = entries_map(entries@);
            let want = Map::new(
                |key: Seq<char>|
                    before.contains_key(key) && !before[key].collectable_at(ttl as nat, now as nat),
                |key: Seq<char>| before[key],
            );
            assert forall|key: Seq<char>| kept.contains_key(key) implies want.contains_key(
                key,
            ) by {
                let a = index_of(entries@, key);
                lemma_entry_at(entries@, a);
            }
            assert(kept =~= want);
        }
        self.entries = entries;
    }

    /// Whether a fetch of `key` is in flight.
    pub fn is_pending(&self, key: &str) -> (pending: bool)
        ensures
            pending == self@.pending.contains(key@),
    {
        let owned = key.to_owned();
        self.find_slot(&owned).is_some()
    }

    /// Whether `key` has an entry, live or not.
    pub fn contains(&self, key: &str) -> (stored: bool)
        ensures
            stored == self@.entries.contains_key(key@),
    {
        let owned = key.to_owned();
        self.find_entry(&owned).is_some()
    }

    /// The number of entries, live or not.
    pub fn len(&self) -> (len: usize)
        ensures
            len == self@.entries.len(),
            self@.entries.dom().finite(),
    {
        proof {
            use_type_invariant(self);
            lemma_entries_len(self.entries@);
        }
        self.entries.len()
    }
}

/// Whether an entry stored at `inserted_at` may still be served at `now`.
fn is_live(inserted_at: u128, ttl: u128, now: u128) -> (live: bool)
    ensures
        live == (now < inserted_at + ttl),
{
    match inserted_at.checked_add(ttl) {
        Some(deadline) => now < deadline,
        None => true,
    }
}

/// Whether an entry stored at `inserted_at` is strictly older than `ttl` at
/// `now`.
fn is_collectable(inserted_at: u128, ttl: u128, now: u128) -> (stale: bool)
    ensures
        stale == (now > inserted_at + ttl),
{
    match inserted_at.checked_add(ttl) {
        Some(deadline) => now > deadline,
        None => false,
    }
}

} // verus!
