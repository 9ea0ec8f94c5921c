//! What holds of every cache, proved of the model that the operations of
//! `GenericCache` are specified by.

use crate::cache_model::{CacheModel, EntryModel, KeyState, Lookup};
use vstd::prelude::*;

verus! {

/// Single flight. When callers ask, one after another, for a key that has no
/// entry and no fetch in flight, exactly one fetch is started: the first
/// caller is answered `NotFound`, every later one `Pending`. Once the fetcher
/// has stored a value, each of them finds that same value when it asks again
/// before the entry expires.
pub proof fn lemma_single_flight<V>(
    cache: CacheModel<V>,
    key: Seq<char>,
    times: Seq<nat>,
    value: V,
    stored_at: nat,
    asked_again_at: nat,
)
    requires
        !cache.entries.contains_key(key),
        !cache.pending.contains(key),
        times.len() >= 1,
    ensures
        cache.fetches_started(key, times) == 1,
        cache.lookup(key, times[0]) is NotFound,
        forall|i: int|
            1 <= i < times.len() ==> cache.after_lookups(key, #[trigger] times.take(i)).lookup(
                key,
                times[i],
            ) is Pending,
        cache.after_lookups(key, times) == cache.get_cached(key, times[0]),
        asked_again_at < stored_at + cache.ttl ==> cache.after_lookups(key, times).set(
            key,
            value,
            stored_at,
        ).lookup(key, asked_again_at) == Lookup::Found(value),
    decreases times.len(),
{
    let first = cache.get_cached(key, times[0]);
    assert(first.pending.contains(key));
    if times.len() == 1 {
        assert(times.drop_last().len() == 0);
        assert(times.last() == times[0]);
        assert(cache.after_lookups(key, times.drop_last()) == cache);
        assert(cache.fetches_started(key, times.drop_last()) == 0);
    } else {
        let earlier = times.drop_last();
        assert(earlier[0] == times[0]);
        lemma_single_flight(cache, key, earlier, value, stored_at, asked_again_at);
        assert(cache.after_lookups(key, earlier) == first);
        assert(first.lookup(key, times.last()) is Pending);
        assert(first.get_cached(key, times.last()) == first);
        assert forall|i: int| 1 <= i < times.len() implies cache.after_lookups(
            key,
            #[trigger] times.take(i),
        ).lookup(key, times[i]) is Pending by {
            if i < earlier.len() {
                assert(times.take(i) =~= earlier.take(i));
                assert(times[i] == earlier[i]);
            } else {
                assert(times.take(i) =~= earlier);
            }
        }
    }
}

/// Expiry. An entry stored at `stored_at` is served to every caller who asks
/// before `stored_at + ttl`. From `stored_at + ttl` on it is not served: the
/// caller is answered `NotFound` and fetches anew, whether or not the
/// collector ran. The collector leaves the entry alone up to and including
/// `stored_at + ttl`, and removes it after that.
pub proof fn lemma_expiry<V>(
    cache: CacheModel<V>,
    key: Seq<char>,
    value: V,
    stored_at: nat,
    now: nat,
)
    ensures
        now < stored_at + cache.ttl ==> cache.set(key, value, stored_at).lookup(key, now)
            == Lookup::Found(value),
        now < stored_at + cache.ttl ==> cache.set(key, value, stored_at).gc(now).lookup(key, now)
            == Lookup::Found(value),
        now >= stored_at + cache.ttl ==> cache.set(key, value, stored_at).lookup(key, now)
            is NotFound,
        now >= stored_at + cache.ttl ==> cache.set(key, value, stored_at).gc(now).lookup(key, now)
            is NotFound,
        now <= stored_at + cache.ttl ==> cache.set(key, value, stored_at).gc(now).entries[key]
            == (EntryModel { value, inserted_at: stored_at }),
        now <= stored_at + cache.ttl ==> cache.set(key, value, stored_at).gc(
            now,
        ).entries.contains_key(key),
        now > stored_at + cache.ttl ==> !cache.set(key, value, stored_at).gc(
            now,
        ).entries.contains_key(key),
{
}

/// The collector removes exactly the entries that are strictly older than the
/// ttl, changes no entry that it keeps, and touches no pending slot.
pub proof fn lemma_gc_removes_only_old_entries<V>(cache: CacheModel<V>, now: nat, key: Seq<char>)
    ensures
        cache.gc(now).pending == cache.pending,
        cache.gc(now).ttl == cache.ttl,
        cache.gc(now).entries.contains_key(key) <==> cache.entries.contains_key(key) && now
            <= cache.entries[key].inserted_at + cache.ttl,
        cache.gc(now).entries.contains_key(key) ==> cache.gc(now).entries[key]
            == cache.entries[key],
        cache.has_live(key, now) ==> cache.gc(now).lookup(key, now) == cache.lookup(key, now),
{
}

/// Stored values are never changed in place. Storing under one key changes
/// what no other key is answered, at any time; and storing anew under the
/// same key replaces the entry as a whole, so that a value handed out before
/// is what it was.
pub proof fn lemma_set_changes_one_key<V>(
    cache: CacheModel<V>,
    key: Seq<char>,
    value: V,
    stored_at: nat,
    other: Seq<char>,
    now: nat,
)
    ensures
        other != key ==> cache.set(key, value, stored_at).lookup(other, now) == cache.lookup(
            other,
            now,
        ),
        other != key && cache.entries.contains_key(other) ==> cache.set(
            key,
            value,
            stored_at,
        ).entries[other] == cache.entries[other],
        cache.set(key, value, stored_at).entries[key] == (EntryModel {
            value,
            inserted_at: stored_at,
        }),
{
}

/// Abandoning releases the slot. A caller who was answered `NotFound` at
/// `asked_at` and gives up leaves the cache as it found it; whoever asks for
/// the key next, at `asked_at` or later, is answered `NotFound` and becomes
/// the fetcher. Callers who asked in between were answered `Pending`, and
/// started no fetch.
pub proof fn lemma_abandon_releases_slot<V>(
    cache: CacheModel<V>,
    key: Seq<char>,
    asked_at: nat,
    waiting: Seq<nat>,
    next_at: nat,
)
    requires
        cache.lookup(key, asked_at) is NotFound,
        asked_at <= next_at,
        forall|i: int| 0 <= i < waiting.len() ==> asked_at <= #[trigger] waiting[i],
    ensures
        cache.get_cached(key, asked_at).fetches_started(key, waiting) == 0,
        cache.get_cached(key, asked_at).after_lookups(key, waiting).abandon(key) == cache,
        cache.get_cached(key, asked_at).after_lookups(key, waiting).abandon(key).lookup(
            key,
            next_at,
        ) is NotFound,
{
    let fetching = cache.get_cached(key, asked_at);
    assert(fetching.pending.remove(key) =~= cache.pending);
    lemma_pending_lookups(fetching, key, asked_at, waiting);
}

/// While a key is pending and has nothing live from `since` on, callers who
/// ask at `since` or later change nothing.
pub proof fn lemma_pending_lookups<V>(
    cache: CacheModel<V>,
    key: Seq<char>,
    since: nat,
    times: Seq<nat>,
)
    requires
        cache.pending.contains(key),
        !cache.has_live(key, since),
        forall|i: int| 0 <= i < times.len() ==> since <= #[trigger] times[i],
    ensures
        cache.after_lookups(key, times) == cache,
        cache.fetches_started(key, times) == 0,
    decreases times.len(),
{
    if times.len() > 0 {
        let earlier = times.drop_last();
        assert forall|i: int| 0 <= i < earlier.len() implies since <= #[trigger] earlier[i] by {
            assert(earlier[i] == times[i]);
        }
        lemma_pending_lookups(cache, key, since, earlier);
        assert(since <= times[times.len() - 1]);
    }
}

/// At most one fetch per key: whatever the state, a caller is answered
/// `NotFound` only if no fetch of the key is in flight, and from then on one
/// is.
pub proof fn lemma_one_fetch_per_key<V>(cache: CacheModel<V>, key: Seq<char>, now: nat)
    ensures
        cache.lookup(key, now) is NotFound ==> !cache.pending.contains(key),
        cache.lookup(key, now) is NotFound ==> cache.get_cached(key, now).pending.contains(key),
        cache.pending.contains(key) ==> !(cache.get_cached(key, now).lookup(key, now) is NotFound),
        cache.get_cached(key, now).entries == cache.entries,
{
}

/// The life of a key. A caller's question moves an absent key to pending
/// and leaves every other state alone; storing moves a pending key to
/// present, unless the ttl is zero; abandoning moves it to absent; the
/// collector moves nothing; time alone moves only a present key, and never
/// makes a key present. What is done to one key moves no other.
pub proof fn lemma_key_state_transitions<V>(
    cache: CacheModel<V>,
    key: Seq<char>,
    other: Seq<char>,
    value: V,
    now: nat,
    later: nat,
)
    requires
        now <= later,
    ensures
        cache.get_cached(key, now).key_state(key, now) == match cache.key_state(key, now) {
            KeyState::Absent => KeyState::Pending,
            KeyState::Pending => KeyState::Pending,
            KeyState::Present => KeyState::Present,
        },
        cache.pending.contains(key) && cache.ttl > 0 ==> cache.set(key, value, now).key_state(
            key,
            now,
        ) == KeyState::Present,
        cache.pending.contains(key) && cache.ttl == 0 ==> cache.set(key, value, now).key_state(
            key,
            now,
        ) == KeyState::Absent,
        cache.key_state(key, now) == KeyState::Pending ==> cache.abandon(key).key_state(key, now)
            == KeyState::Absent,
        cache.gc(now).key_state(key, now) == cache.key_state(key, now),
        cache.key_state(key, now) != KeyState::Present ==> cache.key_state(key, later)
            == cache.key_state(key, now),
        cache.key_state(key, later) == KeyState::Present ==> cache.key_state(key, now)
            == KeyState::Present,
        other != key ==> cache.get_cached(key, now).key_state(other, now) == cache.key_state(
            other,
            now,
        ),
        other != key ==> cache.set(key, value, now).key_state(other, now) == cache.key_state(
            other,
            now,
        ),
        other != key ==> cache.abandon(key).key_state(other, now) == cache.key_state(other, now),
{
}

} // verus!
