//! A map for values that wait to be picked up once, with a time to live.
//!
//! Values are stored under a key by one task and taken by another, such as the
//! response channels of inbound requests. What nobody picks up in time is
//! purged.

use crate::foreign::duration_nanos;
use std::collections::HashMap;
use std::hash::Hash;
use std::time::{Duration, Instant};
use vstd::prelude::*;
use vstd::std_specs::hash::obeys_key_model;

verus! {

/// How often expired entries are purged in the background, in seconds.
pub const DEFAULT_CLEANUP_INTERVAL_SECS: u64 = 10;

/// A stored value and when it was stored, in nanoseconds on the map's clock.
pub struct PendingEntry<V> {
    /// The value that waits.
    pub value: V,
    /// The reading of the map's clock when the value was stored.
    pub created_at: u128,
}

/// How long an entry of `created_at` has been stored at `now`. A clock that
/// reads earlier than the entry counts as no time.
pub open spec fn age(created_at: u128, now: u128) -> u128 {
    if now >= created_at {
        (now - created_at) as u128
    } else {
        0
    }
}

/// Whether an entry is still within its time to live.
pub open spec fn is_fresh(created_at: u128, now: u128, ttl: nat) -> bool {
    age(created_at, now) < ttl
}

/// The entries that are within their time to live.
pub open spec fn survivors<K, V>(
    entries: Map<K, PendingEntry<V>>,
    now: u128,
    ttl: nat,
) -> Map<K, PendingEntry<V>> {
    entries.restrict(
        Set::new(
            |key: K| entries.contains_key(key) && is_fresh(entries[key].created_at, now, ttl),
        ),
    )
}

impl<V> PendingEntry<V> {
    /// Whether the entry is still within its time to live.
    fn fresh(&self, now: u128, ttl: u128) -> (fresh: bool)
        ensures
            fresh == is_fresh(self.created_at, now, ttl as nat),
    {
        let age: u128 = if now >= self.created_at {
            now - self.created_at
        } else {
            0
        };
        age < ttl
    }
}

/// `HashMap::retain`: keeps the entries for which the predicate holds, here
/// those within their time to live, and removes all others.
#[verifier::external_body]
fn retain_fresh<K, V>(entries: &mut HashMap<K, PendingEntry<V>>, now: u128, ttl: u128)
    requires
        obeys_key_model::<K>(),
    ensures
        final(entries)@ == survivors(old(entries)@, now, ttl as nat),
{
    entries.retain(|_, entry| entry.fresh(now, ttl));
}

/// Removes the entries that outlived `ttl` nanoseconds at `now` and says how many.
pub fn purge_expired_entries<K: Eq + Hash, V>(
    entries: &mut HashMap<K, PendingEntry<V>>,
    now: u128,
    ttl: u128,
) -> (purged: usize)
    requires
        obeys_key_model::<K>(),
    ensures
        final(entries)@ == survivors(old(entries)@, now, ttl as nat),
        purged == old(entries)@.len() - final(entries)@.len(),
{
    broadcast use vstd::std_specs::hash::group_hash_axioms;

    let before: usize = entries.len();
    retain_fresh(entries, now, ttl);
    proof {
        assert(entries@.dom().subset_of(old(entries)@.dom()));
        vstd::set_lib::lemma_len_subset(entries@.dom(), old(entries)@.dom());
    }
    before - entries.len()
}

/// A map whose entries are taken at most once and expire after a while.
pub struct PendingMap<K, V> {
    entries: HashMap<K, PendingEntry<V>>,
    ttl: Duration,
    origin: Instant,
}

impl<K, V> View for PendingMap<K, V> {
    type V = Map<K, PendingEntry<V>>;

    closed spec fn view(&self) -> Map<K, PendingEntry<V>> {
        self.entries@
    }
}

impl<K: Eq + Hash, V> PendingMap<K, V> {
    /// How long an entry lives, in nanoseconds.
    pub closed spec fn ttl(&self) -> nat {
        duration_nanos(self.ttl)
    }

    /// The instant at which the map's clock reads zero.
    pub closed spec fn origin(&self) -> Instant {
        self.origin
    }

    /// Whether `now` is a reading of the map's clock: the nanoseconds that
    /// `Instant::elapsed` gives for the clock's origin.
    pub open spec fn reads(&self, now: u128) -> bool {
        exists|span: Duration|
            #[trigger] call_ensures(Instant::elapsed, (&self.origin(),), span) && now
                == duration_nanos(span)
    }

    /// A map holds finitely many entries.
    pub proof fn entries_are_finite(&self)
        ensures
            self@.dom().finite(),
    {
        broadcast use vstd::std_specs::hash::group_hash_axioms;

    }

    /// An empty map whose entries live for `ttl`; its clock starts now.
    pub fn new(ttl: Duration) -> (map: Self)
        ensures
            call_ensures(Instant::now, (), map.origin()),
            map@ == Map::<K, PendingEntry<V>>::empty(),
            map.ttl() == duration_nanos(ttl),
    {
        PendingMap { entries: HashMap::new(), ttl, origin: Instant::now() }
    }

    /// What the map's clock reads: the nanoseconds since the map was made, as
    /// the machine's clock has it.
    pub fn now(&self) -> (now: u128)
        ensures
            self.reads(now),
    {
        let span = self.origin.elapsed();
        assert(call_ensures(Instant::elapsed, (&self.origin(),), span));
        span.as_nanos()
    }

    /// Stores `value` under `key`, in place of any earlier value. Its time to
    /// live starts at what the map's clock reads.
    pub fn insert(&mut self, key: K, value: V)
        requires
            obeys_key_model::<K>(),
        ensures
            final(self).ttl() == old(self).ttl(),
            final(self).origin() == old(self).origin(),
            exists|now: u128| #[trigger]
                old(self).reads(now) && final(self)@ == old(self)@.insert(
                    key,
                    PendingEntry { value, created_at: now },
                ),
    {
        let now: u128 = self.now();
        self.insert_at(key, value, now);
    }

    /// Stores `value` under `key`, in place of any earlier value. Its time to
    /// live starts at `now` on the map's clock.
    pub fn insert_at(&mut self, key: K, value: V, now: u128)
        requires
            obeys_key_model::<K>(),
        ensures
            final(self).ttl() == old(self).ttl(),
            final(self).origin() == old(self).origin(),
            final(self)@ == old(self)@.insert(key, PendingEntry { value, created_at: now }),
    {
        broadcast use vstd::std_specs::hash::group_hash_axioms;

        let _ = self.entries.insert(key, PendingEntry { value, created_at: now });
    }

    /// Takes the value of `key` out of the map.
    pub fn take(&mut self, key: &K) -> (taken: Option<V>)
        requires
            obeys_key_model::<K>(),
        ensures
            final(self).ttl() == old(self).ttl(),
            final(self).origin() == old(self).origin(),
            final(self)@ == old(self)@.remove(*key),
            match taken {
                Some(value) => old(self)@.contains_key(*key) && value == old(self)@[*key].value,
                None => !old(self)@.contains_key(*key),
            },
    {
        broadcast use vstd::std_specs::hash::group_hash_axioms;

        match self.entries.remove(key) {
            Some(entry) => Some(entry.value),
            None => {
                assert(self@ =~= old(self)@.remove(*key));
                None
            },
        }
    }

    /// How many values wait.
    pub fn len(&self) -> (len: usize)
        requires
            obeys_key_model::<K>(),
        ensures
            len == self@.len(),
    {
        broadcast use vstd::std_specs::hash::group_hash_axioms;

        self.entries.len()
    }

    /// Whether no value waits.
    pub fn is_empty(&self) -> (empty: bool)
        ensures
            empty == self@.is_empty(),
    {
        self.entries.is_empty()
    }

    /// Removes the entries that expired by now and says how many.
    pub fn purge_expired(&mut self) -> (purged: usize)
        requires
            obeys_key_model::<K>(),
        ensures
            final(self).ttl() == old(self).ttl(),
            final(self).origin() == old(self).origin(),
            exists|now: u128| #[trigger]
                old(self).reads(now) && final(self)@ == survivors(
                    old(self)@,
                    now,
                    old(self).ttl(),
                ),
            purged == old(self)@.len() - final(self)@.len(),
    {
        let now: u128 = self.now();
        self.purge_expired_at(now)
    }

    /// Removes the entries that expired by `now` on the map's clock and says how many.
    pub fn purge_expired_at(&mut self, now: u128) -> (purged: usize)
        requires
            obeys_key_model::<K>(),
        ensures
            final(self).ttl() == old(self).ttl(),
            final(self).origin() == old(self).origin(),
            final(self)@ == survivors(old(self)@, now, old(self).ttl()),
            purged == old(self)@.len() - final(self)@.len(),
    {
        let ttl: u128 = self.ttl.as_nanos();
        purge_expired_entries(&mut self.entries, now, ttl)
    }
}

/// A stored value can be taken exactly once: the first taking finds it, and
/// the next one finds nothing.
pub proof fn taken_once<K, V>(entries: Map<K, PendingEntry<V>>, key: K, entry: PendingEntry<V>)
    ensures
        entries.insert(key, entry).contains_key(key),
        entries.insert(key, entry)[key] == entry,
        !entries.insert(key, entry).remove(key).contains_key(key),
{
}

/// A value stored last is the one that counts: it takes the place of any
/// earlier value of its key, and its age starts at zero.
pub proof fn latest_value_counts<K, V>(
    entries: Map<K, PendingEntry<V>>,
    key: K,
    earlier: PendingEntry<V>,
    latest: PendingEntry<V>,
)
    ensures
        entries.insert(key, earlier).insert(key, latest) == entries.insert(key, latest),
        entries.insert(key, latest)[key] == latest,
        age(latest.created_at, latest.created_at) == 0,
{
    assert(entries.insert(key, earlier).insert(key, latest) =~= entries.insert(key, latest));
}

/// Storing a value adds one entry for a new key and none for a known one;
/// taking a key removes one entry if the key is there and none otherwise.
pub proof fn entries_are_counted<K: Eq + Hash, V>(
    map: PendingMap<K, V>,
    key: K,
    entry: PendingEntry<V>,
)
    ensures
        map@.insert(key, entry).len() == map@.len() + if map@.contains_key(key) {
            0int
        } else {
            1int
        },
        map@.remove(key).len() == map@.len() - if map@.contains_key(key) {
            1int
        } else {
            0int
        },
{
    map.entries_are_finite();
    if map@.contains_key(key) {
        assert(map@.insert(key, entry).dom() =~= map@.dom());
    } else {
        assert(map@.remove(key) =~= map@);
    }
}

/// Storing and taking one key leaves every other entry as it was.
pub proof fn other_entries_stay<K, V>(
    entries: Map<K, PendingEntry<V>>,
    key: K,
    entry: PendingEntry<V>,
    other: K,
)
    requires
        other != key,
    ensures
        entries.insert(key, entry).contains_key(other) == entries.contains_key(other),
        entries.remove(key).contains_key(other) == entries.contains_key(other),
        entries.contains_key(other) ==> entries.insert(key, entry)[other] == entries[other]
            && entries.remove(key)[other] == entries[other],
{
}

/// A purge removes an entry exactly when it outlived its time to live, and
/// changes no entry that it keeps.
pub proof fn purge_removes_the_expired<K, V>(
    entries: Map<K, PendingEntry<V>>,
    now: u128,
    ttl: nat,
    key: K,
)
    requires
        entries.contains_key(key),
    ensures
        survivors(entries, now, ttl).contains_key(key) <==> age(entries[key].created_at, now)
            < ttl,
        survivors(entries, now, ttl).contains_key(key) ==> survivors(entries, now, ttl)[key]
            == entries[key],
{
}

/// A later purge removes at least what an earlier one removes, and after it
/// the earlier one finds nothing left to remove.
pub proof fn later_purge_covers_earlier<K, V>(
    entries: Map<K, PendingEntry<V>>,
    earlier: u128,
    later: u128,
    ttl: nat,
)
    requires
        earlier <= later,
    ensures
        survivors(survivors(entries, earlier, ttl), later, ttl) == survivors(entries, later, ttl),
        survivors(survivors(entries, later, ttl), earlier, ttl) == survivors(entries, later, ttl),
{
    assert(survivors(survivors(entries, earlier, ttl), later, ttl) =~= survivors(
        entries,
        later,
        ttl,
    ));
    assert(survivors(survivors(entries, later, ttl), earlier, ttl) =~= survivors(
        entries,
        later,
        ttl,
    ));
}

/// With a time to live of zero a purge removes everything.
pub proof fn zero_ttl_keeps_nothing<K, V>(entries: Map<K, PendingEntry<V>>, now: u128)
    ensures
        survivors(entries, now, 0) == Map::<K, PendingEntry<V>>::empty(),
{
    assert(survivors(entries, now, 0) =~= Map::<K, PendingEntry<V>>::empty());
}

/// A purge keeps an entry exactly while less than the time to live has passed
/// since it was stored, whenever that was, and keeps it as it is. An entry from
/// after the purge has not aged.
pub proof fn entries_live_for_their_ttl<K, V>(
    entries: Map<K, PendingEntry<V>>,
    now: u128,
    ttl: nat,
    key: K,
)
    ensures
        survivors(entries, now, ttl).contains_key(key) <==> entries.contains_key(key) && if entries[
            key].created_at <= now {
            now < entries[key].created_at + ttl
        } else {
            ttl > 0
        },
        survivors(entries, now, ttl).contains_key(key) ==> survivors(entries, now, ttl)[key]
            == entries[key],
{
}

/// Moving the clock and the time of storing by the same span changes nothing:
/// only the difference counts.
pub proof fn only_the_age_counts<V>(
    value: V,
    created_at: u128,
    now: u128,
    shift: nat,
    ttl: nat,
)
    requires
        created_at + shift <= u128::MAX,
        now + shift <= u128::MAX,
    ensures
        survivors(
            Map::<u64, PendingEntry<V>>::empty().insert(0, PendingEntry { value, created_at }),
            now,
            ttl,
        ).contains_key(0) == survivors(
            Map::<u64, PendingEntry<V>>::empty().insert(
                0,
                PendingEntry { value, created_at: (created_at + shift) as u128 },
            ),
            (now + shift) as u128,
            ttl,
        ).contains_key(0),
{
}

/// A reading of a map's clock is the time since the map's origin in
/// nanoseconds, and nothing else is one.
pub proof fn readings_are_nanoseconds_since_the_origin<K: Eq + Hash, V>(
    map: PendingMap<K, V>,
    span: Duration,
    now: u128,
)
    ensures
        call_ensures(Instant::elapsed, (&map.origin(),), span) && now == duration_nanos(span)
            ==> map.reads(now),
        map.reads(now) ==> exists|taken: Duration|
            #[trigger] call_ensures(Instant::elapsed, (&map.origin(),), taken) && now
                == duration_nanos(taken),
{
}

} // verus!
