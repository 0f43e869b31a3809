//! The store: a map from keys to entries that may expire.
//!
//! Nothing in here reads a clock. Every operation that depends on the time
//! takes the current time as an argument, so that what the store does is a
//! function of what it is given.

use crate::error::RedisError;
use vstd::hash_map::StringHashMap;
use vstd::prelude::*;

verus! {

/// Nanoseconds in a millisecond.
pub const NANOS_PER_MILLI: u128 = 1_000_000u128;

/// A reading of the wall clock, in nanoseconds since the Unix epoch.
#[derive(Debug, Clone, Copy, PartialEq, Eq, Structural)]
pub struct Timestamp {
    pub nanos: u128,
}

/// When an entry stops being readable.
#[derive(Debug, Clone, Copy, PartialEq, Eq, Structural)]
pub enum Expiry {
    /// After this many milliseconds have passed since the entry was
    /// written.
    DURATION(u64),
    /// Once the wall clock reads more than this many milliseconds since the
    /// Unix epoch.
    EPOCH(u128),
    /// Never.
    INFINITE,
}

/// The mathematical content of an entry of the store.
pub struct Entry {
    pub value: Seq<char>,
    pub created: Timestamp,
    pub expiry: Expiry,
}

/// The mathematical content of the store.
pub type Store = Map<Seq<char>, Entry>;

/// An entry of the store.
pub struct DBEntry {
    value: String,
    created_time: Timestamp,
    expiry: Expiry,
}

/// The store. Keys are unique; the order of insertion plays no part.
pub struct Database {
    entries: StringHashMap<DBEntry>,
}

/// True where `entry` is past its expiry at the time `now`.
///
/// A duration is measured from the time the entry was written; a clock that
/// reads earlier than that time has let no time pass. An epoch is compared
/// with the clock in whole milliseconds.
pub open spec fn expired(entry: Entry, now: Timestamp) -> bool {
    match entry.expiry {
        Expiry::DURATION(ms) => now.nanos - entry.created.nanos > ms * NANOS_PER_MILLI,
        Expiry::EPOCH(ms) => now.nanos / NANOS_PER_MILLI > ms,
        Expiry::INFINITE => false,
    }
}

/// The store after `key` was written at the time `now`.
pub open spec fn store_insert(
    store: Store,
    key: Seq<char>,
    value: Seq<char>,
    expiry: Expiry,
    now: Timestamp,
) -> Store {
    store.insert(key, Entry { value, created: now, expiry })
}

/// What reading `key` at the time `now` gives, and the store after it.
///
/// Reading an entry that is past its expiry removes it.
pub open spec fn store_get(store: Store, key: Seq<char>, now: Timestamp) -> (
    Result<Seq<char>, RedisError>,
    Store,
) {
    if !store.contains_key(key) {
        (Err(RedisError::KeyDoesNotExist), store)
    } else if expired(store[key], now) {
        (Err(RedisError::ExpiredKey), store.remove(key))
    } else {
        (Ok(store[key].value), store)
    }
}

/// What deleting `keys` one after the other gives: the number of keys that
/// were in the store when their turn came, and the store after it.
pub open spec fn store_delete(store: Store, keys: Seq<Seq<char>>) -> (nat, Store)
    decreases keys.len(),
{
    if keys.len() == 0 {
        (0nat, store)
    } else {
        let hit: nat = if store.contains_key(keys[0]) {
            1
        } else {
            0
        };
        let (count, after) = store_delete(store.remove(keys[0]), keys.drop_first());
        (hit + count, after)
    }
}

/// The texts of a run of keys, in order.
pub open spec fn key_views(keys: Seq<String>) -> Seq<Seq<char>> {
    Seq::new(keys.len(), |i: int| keys[i]@)
}

impl View for DBEntry {
    type V = Entry;

    closed spec fn view(&self) -> Entry {
        Entry { value: self.value@, created: self.created_time, expiry: self.expiry }
    }
}

impl View for Database {
    type V = Store;

    closed spec fn view(&self) -> Store {
        self.entries@.map_values(|e: DBEntry| e@)
    }
}

impl Database {
    /// An empty store.
    pub fn new() -> (db: Database)
        ensures
            db@ == Map::<Seq<char>, Entry>::empty(),
    {
        let db = Database { entries: StringHashMap::new() };
        assert(db@ =~= Map::<Seq<char>, Entry>::empty());
        db
    }
}

impl DBEntry {
    /// Tells whether this entry is past its expiry at the time `now`.
    fn expired_at(&self, now: Timestamp) -> (past: bool)
        ensures
            past == expired(self@, now),
    {
        match self.expiry {
            Expiry::DURATION(ms) => {
                let limit = (ms as u128) * NANOS_PER_MILLI;
                now.nanos > self.created_time.nanos && now.nanos - self.created_time.nanos > limit
            },
            Expiry::EPOCH(ms) => now.nanos / NANOS_PER_MILLI > ms,
            Expiry::INFINITE => false,
        }
    }
}

/// Tells whether `key` is in the store. Expiry plays no part: an entry past
/// its expiry is in the store until a read finds it so.
pub fn contains_key(db: &Database, key: &String) -> (present: bool)
    ensures
        present == db@.contains_key(key@),
{
    db.entries.contains_key(key.as_str())
}

/// Writes `value` under `key`, in place of what was there, with `now` as
/// the time of writing.
pub fn insert(db: &mut Database, key: String, value: String, expiry: Expiry, now: Timestamp) -> (done:
    Result<(), RedisError>)
    ensures
        done is Ok,
        final(db)@ == store_insert(old(db)@, key@, value@, expiry, now),
{
    let ghost before = db@;
    let ghost k = key@;
    let ghost v = value@;
    db.entries.insert(key, DBEntry { value, created_time: now, expiry });
    assert(db@ =~= store_insert(before, k, v, expiry, now));
    Ok(())
}

/// Reads the value under `key` at the time `now`.
///
/// Fails with `KeyDoesNotExist` where the store holds no such key, and with
/// `ExpiredKey` where the entry is past its expiry; the entry is then
/// removed.
pub fn get(db: &mut Database, key: String, now: Timestamp) -> (found: Result<String, RedisError>)
    ensures
        match store_get(old(db)@, key@, now).0 {
            Ok(value) => found matches Ok(text) && text@ == value,
            Err(reason) => found matches Err(e) && e == reason,
        },
        final(db)@ == store_get(old(db)@, key@, now).1,
{
    let ghost before = db@;
    let (value, past) = match db.entries.get(key.as_str()) {
        None => {
            return Err(RedisError::KeyDoesNotExist);
        },
        Some(entry) => (entry.value.clone(), entry.expired_at(now)),
    };
    if past {
        db.entries.remove(key.as_str());
        assert(db@ =~= before.remove(key@));
        Err(RedisError::ExpiredKey)
    } else {
        Ok(value)
    }
}

/// Removes every key of `keys` that is in the store, and tells how many
/// were removed.
pub fn delete(db: &mut Database, keys: Vec<String>) -> (removed: usize)
    ensures
        removed == store_delete(old(db)@, key_views(keys@)).0,
        final(db)@ == store_delete(old(db)@, key_views(keys@)).1,
{
    let ghost before = db@;
    let ghost all = key_views(keys@);
    let mut removed: usize = 0;
    let mut i: usize = 0;
    assert(all.skip(0) =~= all);
    while i < keys.len()
        invariant
            0 <= i <= keys.len(),
            removed <= i,
            all == key_views(keys@),
            store_delete(before, all).0 == removed + store_delete(db@, all.skip(i as int)).0,
            store_delete(before, all).1 == store_delete(db@, all.skip(i as int)).1,
        decreases keys.len() - i,
    {
        let ghost current = db@;
        let ghost rest = all.skip(i as int);
        assert(rest[0] == keys[i as int]@);
        assert(rest.drop_first() =~= all.skip(i + 1));
        if db.entries.contains_key(keys[i].as_str()) {
            db.entries.remove(keys[i].as_str());
            removed = removed + 1;
        }
        assert(db@ =~= current.remove(rest[0]));
        i = i + 1;
    }
    removed
}

/// An entry that never expires reads back as it was written, at any time.
/// The read leaves the store as it is, so the same holds of the next read.
pub proof fn law_never_expires(
    store: Store,
    key: Seq<char>,
    value: Seq<char>,
    written: Timestamp,
    now: Timestamp,
)
    ensures
        ({
            let after = store_insert(store, key, value, Expiry::INFINITE, written);
            store_get(after, key, now) == (Ok::<Seq<char>, RedisError>(value), after)
        }),
{
}

/// An entry written with a duration reads back as it was written while no
/// more than the duration has passed, and the read leaves the store as it
/// is. Once more time has passed, the read fails with `ExpiredKey`, and the
/// key is no longer in the store.
pub proof fn law_duration_expiry(
    store: Store,
    key: Seq<char>,
    value: Seq<char>,
    ms: u64,
    written: Timestamp,
    now: Timestamp,
)
    ensures
        ({
            let after = store_insert(store, key, value, Expiry::DURATION(ms), written);
            let elapsed = now.nanos - written.nanos;
            let (found, left) = store_get(after, key, now);
            &&& elapsed <= ms * NANOS_PER_MILLI ==> found == Ok::<Seq<char>, RedisError>(value)
                && left == after
            &&& elapsed > ms * NANOS_PER_MILLI ==> found == Err::<Seq<char>, RedisError>(
                RedisError::ExpiredKey,
            ) && !left.contains_key(key)
        }),
{
}

/// An entry written with an epoch reads back as it was written while the
/// clock, in whole milliseconds, reads no more than the epoch. Once it reads
/// more, the read fails with `ExpiredKey`, and the key is no longer in the
/// store.
pub proof fn law_epoch_expiry(
    store: Store,
    key: Seq<char>,
    value: Seq<char>,
    epoch_ms: u128,
    written: Timestamp,
    now: Timestamp,
)
    ensures
        ({
            let after = store_insert(store, key, value, Expiry::EPOCH(epoch_ms), written);
            let (found, left) = store_get(after, key, now);
            &&& now.nanos / NANOS_PER_MILLI <= epoch_ms ==> found == Ok::<Seq<char>, RedisError>(
                value,
            ) && left == after
            &&& now.nanos / NANOS_PER_MILLI > epoch_ms ==> found == Err::<Seq<char>, RedisError>(
                RedisError::ExpiredKey,
            ) && !left.contains_key(key)
        }),
{
}

/// After a delete, none of the deleted keys is in the store, and every
/// other key is as it was.
pub proof fn law_delete_removes(store: Store, keys: Seq<Seq<char>>)
    ensures
        store_delete(store, keys).1 == store.remove_keys(keys.to_set()),
        forall|k: Seq<char>| keys.contains(k) ==> !store_delete(store, keys).1.contains_key(k),
    decreases keys.len(),
{
    broadcast use vstd::seq_lib::group_seq_properties;

    if keys.len() > 0 {
        let rest = keys.drop_first();
        law_delete_removes(store.remove(keys[0]), rest);
        assert forall|k: Seq<char>| keys.to_set().contains(k) <==> (k == keys[0]
            || rest.to_set().contains(k)) by {
            if keys.contains(k) {
                let i = choose|i: int| 0 <= i < keys.len() && keys[i] == k;
                if i > 0 {
                    assert(rest[i - 1] == k);
                }
            }
            if rest.contains(k) {
                let i = choose|i: int| 0 <= i < rest.len() && rest[i] == k;
                assert(keys[i + 1] == k);
            }
        }
        assert(store.remove(keys[0]).remove_keys(rest.to_set()) =~= store.remove_keys(
            keys.to_set(),
        ));
    } else {
        assert(store.remove_keys(keys.to_set()) =~= store);
    }
    assert forall|k: Seq<char>| keys.contains(k) implies !store_delete(
        store,
        keys,
    ).1.contains_key(k) by {
        assert(keys.to_set().contains(k));
    }
}

/// A delete counts a key where it is in the store when its turn comes: a
/// key deleted twice in one call counts once, and the count is never more
/// than the number of keys given.
pub proof fn law_delete_count(store: Store, keys: Seq<Seq<char>>)
    ensures
        store_delete(store, keys).0 <= keys.len(),
        keys.len() == 1 ==> store_delete(store, keys).0 == if store.contains_key(keys[0]) {
            1nat
        } else {
            0nat
        },
        keys.no_duplicates() ==> store_delete(store, keys).0 == keys.filter(
            |k: Seq<char>| store.contains_key(k),
        ).len(),
    decreases keys.len(),
{
    if keys.len() > 0 {
        let rest = keys.drop_first();
        let present = |k: Seq<char>| store.contains_key(k);
        let later = |k: Seq<char>| store.remove(keys[0]).contains_key(k);
        law_delete_count(store.remove(keys[0]), rest);
        assert(store_delete(store.remove(keys[0]), Seq::<Seq<char>>::empty()).0 == 0);
        if keys.len() == 1 {
            assert(rest =~= Seq::<Seq<char>>::empty());
        }
        if keys.no_duplicates() {
            assert(rest.no_duplicates());
            assert(keys =~= seq![keys[0]] + rest);
            lemma_filter_same(rest, present, later, keys[0]);
            Seq::filter_distributes_over_add(seq![keys[0]], rest, present);
            reveal(Seq::filter);
            assert(seq![keys[0]].filter(present).len() == if store.contains_key(keys[0]) {
                1nat
            } else {
                0nat
            }) by {
                reveal_with_fuel(Seq::filter, 2);
                assert(seq![keys[0]].drop_last() =~= Seq::<Seq<char>>::empty());
            }
        }
    } else {
        reveal(Seq::filter);
    }
}

/// Two tests that agree on every item of a sequence pick the same items.
proof fn lemma_filter_same(
    s: Seq<Seq<char>>,
    p: spec_fn(Seq<char>) -> bool,
    q: spec_fn(Seq<char>) -> bool,
    gone: Seq<char>,
)
    requires
        !s.contains(gone),
        forall|k: Seq<char>| k != gone ==> #[trigger] p(k) == q(k),
    ensures
        s.filter(p) == s.filter(q),
    decreases s.len(),
{
    reveal(Seq::filter);
    if s.len() > 0 {
        assert(s.drop_last().len() < s.len());
        assert forall|k: Seq<char>| s.drop_last().contains(k) implies s.contains(k) by {
            let i = choose|i: int| 0 <= i < s.drop_last().len() && s.drop_last()[i] == k;
            assert(s[i] == k);
        }
        lemma_filter_same(s.drop_last(), p, q, gone);
        assert(s.contains(s.last()));
    }
}

} // verus!
