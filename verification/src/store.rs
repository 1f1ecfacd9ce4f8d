//! The secret store: a keyed collection of expiring entries behind a lock.

use crate::clock::{elapsed_nanos, start, ticks_from_nanos, ticks_of};
use crate::model::{EntryModel, StoreModel};
use tokio::time::Instant;
use vstd::prelude::*;
use vstd::utf8::*;

verus! {

/// Clock ticks per second: the store measures time in nanoseconds since it was
/// created.
pub const TICKS_PER_SECOND: u64 = 1_000_000_000;

/// Why the store refused an operation.
#[derive(Debug, Clone, Copy, PartialEq, Eq)]
pub enum StoreError {
    /// The store is locked.
    Unauthorized,
}

/// The model of what a read answered.
pub open spec fn read_model(outcome: Result<Option<String>, StoreError>) -> Result<
    Option<Seq<char>>,
    StoreError,
> {
    match outcome {
        Ok(Some(value)) => Ok(Some(value@)),
        Ok(None) => Ok(None),
        Err(error) => Err(error),
    }
}

/// One stored secret.
struct SecretEntry {
    key: String,
    value: String,
    expires_at: u128,
}

impl SecretEntry {
    spec fn model(self) -> EntryModel {
        EntryModel { value: self.value@, expires_at: self.expires_at as nat }
    }
}

/// Whether no key occurs twice in `entries`.
spec fn distinct_keys(entries: Seq<SecretEntry>) -> bool {
    forall|i: int, j: int|
        0 <= i < j < entries.len() ==> #[trigger] entries[i].key@ != #[trigger] entries[j].key@
}

/// Whether `key` occurs in `entries`.
spec fn has_key(entries: Seq<SecretEntry>, key: Seq<char>) -> bool {
    exists|i: int| 0 <= i < entries.len() && #[trigger] entries[i].key@ == key
}

/// A position of `key` in `entries`, where it occurs.
spec fn position(entries: Seq<SecretEntry>, key: Seq<char>) -> int {
    choose|i: int| 0 <= i < entries.len() && #[trigger] entries[i].key@ == key
}

/// The map that `entries` represents.
spec fn entries_map(entries: Seq<SecretEntry>) -> Map<Seq<char>, EntryModel> {
    Map::new(
        |key: Seq<char>| has_key(entries, key),
        |key: Seq<char>| entries[position(entries, key)].model(),
    )
}

/// Whether two strings hold the same text.
fn same_text(a: &str, b: &str) -> (same: bool)
    ensures
        same == (a@ == b@),
{
    let x = a.as_bytes();
    let y = b.as_bytes();
    if x.len() != y.len() {
        return false;
    }
    let mut i: usize = 0;
    while i < x.len()
        invariant
            i <= x.len(),
            x.len() == y.len(),
            x@ == encode_utf8(a@),
            y@ == encode_utf8(b@),
            forall|k: int| 0 <= k < i ==> x@[k] == y@[k],
        decreases x.len() - i,
    {
        if x[i] != y[i] {
            return false;
        }
        i += 1;
    }
    proof {
        assert(x@ =~= y@);
        encode_utf8_decode_utf8(a@);
        encode_utf8_decode_utf8(b@);
    }
    true
}

/// Every key of `entries` is a key of the map, with its entry's model.
proof fn lemma_entry_in_map(entries: Seq<SecretEntry>, i: int)
    requires
        distinct_keys(entries),
        0 <= i < entries.len(),
    ensures
        entries_map(entries).contains_key(entries[i].key@),
        entries_map(entries)[entries[i].key@] == entries[i].model(),
{
    let key = entries[i].key@;
    assert(has_key(entries, key));
    let j = position(entries, key);
    assert(i == j) by {
        if i < j {
            assert(entries[i].key@ != entries[j].key@);
        } else if j < i {
            assert(entries[j].key@ != entries[i].key@);
        }
    }
}

/// Putting an entry where its key is held already overwrites that key in the
/// map.
proof fn lemma_replace(before: Seq<SecretEntry>, i: int, entry: SecretEntry)
    requires
        distinct_keys(before),
        0 <= i < before.len(),
        before[i].key@ == entry.key@,
    ensures
        distinct_keys(before.update(i, entry)),
        entries_map(before.update(i, entry)) == entries_map(before).insert(
            entry.key@,
            entry.model(),
        ),
{
    let after = before.update(i, entry);
    assert forall|a: int, b: int| 0 <= a < b < after.len() implies after[a].key@
        != after[b].key@ by {
        assert(before[a].key@ != before[b].key@);
    }
    let expected = entries_map(before).insert(entry.key@, entry.model());
    assert forall|key: Seq<char>| entries_map(after).contains_key(key) implies #[trigger]
        expected.contains_key(key) && expected[key] == entries_map(after)[key] by {
        let j = position(after, key);
        lemma_entry_in_map(after, j);
        lemma_entry_in_map(before, j);
    }
    assert forall|key: Seq<char>| expected.contains_key(key) implies #[trigger] entries_map(
        after,
    ).contains_key(key) by {
        let j = if key == entry.key@ { i } else { position(before, key) };
        assert(after[j].key@ == key);
    }
    assert(entries_map(after) =~= expected);
}

/// Appending an entry whose key is new adds that key to the map.
proof fn lemma_push(before: Seq<SecretEntry>, entry: SecretEntry)
    requires
        distinct_keys(before),
        !has_key(before, entry.key@),
    ensures
        distinct_keys(before.push(entry)),
        entries_map(before.push(entry)) == entries_map(before).insert(entry.key@, entry.model()),
{
    let after = before.push(entry);
    let last = before.len() as int;
    assert forall|a: int, b: int| 0 <= a < b < after.len() implies after[a].key@
        != after[b].key@ by {
        if b < last {
            assert(before[a].key@ != before[b].key@);
        } else {
            assert(before[a].key@ != entry.key@);
        }
    }
    let expected = entries_map(before).insert(entry.key@, entry.model());
    assert forall|key: Seq<char>| entries_map(after).contains_key(key) implies #[trigger]
        expected.contains_key(key) && expected[key] == entries_map(after)[key] by {
        let j = position(after, key);
        lemma_entry_in_map(after, j);
        if j < last {
            lemma_entry_in_map(before, j);
        }
    }
    assert forall|key: Seq<char>| expected.contains_key(key) implies #[trigger] entries_map(
        after,
    ).contains_key(key) by {
        let j = if key == entry.key@ { last } else { position(before, key) };
        assert(after[j].key@ == key);
    }
    assert(entries_map(after) =~= expected);
}

/// The entries that are left when the last entry is moved into position `i`.
spec fn without(entries: Seq<SecretEntry>, i: int) -> Seq<SecretEntry> {
    entries.update(i, entries.last()).drop_last()
}

/// Taking the entry at position `i` out removes its key from the map.
proof fn lemma_remove(before: Seq<SecretEntry>, i: int)
    requires
        distinct_keys(before),
        0 <= i < before.len(),
    ensures
        distinct_keys(without(before, i)),
        entries_map(without(before, i)) == entries_map(before).remove(before[i].key@),
{
    let after = without(before, i);
    let last = before.len() - 1;
    assert forall|j: int| 0 <= j < after.len() implies after[j] == before[if j == i {
        last
    } else {
        j
    }] by {}
    assert(distinct_keys(after)) by {
        assert forall|a: int, b: int| 0 <= a < b < after.len() implies after[a].key@
            != after[b].key@ by {
            let a0 = if a == i { last } else { a };
            let b0 = if b == i { last } else { b };
            if a0 < b0 {
                assert(before[a0].key@ != before[b0].key@);
            } else {
                assert(before[b0].key@ != before[a0].key@);
            }
        }
    }
    let expected = entries_map(before).remove(before[i].key@);
    assert forall|key: Seq<char>| entries_map(after).contains_key(key) implies #[trigger]
        expected.contains_key(key) && expected[key] == entries_map(after)[key] by {
        let j = position(after, key);
        let j0 = if j == i { last } else { j };
        lemma_entry_in_map(after, j);
        lemma_entry_in_map(before, j0);
        if j0 < i {
            assert(before[j0].key@ != before[i].key@);
        } else {
            assert(before[i].key@ != before[j0].key@);
        }
    }
    assert forall|key: Seq<char>| expected.contains_key(key) implies #[trigger] entries_map(
        after,
    ).contains_key(key) by {
        let j0 = position(before, key);
        let j = if j0 == last { i } else { j0 };
        assert(after[j].key@ == key);
    }
    assert(entries_map(after) =~= expected);
}

/// Where `key` is held in `entries`, if anywhere.
fn find(entries: &Vec<SecretEntry>, key: &str) -> (found: Option<usize>)
    ensures
        match found {
            Some(i) => i < entries@.len() && entries@[i as int].key@ == key@,
            None => !has_key(entries@, key@),
        },
{
    let mut i: usize = 0;
    while i < entries.len()
        invariant
            i <= entries@.len(),
            forall|j: int| 0 <= j < i ==> entries@[j].key@ != key@,
        decreases entries@.len() - i,
    {
        if same_text(entries[i].key.as_str(), key) {
            return Some(i);
        }
        i += 1;
    }
    None
}

/// The store of secrets: entries keyed by name, each with its expiry, behind a
/// lock that only the master password opens.
///
/// Time is counted in ticks since the store was created. The operations whose
/// names end in `_at` take the current tick from the caller; the others read
/// the store's own clock.
pub struct SecretStore {
    password: String,
    unlocked: bool,
    ttl_secs: u64,
    entries: Vec<SecretEntry>,
    started: Instant,
}

impl View for SecretStore {
    type V = StoreModel;

    closed spec fn view(&self) -> StoreModel {
        StoreModel {
            password: self.password@,
            unlocked: self.unlocked,
            ttl: self.ttl_secs as nat * TICKS_PER_SECOND as nat,
            entries: entries_map(self.entries@),
        }
    }
}

impl SecretStore {
    #[verifier::type_invariant]
    spec fn well_formed(self) -> bool {
        distinct_keys(self.entries@)
    }

    /// Creates a locked, empty store that only `password` unlocks and whose
    /// entries live for `ttl_secs` seconds.
    pub fn new(password: &str, ttl_secs: u64) -> (store: SecretStore)
        ensures
            store@ == StoreModel::new(password@, ttl_secs as nat * TICKS_PER_SECOND as nat),
    {
        let store = SecretStore {
            password: password.to_owned(),
            unlocked: false,
            ttl_secs,
            entries: Vec::new(),
            started: start(),
        };
        assert(entries_map(store.entries@) =~= Map::empty());
        store
    }

    /// Moves the entries out, leaving the store empty for the moment.
    fn take_entries(&mut self) -> (entries: Vec<SecretEntry>)
        ensures
            entries@ == old(self).entries@,
            distinct_keys(entries@),
            final(self).entries@ == Seq::<SecretEntry>::empty(),
            final(self).password == old(self).password,
            final(self).unlocked == old(self).unlocked,
            final(self).ttl_secs == old(self).ttl_secs,
    {
        proof {
            use_type_invariant(&*self);
        }
        let mut entries: Vec<SecretEntry> = Vec::new();
        core::mem::swap(&mut self.entries, &mut entries);
        entries
    }

    /// Moves `entries` in, in place of what the store held.
    fn put_entries(&mut self, entries: Vec<SecretEntry>)
        requires
            distinct_keys(entries@),
        ensures
            final(self).entries@ == entries@,
            final(self).password == old(self).password,
            final(self).unlocked == old(self).unlocked,
            final(self).ttl_secs == old(self).ttl_secs,
    {
        let mut entries = entries;
        core::mem::swap(&mut self.entries, &mut entries);
    }

    /// Sets the lock open exactly if `candidate` is the master password, and
    /// reports whether it is open now.
    pub fn unlock(&mut self, candidate: &str) -> (unlocked: bool)
        ensures
            final(self)@ == old(self)@.unlock(candidate@),
            unlocked == (candidate@ == old(self)@.password),
            unlocked == final(self)@.unlocked,
    {
        proof {
            use_type_invariant(&*self);
        }
        self.unlocked = same_text(candidate, self.password.as_str());
        self.unlocked
    }

    /// Locks the store. The entries stay; only their expiry removes them.
    pub fn lock(&mut self)
        ensures
            final(self)@ == old(self)@.lock(),
    {
        proof {
            use_type_invariant(&*self);
        }
        self.unlocked = false;
    }

    /// Stores `value` under `key` at tick `now`, replacing what the key held.
    /// The entry expires `ttl` ticks later. A locked store refuses and stays
    /// as it is.
    pub fn set_at(&mut self, key: String, value: String, now: u64) -> (outcome: Result<
        (),
        StoreError,
    >)
        ensures
            final(self)@ == old(self)@.set(key@, value@, now as nat),
            outcome == old(self)@.write_outcome(),
    {
        if !self.unlocked {
            return Err(StoreError::Unauthorized);
        }
        assert(self.ttl_secs as nat * TICKS_PER_SECOND as nat <= u64::MAX as nat * 1_000_000_000)
            by (nonlinear_arith)
            requires
                self.ttl_secs <= u64::MAX,
                TICKS_PER_SECOND == 1_000_000_000,
        ;
        let expires_at: u128 = now as u128 + self.ttl_secs as u128 * TICKS_PER_SECOND as u128;
        let mut entries = self.take_entries();
        let ghost before = entries@;
        let found = find(&entries, key.as_str());
        let entry = SecretEntry { key, value, expires_at };
        match found {
            Some(i) => {
                proof {
                    lemma_replace(before, i as int, entry);
                }
                entries[i] = entry;
            },
            None => {
                proof {
                    lemma_push(before, entry);
                }
                entries.push(entry);
            },
        }
        self.put_entries(entries);
        Ok(())
    }

    /// Reads the value under `key` at tick `now`. An entry is readable only
    /// before its expiry; one found stale is dropped. A locked store refuses
    /// and stays as it is.
    pub fn get_at(&mut self, key: &str, now: u64) -> (outcome: Result<Option<String>, StoreError>)
        ensures
            final(self)@ == old(self)@.get(key@, now as nat),
            read_model(outcome) == old(self)@.read_outcome(key@, now as nat),
    {
        if !self.unlocked {
            return Err(StoreError::Unauthorized);
        }
        proof {
            use_type_invariant(&*self);
        }
        match find(&self.entries, key) {
            None => {
                assert(self@.entries.remove(key@) =~= self@.entries);
                Ok(None)
            },
            Some(i) => {
                proof {
                    lemma_entry_in_map(self.entries@, i as int);
                }
                if (now as u128) < self.entries[i].expires_at {
                    Ok(Some(self.entries[i].value.clone()))
                } else {
                    let mut entries = self.take_entries();
                    proof {
                        lemma_remove(entries@, i as int);
                    }
                    entries.swap_remove(i);
                    self.put_entries(entries);
                    Ok(None)
                }
            },
        }
    }

    /// Drops every entry that has expired at tick `now`, whether or not
    /// anyone read it since. The lock is not consulted and does not change.
    pub fn cleanup_expired_at(&mut self, now: u64)
        ensures
            final(self)@ == old(self)@.sweep(now as nat),
    {
        let mut entries = self.take_entries();
        let ghost before = entries_map(entries@);
        let mut i: usize = 0;
        while i < entries.len()
            invariant
                i <= entries@.len(),
                distinct_keys(entries@),
                forall|key: Seq<char>| #[trigger]
                    entries_map(entries@).contains_key(key) ==> before.contains_key(key)
                        && entries_map(entries@)[key] == before[key],
                forall|key: Seq<char>|
                    before.contains_key(key) && now < before[key].expires_at
                        ==> #[trigger] entries_map(entries@).contains_key(key),
                forall|j: int| 0 <= j < i ==> now < (#[trigger] entries@[j]).expires_at,
            decreases entries@.len() - i,
        {
            proof {
                lemma_entry_in_map(entries@, i as int);
            }
            if (now as u128) < entries[i].expires_at {
                i += 1;
            } else {
                proof {
                    lemma_remove(entries@, i as int);
                }
                entries.swap_remove(i);
            }
        }
        proof {
            let kept = entries_map(entries@);
            assert forall|key: Seq<char>| #[trigger] kept.contains_key(key) implies now
                < before[key].expires_at by {
                assert(has_key(entries@, key));
                let j = position(entries@, key);
                lemma_entry_in_map(entries@, j);
                assert(now < entries@[j].expires_at);
                assert(kept[key] == before[key]);
            }
        }
        self.put_entries(entries);
        assert(self@.entries =~= old(self)@.sweep(now as nat).entries);
    }

    /// The current tick of the store's clock: the nanoseconds since the store
    /// was created, held at `u64::MAX` once they no longer fit. Which reading
    /// the clock gives is not known beforehand; the tick is the one that
    /// stands for it.
    pub fn now(&self) -> (ticks: u64)
        ensures
            exists|nanos: u128| ticks == #[trigger] ticks_of(nanos),
    {
        let nanos = elapsed_nanos(&self.started);
        ticks_from_nanos(nanos)
    }

    /// [`set_at`](Self::set_at) at the current tick of the store's clock.
    pub fn set(&mut self, key: String, value: String) -> (outcome: Result<(), StoreError>)
        ensures
            exists|now: nat| final(self)@ == #[trigger] old(self)@.set(key@, value@, now),
            outcome == old(self)@.write_outcome(),
    {
        let now = self.now();
        self.set_at(key, value, now)
    }

    /// [`get_at`](Self::get_at) at the current tick of the store's clock.
    pub fn get(&mut self, key: &str) -> (outcome: Result<Option<String>, StoreError>)
        ensures
            exists|now: nat|
                {
                    &&& final(self)@ == #[trigger] old(self)@.get(key@, now)
                    &&& read_model(outcome) == old(self)@.read_outcome(key@, now)
                },
    {
        let now = self.now();
        self.get_at(key, now)
    }

    /// [`cleanup_expired_at`](Self::cleanup_expired_at) at the current tick of
    /// the store's clock: one round of the reaper.
    pub fn cleanup_expired(&mut self)
        ensures
            exists|now: nat| final(self)@ == #[trigger] old(self)@.sweep(now),
    {
        let now = self.now();
        self.cleanup_expired_at(now)
    }

    /// Whether the store is unlocked.
    pub fn is_unlocked(&self) -> (unlocked: bool)
        ensures
            unlocked == self@.unlocked,
    {
        self.unlocked
    }

    /// Whether `key` holds an entry, live or stale.
    pub fn contains_key(&self, key: &str) -> (held: bool)
        ensures
            held == self@.entries.contains_key(key@),
    {
        find(&self.entries, key).is_some()
    }
}

} // verus!
