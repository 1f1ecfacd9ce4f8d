//! The mathematical model of the secret store, and what holds of it.
//!
//! Time is a count of ticks. An entry written at tick `t` by a store whose
//! lifetime is `ttl` ticks expires at tick `t + ttl`: it is readable at every
//! tick before that one and at none from it on.

use crate::store::StoreError;
use vstd::prelude::*;

verus! {

/// Mathematical model of one stored secret.
pub struct EntryModel {
    /// The secret itself.
    pub value: Seq<char>,
    /// The first tick at which the secret is no longer readable.
    pub expires_at: nat,
}

/// Mathematical model of a [`SecretStore`](crate::store::SecretStore).
pub struct StoreModel {
    /// The master password, fixed when the store is created.
    pub password: Seq<char>,
    /// Whether reads and writes are currently permitted.
    pub unlocked: bool,
    /// Lifetime of every entry, in ticks.
    pub ttl: nat,
    /// The entries held, live or stale, by key.
    pub entries: Map<Seq<char>, EntryModel>,
}

impl StoreModel {
    /// A freshly created store: locked and empty.
    pub open spec fn new(password: Seq<char>, ttl: nat) -> StoreModel {
        StoreModel { password, unlocked: false, ttl, entries: Map::empty() }
    }

    /// The store after an unlock attempt with `candidate`.
    pub open spec fn unlock(self, candidate: Seq<char>) -> StoreModel {
        StoreModel { unlocked: candidate == self.password, ..self }
    }

    /// The store after locking.
    pub open spec fn lock(self) -> StoreModel {
        StoreModel { unlocked: false, ..self }
    }

    /// Whether `key` holds an entry that has not expired at tick `now`.
    pub open spec fn live(self, key: Seq<char>, now: nat) -> bool {
        self.entries.contains_key(key) && now < self.entries[key].expires_at
    }

    /// The value that `key` yields at tick `now`, the lock left aside.
    pub open spec fn lookup(self, key: Seq<char>, now: nat) -> Option<Seq<char>> {
        if self.live(key, now) {
            Some(self.entries[key].value)
        } else {
            None
        }
    }

    /// What a write answers: it is refused exactly when the store is locked.
    pub open spec fn write_outcome(self) -> Result<(), StoreError> {
        if self.unlocked {
            Ok(())
        } else {
            Err(StoreError::Unauthorized)
        }
    }

    /// The store after a write of `value` under `key` at tick `now`.
    pub open spec fn set(self, key: Seq<char>, value: Seq<char>, now: nat) -> StoreModel {
        if self.unlocked {
            StoreModel {
                entries: self.entries.insert(
                    key,
                    EntryModel { value, expires_at: now + self.ttl },
                ),
                ..self
            }
        } else {
            self
        }
    }

    /// What a read of `key` at tick `now` answers: it is refused exactly when
    /// the store is locked, and otherwise yields the live value, if any.
    pub open spec fn read_outcome(self, key: Seq<char>, now: nat) -> Result<
        Option<Seq<char>>,
        StoreError,
    > {
        if self.unlocked {
            Ok(self.lookup(key, now))
        } else {
            Err(StoreError::Unauthorized)
        }
    }

    /// The store after a read of `key` at tick `now`: a permitted read that
    /// finds no live entry drops whatever the key held.
    pub open spec fn get(self, key: Seq<char>, now: nat) -> StoreModel {
        if self.unlocked && !self.live(key, now) {
            StoreModel { entries: self.entries.remove(key), ..self }
        } else {
            self
        }
    }

    /// The store after every entry that has expired at tick `now` is dropped.
    pub open spec fn sweep(self, now: nat) -> StoreModel {
        StoreModel {
            entries: Map::new(
                |key: Seq<char>| self.live(key, now),
                |key: Seq<char>| self.entries[key],
            ),
            ..self
        }
    }
}

/// An entry is readable strictly before its expiry and never from it on:
/// a permitted read at a tick at or past `expires_at` finds nothing, one
/// before it finds the stored value.
pub proof fn entry_readable_until_expiry(store: StoreModel, key: Seq<char>, now: nat)
    requires
        store.unlocked,
        store.entries.contains_key(key),
    ensures
        now >= store.entries[key].expires_at ==> store.read_outcome(key, now) == Ok::<
            Option<Seq<char>>,
            StoreError,
        >(None),
        now < store.entries[key].expires_at ==> store.read_outcome(key, now) == Ok::<
            Option<Seq<char>>,
            StoreError,
        >(Some(store.entries[key].value)),
{
}

/// A value written at tick `written_at` is read back at every tick before
/// `written_at + ttl` and at none from then on.
pub proof fn written_value_expires(
    store: StoreModel,
    key: Seq<char>,
    value: Seq<char>,
    written_at: nat,
    now: nat,
)
    requires
        store.unlocked,
    ensures
        store.set(key, value, written_at).read_outcome(key, now) == Ok::<
            Option<Seq<char>>,
            StoreError,
        >(if now < written_at + store.ttl {
            Some(value)
        } else {
            None
        }),
{
}

/// What a read answers does not depend on whether a sweep ran before it: a
/// sweep at tick `swept_at` changes no answer at any tick from `swept_at` on.
pub proof fn sweep_changes_no_answer(store: StoreModel, key: Seq<char>, swept_at: nat, now: nat)
    requires
        swept_at <= now,
    ensures
        store.sweep(swept_at).read_outcome(key, now) == store.read_outcome(key, now),
{
}

/// A read changes no answer either: whatever it dropped was already
/// unreadable at that tick and stays so.
pub proof fn read_changes_no_answer(
    store: StoreModel,
    key: Seq<char>,
    read_at: nat,
    other: Seq<char>,
    now: nat,
)
    requires
        read_at <= now,
    ensures
        store.get(key, read_at).read_outcome(other, now) == store.read_outcome(other, now),
{
}

/// While the store is locked every read and every write is refused, whatever
/// the key and whatever was written before.
pub proof fn locked_store_refuses(store: StoreModel, key: Seq<char>, value: Seq<char>, now: nat)
    requires
        !store.unlocked,
    ensures
        store.write_outcome() == Err::<(), StoreError>(StoreError::Unauthorized),
        store.set(key, value, now) == store,
        store.read_outcome(key, now) == Err::<Option<Seq<char>>, StoreError>(
            StoreError::Unauthorized,
        ),
        store.get(key, now) == store,
{
}

/// Locking refuses every later read and write but forgets nothing: after the
/// right password the entries answer as if the store had never been locked.
pub proof fn lock_keeps_entries(store: StoreModel, key: Seq<char>, now: nat)
    requires
        store.unlocked,
    ensures
        !store.lock().unlocked,
        store.lock().entries == store.entries,
        store.lock().unlock(store.password).read_outcome(key, now) == store.read_outcome(key, now),
{
}

/// The master password, and nothing else, unlocks the store; a wrong one
/// leaves it locked even if it was open before.
pub proof fn only_password_unlocks(store: StoreModel, candidate: Seq<char>)
    ensures
        store.unlock(store.password).unlocked,
        candidate != store.password ==> !store.unlock(candidate).unlocked,
        store.unlock(candidate).entries == store.entries,
        store.unlock(candidate).password == store.password,
        store.unlock(candidate).ttl == store.ttl,
{
}

/// Of two writes to one key the second wins: the store is as if the first
/// had never happened.
pub proof fn last_write_wins(
    store: StoreModel,
    key: Seq<char>,
    first: Seq<char>,
    first_at: nat,
    second: Seq<char>,
    second_at: nat,
)
    requires
        store.unlocked,
    ensures
        store.set(key, first, first_at).set(key, second, second_at) == store.set(
            key,
            second,
            second_at,
        ),
{
    assert(store.set(key, first, first_at).set(key, second, second_at).entries =~= store.set(
        key,
        second,
        second_at,
    ).entries);
}

/// A sweep keeps exactly the entries that are still readable, unchanged, and
/// touches nothing else.
pub proof fn sweep_keeps_live_entries(store: StoreModel, key: Seq<char>, now: nat)
    ensures
        store.sweep(now).entries.contains_key(key) == store.live(key, now),
        store.live(key, now) ==> store.sweep(now).entries[key] == store.entries[key],
        store.sweep(now).unlocked == store.unlocked,
        store.sweep(now).password == store.password,
        store.sweep(now).ttl == store.ttl,
{
}

/// An entry does not outlast its lifetime even if nobody reads it: a sweep at
/// any tick from `written_at + ttl` on removes what was written at
/// `written_at`.
pub proof fn sweep_drops_expired_write(
    store: StoreModel,
    key: Seq<char>,
    value: Seq<char>,
    written_at: nat,
    now: nat,
)
    requires
        store.unlocked,
        now >= written_at + store.ttl,
    ensures
        !store.set(key, value, written_at).sweep(now).entries.contains_key(key),
{
}

} // verus!
