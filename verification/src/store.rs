//! The store: keys that hold values for a time, one key space per client.

use crate::trusted::{elapsed_millis, instant_now};
use crate::value::{Datum, RedisInt, RedisValue};
use std::collections::HashMap;
use tokio::time::Instant;
use vstd::hash_map::StringHashMap;
use vstd::prelude::*;

verus! {

broadcast use vstd::std_specs::hash::group_hash_axioms;

/// What a stored entry is: when it was written, how long it lasts, what it holds.
pub struct EntryView {
    /// The time of writing, in milliseconds on the store's clock.
    pub created_at: nat,
    /// The time to live in milliseconds, if the entry has one.
    pub ttl: Option<nat>,
    /// The value held.
    pub value: Datum,
}

/// The milliseconds from `created_at` to `now`, or none if `now` is earlier.
pub open spec fn elapsed(created_at: nat, now: nat) -> nat {
    if now >= created_at {
        (now - created_at) as nat
    } else {
        0
    }
}

impl EntryView {
    /// Whether the entry still counts at the time `now`: it has no time to
    /// live, or no more than that has gone by since it was written.
    pub open spec fn live(self, now: nat) -> bool {
        match self.ttl {
            None => true,
            Some(ttl) => elapsed(self.created_at, now) <= ttl,
        }
    }
}

/// A value in the store, with the time it was written and its time to live.
pub struct StoredEntry {
    /// The time of writing, in milliseconds on the store's clock.
    pub org: u128,
    /// The time to live in milliseconds, if the entry has one.
    pub exp: Option<u64>,
    /// The value held.
    pub val: RedisValue,
}

impl View for StoredEntry {
    type V = EntryView;

    open spec fn view(&self) -> EntryView {
        EntryView { created_at: self.org as nat, ttl: ttl_view(self.exp), value: self.val@ }
    }
}

/// The time to live as the model has it.
pub open spec fn ttl_view(exp: Option<u64>) -> Option<nat> {
    match exp {
        None => None,
        Some(ttl) => Some(ttl as nat),
    }
}

impl StoredEntry {
    /// An entry written at the time `now`.
    pub fn new(val: RedisValue, exp: Option<u64>, now: u128) -> (entry: Self)
        ensures
            entry == (StoredEntry { org: now, exp, val }),
    {
        StoredEntry { org: now, exp, val }
    }

    /// An entry like `other` in its times, holding `value`.
    pub fn from_other(other: &Self, value: RedisValue) -> (entry: Self)
        ensures
            entry == (StoredEntry { org: other.org, exp: other.exp, val: value }),
    {
        StoredEntry { org: other.org, exp: other.exp, val: value }
    }

    /// Whether the entry still counts at the time `now`.
    pub fn rtime_valid(&self, now: u128) -> (valid: bool)
        ensures
            valid == self@.live(now as nat),
    {
        match self.exp {
            None => true,
            Some(ttl) => {
                let gone: u128 = if now >= self.org {
                    now - self.org
                } else {
                    0
                };
                gone <= ttl as u128
            },
        }
    }
}

impl Clone for StoredEntry {
    fn clone(&self) -> (copy: Self)
        ensures
            copy@ == self@,
    {
        StoredEntry { org: self.org, exp: self.exp, val: self.val.clone() }
    }
}

/// A place in the store: the client that owns it, and the key.
pub type Slot = (usize, Seq<char>);

/// The store as mathematics: what each place holds.
pub type Contents = Map<Slot, EntryView>;

/// Why a counter could not be incremented.
#[derive(Clone, Copy, Debug, PartialEq, Eq)]
pub enum CounterError {
    /// The key holds a value that is not an integer.
    NotAnInteger,
    /// The key holds the largest integer there is.
    OutOfRange,
}

/// `m` after a read of `slot` at `now`: an entry that has lapsed is gone.
pub open spec fn after_read(m: Contents, slot: Slot, now: nat) -> Contents {
    if m.contains_key(slot) && !m[slot].live(now) {
        m.remove(slot)
    } else {
        m
    }
}

/// What a read of `slot` at `now` returns: the value of an entry that is
/// there and has not lapsed.
pub open spec fn read_result(m: Contents, slot: Slot, now: nat) -> Option<Datum> {
    if m.contains_key(slot) && m[slot].live(now) {
        Some(m[slot].value)
    } else {
        None
    }
}

/// `m` after `value` is written to `slot` at `now`, to last for `ttl`.
pub open spec fn after_insert(
    m: Contents,
    slot: Slot,
    value: Datum,
    ttl: Option<nat>,
    now: nat,
) -> Contents {
    m.insert(slot, EntryView { created_at: now, ttl, value })
}

/// What incrementing the counter at `slot` at `now` returns: the number it
/// held before, where a counter that was never set, or has lapsed, held 0.
pub open spec fn increment_result(m: Contents, slot: Slot, now: nat) -> Result<
    RedisInt,
    CounterError,
> {
    match read_result(m, slot, now) {
        None => Ok(0),
        Some(Datum::Int(n)) => if n < i64::MAX {
            Ok(n as i64)
        } else {
            Err(CounterError::OutOfRange)
        },
        Some(_) => Err(CounterError::NotAnInteger),
    }
}

/// `m` after the counter at `slot` is incremented at `now`.
///
/// A counter that is there keeps its times and holds one more. One that was
/// never set, or has lapsed, is set to 1, without a time to live. Where the
/// increment fails, nothing changes.
pub open spec fn after_increment(m: Contents, slot: Slot, now: nat) -> Contents {
    match read_result(m, slot, now) {
        None => m.insert(slot, EntryView { created_at: now, ttl: None, value: Datum::Int(1) }),
        Some(Datum::Int(n)) => if n < i64::MAX {
            m.insert(slot, EntryView { value: Datum::Int(n + 1), ..m[slot] })
        } else {
            m
        },
        Some(_) => m,
    }
}

/// `m` without the places that `owner` owns.
pub open spec fn after_purge(m: Contents, owner: usize) -> Contents {
    Map::new(|slot: Slot| m.contains_key(slot) && slot.0 != owner, |slot: Slot| m[slot])
}

/// The store's clock: milliseconds since the store was made.
///
/// A reading depends on the moment at which it is taken, so nothing is
/// promised of it. What the store does with a reading is stated by the
/// functions that take the time as an argument, for every value of it.
pub struct Clock {
    epoch: Instant,
}

impl Clock {
    /// A clock that starts now. Nothing is promised of the moment.
    pub fn start() -> (clock: Self) {
        Clock { epoch: instant_now() }
    }

    /// The milliseconds gone by since the clock was started. Nothing is
    /// promised of the number.
    pub fn now(&self) -> (millis: u128) {
        elapsed_millis(&self.epoch)
    }
}

/// The store shared by all connections.
pub struct Database {
    clock: Clock,
    spaces: HashMap<usize, StringHashMap<StoredEntry>>,
}

impl View for Database {
    type V = Contents;

    closed spec fn view(&self) -> Contents {
        Map::new(
            |slot: Slot|
                self.spaces@.contains_key(slot.0) && self.spaces@[slot.0]@.contains_key(slot.1),
            |slot: Slot| self.spaces@[slot.0]@[slot.1]@,
        )
    }
}

impl Database {
    /// An empty store, whose clock starts now.
    pub fn new() -> (db: Self)
        ensures
            db@ == Map::<Slot, EntryView>::empty(),
    {
        let db = Database { clock: Clock::start(), spaces: HashMap::new() };
        db
    }

    /// The time on the store's clock, in milliseconds. Nothing is promised
    /// of the number; `insert_at`, `read_at` and `increment_at` say what is
    /// done with it.
    pub fn now(&self) -> (millis: u128) {
        self.clock.now()
    }

    /// Takes the key space of `owner` out of the store.
    fn take_space(&mut self, owner: usize) -> (space: StringHashMap<StoredEntry>)
        ensures
            final(self).spaces@ == old(self).spaces@.remove(owner),
            old(self).spaces@.contains_key(owner) ==> space@ == old(self).spaces@[owner]@,
            !old(self).spaces@.contains_key(owner) ==> space@ == Map::<
                Seq<char>,
                StoredEntry,
            >::empty(),
    {
        match self.spaces.remove(&owner) {
            Some(space) => space,
            None => StringHashMap::new(),
        }
    }

    /// Puts the key space of `owner` back.
    fn put_space(&mut self, owner: usize, space: StringHashMap<StoredEntry>)
        ensures
            final(self).spaces@ == old(self).spaces@.insert(owner, space),
    {
        self.spaces.insert(owner, space);
    }

    /// Whether `owner` has an entry under `key`, lapsed or not.
    pub fn contains(&self, owner: usize, key: &str) -> (found: bool)
        ensures
            found == self@.contains_key((owner, key@)),
    {
        match self.spaces.get(&owner) {
            None => false,
            Some(space) => space.contains_key(key),
        }
    }

    /// The entry that `owner` has under `key`, lapsed or not.
    pub fn peek(&self, owner: usize, key: &str) -> (found: Option<StoredEntry>)
        ensures
            match found {
                Some(entry) => self@.contains_key((owner, key@)) && entry@ == self@[(owner, key@)],
                None => !self@.contains_key((owner, key@)),
            },
    {
        match self.spaces.get(&owner) {
            None => None,
            Some(space) => match space.get(key) {
                None => None,
                Some(entry) => Some(entry.clone()),
            },
        }
    }

    /// Puts `entry` under `key` for `owner`.
    fn put_entry(&mut self, owner: usize, key: String, entry: StoredEntry)
        ensures
            final(self)@ == old(self)@.insert((owner, key@), entry@),
    {
        let mut space = self.take_space(owner);
        space.insert(key, entry);
        self.put_space(owner, space);
    }

    /// Writes `value` under `key` for `owner` at the time `now`, whatever was
    /// there before.
    pub fn insert_at(
        &mut self,
        owner: usize,
        key: String,
        value: RedisValue,
        ttl: Option<u64>,
        now: u128,
    )
        ensures
            final(self)@ == after_insert(
                old(self)@,
                (owner, key@),
                value@,
                ttl_view(ttl),
                now as nat,
            ),
    {
        self.put_entry(owner, key, StoredEntry::new(value, ttl, now));
    }

    /// Removes what `owner` has under `key`, if anything.
    pub fn remove(&mut self, owner: usize, key: &str)
        ensures
            final(self)@ == old(self)@.remove((owner, key@)),
    {
        let mut space = self.take_space(owner);
        space.remove(key);
        self.put_space(owner, space);
    }

    /// Reads what `owner` has under `key` at the time `now`. An entry that
    /// has lapsed is removed, and nothing is returned for it.
    pub fn read_at(&mut self, owner: usize, key: &str, now: u128) -> (value: Option<RedisValue>)
        ensures
            final(self)@ == after_read(old(self)@, (owner, key@), now as nat),
            match value {
                Some(v) => read_result(old(self)@, (owner, key@), now as nat) == Some(v@),
                None => read_result(old(self)@, (owner, key@), now as nat) is None,
            },
    {
        match self.peek(owner, key) {
            None => None,
            Some(entry) => {
                if entry.rtime_valid(now) {
                    Some(entry.val)
                } else {
                    self.remove(owner, key);
                    None
                }
            },
        }
    }

    /// Removes everything that `owner` has.
    pub fn purge(&mut self, owner: usize)
        ensures
            final(self)@ == after_purge(old(self)@, owner),
    {
        let _ = self.take_space(owner);
    }

    /// Increments the counter that `owner` has under `key`, at the time
    /// `now`, and returns the number it held before.
    pub fn increment_at(&mut self, owner: usize, key: &str, now: u128) -> (prior: Result<
        RedisInt,
        CounterError,
    >)
        ensures
            prior == increment_result(old(self)@, (owner, key@), now as nat),
            prior matches Ok(n) ==> n < i64::MAX,
            final(self)@ == after_increment(old(self)@, (owner, key@), now as nat),
    {
        match self.peek(owner, key) {
            Some(entry) => {
                if entry.rtime_valid(now) {
                    match entry.val.unpack_int_variant() {
                        None => Err(CounterError::NotAnInteger),
                        Some(n) => {
                            if n < i64::MAX {
                                let next = StoredEntry::from_other(&entry, RedisValue::Int(n + 1));
                                self.put_entry(owner, key.to_owned(), next);
                                Ok(n)
                            } else {
                                Err(CounterError::OutOfRange)
                            }
                        },
                    }
                } else {
                    self.insert_at(owner, key.to_owned(), RedisValue::Int(1), None, now);
                    Ok(0)
                }
            },
            None => {
                self.insert_at(owner, key.to_owned(), RedisValue::Int(1), None, now);
                Ok(0)
            },
        }
    }

    /// Writes `value` under `key` for `owner`, stamped with the time on the
    /// store's clock.
    pub fn insert(&mut self, owner: usize, key: String, value: RedisValue, ttl: Option<u64>)
        ensures
            exists|now: nat|
                final(self)@ == after_insert(
                    old(self)@,
                    (owner, key@),
                    value@,
                    ttl_view(ttl),
                    now,
                ),
    {
        let now = self.now();
        self.insert_at(owner, key, value, ttl, now);
    }

    /// Reads what `owner` has under `key`, at the time on the store's clock.
    pub fn read(&mut self, owner: usize, key: &str) -> (value: Option<RedisValue>)
        ensures
            exists|now: nat|
                final(self)@ == after_read(old(self)@, (owner, key@), now) && (match value {
                    Some(v) => read_result(old(self)@, (owner, key@), now) == Some(v@),
                    None => read_result(old(self)@, (owner, key@), now) is None,
                }),
    {
        let now = self.now();
        self.read_at(owner, key, now)
    }

    /// Increments the counter that `owner` has under `key`, at the time on
    /// the store's clock.
    pub fn increment(&mut self, owner: usize, key: &str) -> (prior: Result<
        RedisInt,
        CounterError,
    >)
        ensures
            exists|now: nat|
                prior == increment_result(old(self)@, (owner, key@), now) && final(self)@
                    == after_increment(old(self)@, (owner, key@), now),
    {
        let now = self.now();
        self.increment_at(owner, key, now)
    }
}

} // verus!
