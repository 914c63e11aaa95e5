//! The in-memory session store and the rules by which a stored entry is
//! read, initialised and refreshed.
use crate::keymap::KeyMap;
use vstd::prelude::*;

verus! {

/// Where a storage entry lives.
#[derive(Clone, Copy, Debug, PartialEq, Eq, Structural)]
pub enum StorageType {
    Local,
    Session,
}

/// An in-memory store of values by key, for one session.
pub struct SessionStore<V> {
    map: KeyMap<V>,
}

impl<V> View for SessionStore<V> {
    type V = Map<Seq<char>, V>;

    closed spec fn view(&self) -> Map<Seq<char>, V> {
        self.map@
    }
}

impl<V> SessionStore<V> {
    /// An empty store.
    pub fn new() -> (res: Self)
        ensures
            res@ == Map::<Seq<char>, V>::empty(),
    {
        SessionStore { map: KeyMap::new() }
    }

    /// Stores `value` under `key`, replacing what was there.
    pub fn set(&mut self, key: String, value: V)
        ensures
            final(self)@ == old(self)@.insert(key@, value),
    {
        self.map.insert(key, value);
    }

    /// The value stored under `key`, if any.
    pub fn get(&self, key: &String) -> (res: Option<&V>)
        ensures
            match res {
                Some(v) => self@.contains_key(key@) && *v == self@[key@],
                None => !self@.contains_key(key@),
            },
    {
        self.map.get(key)
    }
}

/// A read gives back the last value written under its key, and a write
/// under one key leaves every other key as it was.
pub proof fn lemma_session_read_after_write<V>(
    before: Map<Seq<char>, V>,
    key: Seq<char>,
    value: V,
    other: Seq<char>,
)
    ensures
        before.insert(key, value).contains_key(key),
        before.insert(key, value)[key] == value,
        other != key ==> (before.insert(key, value).contains_key(other) == before.contains_key(
            other,
        ) && (before.contains_key(other) ==> before.insert(key, value)[other] == before[other])),
{
}

/// The value an entry starts from: the stored one when there is one;
/// otherwise the one that `init` makes, which must then be written back.
/// The second part of the result says whether to write it back.
pub fn initial_value<T, F: FnOnce() -> T>(stored: Option<T>, init: F) -> (res: (T, bool))
    requires
        stored is None ==> init.requires(()),
    ensures
        match stored {
            Some(v) => res.0 == v && !res.1,
            None => init.ensures((), res.0) && res.1,
        },
{
    match stored {
        Some(v) => (v, false),
        None => (init(), true),
    }
}

/// The value an entry holds after a refresh: the stored one when there is
/// one, else the one it held.
pub fn refreshed_value<T>(current: T, stored: Option<T>) -> (res: T)
    ensures
        res == match stored {
            Some(v) => v,
            None => current,
        },
{
    match stored {
        Some(v) => v,
        None => current,
    }
}

/// Whether a synced entry writes its value to storage: not when the value
/// last seen on the entry's channel is of the entry's type and equal to it
/// (`Some(true)`); otherwise, when it differs or could not be read, yes.
pub fn save_needed(channel_value_equal: Option<bool>) -> (res: bool)
    ensures
        res == (channel_value_equal != Some(true)),
{
    match channel_value_equal {
        Some(same) => !same,
        None => true,
    }
}

} // verus!
