//! The table of storage subscriptions that a file watcher serves, and what
//! the watcher is told when keys are subscribed and unsubscribed.
use crate::keymap::KeyMap;
use vstd::prelude::*;

verus! {

/// An instruction for the file watcher.
pub enum WatcherAction {
    /// Start watching the file of this key.
    Subscribe(String),
    /// Stop watching the file of this key.
    Unsubscribe(String),
}

/// What to do when the file of a key changes.
#[derive(Clone, Copy, Debug, PartialEq, Eq, Structural)]
pub enum ChangeOutcome {
    /// Nobody subscribed to the key.
    Ignored,
    /// The subscription's channel had closed; it was dropped.
    Removed,
    /// Send the key's new value to the subscription.
    Notify,
}

/// The table after subscribing to `key`: an existing subscription is kept;
/// otherwise `made` becomes the key's subscription.
pub open spec fn after_subscribe<S>(table: Map<Seq<char>, S>, key: Seq<char>, made: S) -> Map<
    Seq<char>,
    S,
> {
    if table.contains_key(key) {
        table
    } else {
        table.insert(key, made)
    }
}

/// Whether subscribing to `key` tells the watcher to start watching: only
/// when the key had no subscription.
pub open spec fn subscribe_acts<S>(table: Map<Seq<char>, S>, key: Seq<char>) -> bool {
    !table.contains_key(key)
}

/// Subscribing to a key a second time keeps the table as the first
/// subscription left it and tells the watcher nothing, so the watcher hears
/// at most one subscribe for each key, and every subscriber shares the first
/// subscription.
pub proof fn lemma_subscribe_twice<S>(table: Map<Seq<char>, S>, key: Seq<char>, first: S, second: S)
    ensures
        after_subscribe(after_subscribe(table, key, first), key, second) == after_subscribe(
            table,
            key,
            first,
        ),
        !subscribe_acts(after_subscribe(table, key, first), key),
        after_subscribe(table, key, first)[key] == if table.contains_key(key) {
            table[key]
        } else {
            first
        },
{
}

/// Subscriptions by key.
pub struct SubscriptionTable<S> {
    subscriptions: KeyMap<S>,
}

impl<S> View for SubscriptionTable<S> {
    type V = Map<Seq<char>, S>;

    closed spec fn view(&self) -> Map<Seq<char>, S> {
        self.subscriptions@
    }
}

impl<S> SubscriptionTable<S> {
    /// No subscriptions.
    pub fn new() -> (res: Self)
        ensures
            res@ == Map::<Seq<char>, S>::empty(),
    {
        SubscriptionTable { subscriptions: KeyMap::new() }
    }

    /// The subscription for `key`, whose channel a new subscriber joins.
    pub fn existing(&self, key: &String) -> (res: Option<&S>)
        ensures
            match res {
                Some(s) => self@.contains_key(key@) && *s == self@[key@],
                None => !self@.contains_key(key@),
            },
    {
        self.subscriptions.get(key)
    }

    /// Records a new subscription for `key` and gives the instruction that
    /// starts watching its file.
    pub fn register(&mut self, key: String, subscription: S) -> (res: WatcherAction)
        ensures
            final(self)@ == old(self)@.insert(key@, subscription),
            res matches WatcherAction::Subscribe(k) && k@ == key@,
    {
        let action_key = key.clone();
        self.subscriptions.insert(key, subscription);
        WatcherAction::Subscribe(action_key)
    }

    /// Subscribes to `key`: joins the key's existing subscription, or else
    /// records the one `make` gives and hands back the instruction that
    /// starts watching the key's file.
    pub fn subscribe<F: FnOnce() -> S>(&mut self, key: String, make: F) -> (res: Option<
        WatcherAction,
    >)
        requires
            !old(self)@.contains_key(key@) ==> make.requires(()),
        ensures
            final(self)@.contains_key(key@),
            final(self)@ == after_subscribe(old(self)@, key@, final(self)@[key@]),
            !old(self)@.contains_key(key@) ==> make.ensures((), final(self)@[key@]),
            (res is Some) == subscribe_acts(old(self)@, key@),
            res matches Some(a) ==> a matches WatcherAction::Subscribe(k) && k@ == key@,
    {
        if self.subscriptions.contains_key(&key) {
            return None;
        }
        let subscription = make();
        let action_key = key.clone();
        self.subscriptions.insert(key, subscription);
        Some(WatcherAction::Subscribe(action_key))
    }

    /// Drops the subscription for `key`; when there was one, gives the
    /// instruction that stops watching its file.
    pub fn unsubscribe(&mut self, key: &String) -> (res: Option<WatcherAction>)
        ensures
            final(self)@ == old(self)@.remove(key@),
            match res {
                Some(a) => old(self)@.contains_key(key@) && (a matches WatcherAction::Unsubscribe(k)
                    && k@ == key@),
                None => !old(self)@.contains_key(key@),
            },
    {
        match self.subscriptions.remove(key) {
            Some(_) => Some(WatcherAction::Unsubscribe(key.clone())),
            None => None,
        }
    }

    /// Decides what a change of `key`'s file leads to, given whether the
    /// key's subscription channel has closed; a closed one is dropped.
    pub fn on_change(&mut self, key: &String, channel_closed: bool) -> (res: ChangeOutcome)
        ensures
            !old(self)@.contains_key(key@) ==> res == ChangeOutcome::Ignored && final(self)@ == old(
                self,
            )@,
            old(self)@.contains_key(key@) && channel_closed ==> res == ChangeOutcome::Removed
                && final(self)@ == old(self)@.remove(key@),
            old(self)@.contains_key(key@) && !channel_closed ==> res == ChangeOutcome::Notify
                && final(self)@ == old(self)@,
    {
        if !self.subscriptions.contains_key(key) {
            return ChangeOutcome::Ignored;
        }
        if channel_closed {
            let _ = self.subscriptions.remove(key);
            ChangeOutcome::Removed
        } else {
            ChangeOutcome::Notify
        }
    }
}

} // verus!
