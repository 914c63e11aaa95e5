//! Channel listeners: whether a listener runs, and what it does with each
//! thing it receives.
use vstd::prelude::*;

verus! {

/// Whether a channel listener delivers messages.
#[derive(Clone, Copy, Debug, PartialEq, Eq, Structural)]
pub enum ChannelListenerState {
    Running,
    Stopped,
}

/// What a receive on a broadcast channel gave.
#[derive(Clone, Copy, Debug, PartialEq, Eq, Structural)]
pub enum Received {
    /// A message.
    Message,
    /// The channel closed.
    Closed,
    /// The receiver fell behind and messages were lost.
    Overflowed,
}

/// The handle that stops and resumes a channel listener.
#[derive(Clone, Copy, Debug, PartialEq, Eq, Structural)]
pub struct UseListenChannel {
    pub listener_state: ChannelListenerState,
}

impl UseListenChannel {
    /// A running listener.
    pub fn new() -> (res: Self)
        ensures
            res.listener_state == ChannelListenerState::Running,
    {
        UseListenChannel { listener_state: ChannelListenerState::Running }
    }

    /// Stops the listener.
    pub fn stop(&mut self)
        ensures
            final(self).listener_state == ChannelListenerState::Stopped,
    {
        if self.listener_state == ChannelListenerState::Running {
            self.listener_state = ChannelListenerState::Stopped;
        }
    }

    /// Resumes the listener.
    pub fn resume(&mut self)
        ensures
            final(self).listener_state == ChannelListenerState::Running,
    {
        if self.listener_state == ChannelListenerState::Stopped {
            self.listener_state = ChannelListenerState::Running;
        }
    }
}

/// Whether a listener in `state` starts listening at all.
pub fn starts_listening(state: ChannelListenerState) -> (res: bool)
    ensures
        res == (state == ChannelListenerState::Running),
{
    state == ChannelListenerState::Running
}

/// Whether the listener's action runs for what was received: only for a
/// message, and only while the listener runs.
pub fn delivers(state: ChannelListenerState, received: Received) -> (res: bool)
    ensures
        res == (received == Received::Message && state == ChannelListenerState::Running),
{
    received == Received::Message && state == ChannelListenerState::Running
}

/// Whether a state-aware listener goes on receiving: not once the channel
/// closed, and not once the listener was stopped.
pub fn keeps_listening(state: ChannelListenerState, received: Received) -> (res: bool)
    ensures
        res == (received != Received::Closed && state == ChannelListenerState::Running),
{
    received != Received::Closed && state == ChannelListenerState::Running
}

/// Whether a listener that hands every outcome to its action goes on
/// receiving: until the channel closes.
pub fn continues_after(received: Received) -> (res: bool)
    ensures
        res == (received != Received::Closed),
{
    received != Received::Closed
}

/// How many of the outcomes received, in order, a listener that hands
/// every outcome to its action hands over: each one up to and including the
/// first close.
pub open spec fn handled_count(received: Seq<Received>) -> nat
    decreases received.len(),
{
    if received.len() == 0 {
        0
    } else if received[0] == Received::Closed {
        1
    } else {
        1 + handled_count(received.drop_first())
    }
}

/// Runs the listening loop over `received`: each outcome goes to the action
/// in turn, and the loop ends after the channel closes. Gives the number of
/// outcomes handed over.
pub fn handled_items(received: &Vec<Received>) -> (n: usize)
    ensures
        n == handled_count(received@),
{
    let mut k: usize = 0;
    assert(received@.skip(0) =~= received@);
    while k < received.len()
        invariant
            k <= received@.len(),
            handled_count(received@) == k + handled_count(received@.skip(k as int)),
            k > 0 ==> received@[k - 1] != Received::Closed,
        decreases received.len() - k,
    {
        let item = received[k];
        assert(received@.skip(k as int).drop_first() =~= received@.skip(k + 1));
        assert(received@.skip(k as int)[0] == item);
        k = k + 1;
        if !continues_after(item) {
            return k;
        }
    }
    assert(received@.skip(k as int) =~= Seq::<Received>::empty());
    k
}

/// The action sees the outcomes in the order received: every one before
/// the first close, then the close once, and nothing after it; when the
/// channel never closes, it sees them all.
pub proof fn lemma_listener_order(received: Seq<Received>)
    ensures
        handled_count(received) <= received.len(),
        forall|i: int|
            0 <= i < handled_count(received) - 1 ==> received[i] != Received::Closed,
        handled_count(received) < received.len() ==> handled_count(received) >= 1
            && received[handled_count(received) - 1] == Received::Closed,
        (forall|i: int| 0 <= i < received.len() ==> received[i] != Received::Closed)
            ==> handled_count(received) == received.len(),
    decreases received.len(),
{
    if received.len() > 0 && received[0] != Received::Closed {
        let rest = received.drop_first();
        lemma_listener_order(rest);
        assert forall|i: int| 0 <= i < handled_count(received) - 1 implies received[i]
            != Received::Closed by {
            if i > 0 {
                assert(received[i] == rest[i - 1]);
            }
        }
        if handled_count(received) < received.len() {
            assert(received[handled_count(received) - 1] == rest[handled_count(rest) - 1]);
        }
        if forall|i: int| 0 <= i < received.len() ==> received[i] != Received::Closed {
            assert forall|i: int| 0 <= i < rest.len() implies rest[i] != Received::Closed by {
                assert(rest[i] == received[i + 1]);
            }
        }
    }
}

} // verus!
