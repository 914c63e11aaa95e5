//! Connection management: messages tagged with a channel name, and the table
//! that routes incoming messages to the channel they name.
use crate::keymap::KeyMap;
use vstd::prelude::*;

verus! {

/// A message on a named channel.
pub struct Message {
    pub channel: String,
    pub data: String,
}

impl Message {
    /// A message with `data` on `channel`.
    pub fn new(channel: String, data: String) -> (res: Self)
        ensures
            res.channel == channel,
            res.data == data,
    {
        Message { channel, data }
    }
}

/// A connection error, with its text.
pub enum ConnError {
    Send(String),
    Recv(String),
}

/// The channels of a connection: the sender `S` that feeds each one.
pub struct Manager<S> {
    channels: KeyMap<S>,
}

impl<S> View for Manager<S> {
    type V = Map<Seq<char>, S>;

    closed spec fn view(&self) -> Map<Seq<char>, S> {
        self.channels@
    }
}

impl<S> Manager<S> {
    /// A manager with no channels.
    pub fn new() -> (res: Self)
        ensures
            res@ == Map::<Seq<char>, S>::empty(),
    {
        Manager { channels: KeyMap::new() }
    }

    /// Subscribes `sender` to `channel`, replacing an earlier subscriber.
    pub fn channel(&mut self, channel: String, sender: S)
        ensures
            final(self)@ == old(self)@.insert(channel@, sender),
    {
        self.channels.insert(channel, sender);
    }

    /// The sender that an incoming message goes to: the one subscribed to
    /// the channel it names, if any.
    pub fn route(&self, message: &Message) -> (res: Option<&S>)
        ensures
            match res {
                Some(s) => self@.contains_key(message.channel@) && *s == self@[message.channel@],
                None => !self@.contains_key(message.channel@),
            },
    {
        self.channels.get(&message.channel)
    }
}

} // verus!
