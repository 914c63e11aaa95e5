//! Client storage: the stored text form, in-memory stores, and the rules by
//! which entries are read, initialised and kept in sync.
pub mod codec;

pub mod session;

pub mod subscriptions;

pub mod persistence;
