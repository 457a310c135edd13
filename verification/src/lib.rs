//! Synchronizes room-calendar data from a remote booking API into a local
//! relational store, one room at a time. The verified core is the
//! self-refreshing OAuth token cache and the atomic replace-all-events
//! transaction that keeps readers from ever observing a partial or duplicated
//! calendar; the HTTP and database plumbing around it lives outside this
//! library and hands plain values in and out.

pub mod event;
pub mod store;
pub mod sync;
pub mod token;
