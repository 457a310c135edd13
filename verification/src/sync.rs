//! The sync pipeline around one room: the error taxonomy of a session, the
//! credential check that precedes any token exchange, and the verified step
//! that tags a fetched batch and runs the replace transaction.

use vstd::prelude::*;

use crate::event::{Event, tag_with_room, tagged, views_of};
use crate::store::{CalendarDb, StoreError, TxOutcome, replace_spec};

verus! {

/// Why a sync session aborted. Every variant is fatal to its session; the
/// caller decides whether and when to run the room again.
#[derive(Clone, Copy, PartialEq, Eq, Structural, Debug)]
pub enum SyncError {
    /// Required credentials are not configured; no exchange was attempted.
    Config,
    /// The token exchange was rejected or its response was malformed.
    Auth,
    /// Transport failure, a non-success status, or an undeserializable body.
    Fetch,
    /// The replace transaction failed fatally and was rolled back.
    Store(StoreError),
}

/// OAuth client credentials, injected by the caller at construction; the
/// library never reads the process environment itself.
#[derive(Debug)]
pub struct Credentials {
    pub client_id: String,
    pub client_secret: String,
}

/// Accepts a configured pair of client id and secret; either one missing is a
/// configuration error, surfaced before any fetch is attempted.
pub fn credentials_from(client_id: Option<String>, client_secret: Option<String>) -> (r: Result<
    Credentials,
    SyncError,
>)
    ensures
        r is Ok <==> client_id is Some && client_secret is Some,
        r matches Ok(c) ==> c.client_id == client_id->Some_0 && c.client_secret
            == client_secret->Some_0,
        r matches Err(e) ==> e == SyncError::Config,
{
    match (client_id, client_secret) {
        (Some(id), Some(secret)) => Ok(Credentials { client_id: id, client_secret: secret }),
        _ => Err(SyncError::Config),
    }
}

/// Relies on chrono::Utc::now for the wall clock, reduced to whole seconds
/// since the Unix epoch. Nothing is promised of the value: the clock is the
/// machine's.
#[verifier::external_body]
fn now_secs() -> i64 {
    chrono::Utc::now().timestamp()
}

/// One room's store pass, given the batch the fetcher returned: every event
/// is tagged with the room — the payload's own room field is not trusted —
/// and the replace transaction runs with the session's start time. Fatal
/// transaction failures roll back and surface as store errors; nothing else
/// fails.
pub fn sync_events(
    db: &mut CalendarDb,
    room_id: &String,
    events: Vec<Event>,
    outcome: &TxOutcome,
    sync_started_at: i64,
) -> (r: Result<(), SyncError>)
    requires
        outcome.rows_ok@.len() == events@.len(),
    ensures
        outcome.delete_ok && outcome.stamp_ok ==> r == Ok::<(), SyncError>(()) && final(db)@
            == replace_spec(
            old(db)@,
            room_id@,
            tagged(views_of(events@), room_id@),
            outcome.rows_ok@,
            sync_started_at as int,
        ),
        !outcome.delete_ok ==> r == Err::<(), SyncError>(SyncError::Store(StoreError::DeleteFailed))
            && final(db)@ == old(db)@,
        outcome.delete_ok && !outcome.stamp_ok ==> r == Err::<(), SyncError>(
            SyncError::Store(StoreError::StampFailed),
        ) && final(db)@ == old(db)@,
{
    let tagged_batch = tag_with_room(events, room_id);
    proof {
        assert(views_of(tagged_batch@).len() == tagged(views_of(events@), room_id@).len());
        assert(tagged_batch@.len() == views_of(tagged_batch@).len());
        assert(views_of(events@).len() == events@.len());
    }
    match db.replace(room_id, tagged_batch, outcome, sync_started_at) {
        Ok(()) => Ok(()),
        Err(e) => Err(SyncError::Store(e)),
    }
}

/// [`sync_events`] stamped with the wall clock at entry: the session's start
/// time, taken before the store work begins, so a sync still running is never
/// mistaken for fresher than it is. Returns the timestamp it used.
pub fn sync_events_now(
    db: &mut CalendarDb,
    room_id: &String,
    events: Vec<Event>,
    outcome: &TxOutcome,
) -> (r: Result<i64, SyncError>)
    requires
        outcome.rows_ok@.len() == events@.len(),
    ensures
        outcome.delete_ok && outcome.stamp_ok <==> r is Ok,
        r matches Ok(t) ==> final(db)@ == replace_spec(
            old(db)@,
            room_id@,
            tagged(views_of(events@), room_id@),
            outcome.rows_ok@,
            t as int,
        ),
        r is Err ==> final(db)@ == old(db)@,
        !outcome.delete_ok ==> r == Err::<i64, SyncError>(
            SyncError::Store(StoreError::DeleteFailed),
        ),
        outcome.delete_ok && !outcome.stamp_ok ==> r == Err::<i64, SyncError>(
            SyncError::Store(StoreError::StampFailed),
        ),
{
    let sync_started_at = now_secs();
    match sync_events(db, room_id, events, outcome, sync_started_at) {
        Ok(()) => Ok(sync_started_at),
        Err(e) => Err(e),
    }
}

} // verus!
