//! The reader-visible state of the relational store — the calendar table and
//! one freshness table per locale — and the atomic replace transaction that
//! swaps one room's calendar for a freshly fetched batch.

use vstd::prelude::*;

use crate::event::{Event, EventView, views_of};

verus! {

/// One row of a locale's freshness table: a room key and the instant
/// (seconds since the Unix epoch) of that room's last calendar scrape.
pub struct FreshnessRow {
    pub key: String,
    pub at: i64,
}

/// The mathematical value of a [`FreshnessRow`].
#[verifier::ext_equal]
pub struct FreshnessView {
    pub key: Seq<char>,
    pub at: int,
}

impl View for FreshnessRow {
    type V = FreshnessView;

    open spec fn view(&self) -> FreshnessView {
        FreshnessView { key: self.key@, at: self.at as int }
    }
}

/// The values of a freshness table's rows, in order.
pub open spec fn rows_of(s: Seq<FreshnessRow>) -> Seq<FreshnessView> {
    Seq::new(s.len(), |i: int| s[i]@)
}

/// The locales for which a freshness table is kept.
#[derive(Clone, Copy, PartialEq, Eq, Structural, Debug)]
pub enum Locale {
    En,
    De,
}

/// A fatal failure of the replace transaction: the step that failed. Either
/// one triggers a rollback, so no part of the transaction becomes visible.
#[derive(Clone, Copy, PartialEq, Eq, Structural, Debug)]
pub enum StoreError {
    DeleteFailed,
    StampFailed,
}

/// What the relational store reported for the fallible steps of one replace
/// transaction: whether the delete of the room's old rows went through, which
/// individual row inserts it accepted, and whether the freshness update went
/// through. The library decides from these; performing the statements is the
/// caller's side.
pub struct TxOutcome {
    pub delete_ok: bool,
    pub rows_ok: Vec<bool>,
    pub stamp_ok: bool,
}

/// The mathematical value of the whole store.
#[verifier::ext_equal]
pub struct DbView {
    pub events: Seq<EventView>,
    pub en: Seq<FreshnessView>,
    pub de: Seq<FreshnessView>,
}

/// The event table without the rows of `room`.
pub open spec fn room_cleared(events: Seq<EventView>, room: Seq<char>) -> Seq<EventView> {
    events.filter(|e: EventView| e.room_code != room)
}

/// The event table's rows for `room`, in table order.
pub open spec fn events_for(events: Seq<EventView>, room: Seq<char>) -> Seq<EventView> {
    events.filter(|e: EventView| e.room_code == room)
}

/// The subsequence of `events` whose inserts were accepted.
pub open spec fn kept_events(events: Seq<EventView>, ok: Seq<bool>) -> Seq<EventView>
    decreases events.len(),
{
    if events.len() == 0 || ok.len() != events.len() {
        Seq::empty()
    } else {
        let rest = kept_events(events.drop_last(), ok.drop_last());
        if ok.last() {
            rest.push(events.last())
        } else {
            rest
        }
    }
}

/// Whether a freshness table has a row for `room`.
pub open spec fn has_key(rows: Seq<FreshnessView>, room: Seq<char>) -> bool {
    exists|i: int| 0 <= i < rows.len() && rows[i].key == room
}

/// Every row of `room` re-stamped with `t`; the other rows untouched.
pub open spec fn updated_rows(rows: Seq<FreshnessView>, room: Seq<char>, t: int) -> Seq<
    FreshnessView,
> {
    Seq::new(
        rows.len(),
        |i: int|
            if rows[i].key == room {
                FreshnessView { key: rows[i].key, at: t }
            } else {
                rows[i]
            },
    )
}

/// A freshness table after the stamp step: the room's rows carry `t`, and a
/// room the table did not know yet gets a row of its own.
pub open spec fn stamped(rows: Seq<FreshnessView>, room: Seq<char>, t: int) -> Seq<FreshnessView> {
    if has_key(rows, room) {
        updated_rows(rows, room, t)
    } else {
        updated_rows(rows, room, t).push(FreshnessView { key: room, at: t })
    }
}

/// The store after a committed replace transaction: the room's old rows gone,
/// the accepted events appended, and both freshness tables stamped with `t`.
pub open spec fn replace_spec(
    db: DbView,
    room: Seq<char>,
    events: Seq<EventView>,
    ok: Seq<bool>,
    t: int,
) -> DbView {
    DbView {
        events: room_cleared(db.events, room) + kept_events(events, ok),
        en: stamped(db.en, room, t),
        de: stamped(db.de, room, t),
    }
}

/// The reader-visible relational state. Mutations happen only through
/// [`CalendarDb::replace`], whose effect is all-or-nothing: what a rolled-back
/// transaction did is never seen here.
pub struct CalendarDb {
    events: Vec<Event>,
    fresh_en: Vec<FreshnessRow>,
    fresh_de: Vec<FreshnessRow>,
}

impl View for CalendarDb {
    type V = DbView;

    closed spec fn view(&self) -> DbView {
        DbView {
            events: views_of(self.events@),
            en: rows_of(self.fresh_en@),
            de: rows_of(self.fresh_de@),
        }
    }
}

impl CalendarDb {
    /// An empty store: no events, no freshness records.
    pub fn new() -> (db: Self)
        ensures
            db@.events == Seq::<EventView>::empty(),
            db@.en == Seq::<FreshnessView>::empty(),
            db@.de == Seq::<FreshnessView>::empty(),
    {
        let db = CalendarDb { events: Vec::new(), fresh_en: Vec::new(), fresh_de: Vec::new() };
        proof {
            assert(db@.events =~= Seq::<EventView>::empty());
            assert(db@.en =~= Seq::<FreshnessView>::empty());
            assert(db@.de =~= Seq::<FreshnessView>::empty());
        }
        db
    }

    /// The replace transaction for one room: delete the room's rows, insert
    /// the accepted events one by one, stamp every locale's freshness table
    /// with the sync's start time, commit. A failed delete or stamp step
    /// rolls the whole transaction back and nothing changes; a failed row
    /// insert only skips that row.
    pub fn replace(
        &mut self,
        room_id: &String,
        events: Vec<Event>,
        outcome: &TxOutcome,
        sync_started_at: i64,
    ) -> (r: Result<(), StoreError>)
        requires
            outcome.rows_ok@.len() == events@.len(),
        ensures
            !outcome.delete_ok ==> r == Err::<(), StoreError>(StoreError::DeleteFailed) && final(
                self)@ == old(self)@,
            outcome.delete_ok && !outcome.stamp_ok ==> r == Err::<(), StoreError>(
                StoreError::StampFailed,
            ) && final(self)@ == old(self)@,
            outcome.delete_ok && outcome.stamp_ok ==> r == Ok::<(), StoreError>(()) && final(self)@
                == replace_spec(
                old(self)@,
                room_id@,
                views_of(events@),
                outcome.rows_ok@,
                sync_started_at as int,
            ),
    {
        if !outcome.delete_ok {
            return Err(StoreError::DeleteFailed);
        }
        if !outcome.stamp_ok {
            return Err(StoreError::StampFailed);
        }
        self.delete_room(room_id);
        self.insert_accepted(events, &outcome.rows_ok);
        stamp_rows(&mut self.fresh_en, room_id, sync_started_at);
        stamp_rows(&mut self.fresh_de, room_id, sync_started_at);
        Ok(())
    }

    /// The delete step: drops every event row of `room_id`, touching nothing
    /// else.
    fn delete_room(&mut self, room_id: &String)
        ensures
            final(self)@.events == room_cleared(old(self)@.events, room_id@),
            final(self)@.en == old(self)@.en,
            final(self)@.de == old(self)@.de,
    {
        let ghost full: Seq<Event> = self.events@;
        let mut drained: Vec<Event> = Vec::new();
        core::mem::swap(&mut drained, &mut self.events);
        let n = drained.len();
        let mut i: usize = 0;
        proof {
            assert(views_of(self.events@) =~= views_of(full).take(0).filter(
                |e: EventView| e.room_code != room_id@,
            ));
        }
        while i < n
            invariant
                n == full.len(),
                i <= n,
                drained@ == full.skip(i as int),
                views_of(self.events@) == room_cleared(views_of(full).take(i as int), room_id@),
                rows_of(self.fresh_en@) == old(self)@.en,
                rows_of(self.fresh_de@) == old(self)@.de,
            decreases n - i,
        {
            broadcast use vstd::prelude::Seq::lemma_filter_push;

            let e = drained.remove(0);
            proof {
                assert(e == full[i as int]);
                assert(drained@ =~= full.skip(i as int + 1));
                assert(views_of(full).take(i as int + 1) =~= views_of(full).take(i as int).push(
                    full[i as int]@,
                ));
            }
            let ghost evs_before = self.events@;
            let keep = !(e.room_code == *room_id);
            if keep {
                self.events.push(e);
            }
            proof {
                if keep {
                    assert(views_of(self.events@) =~= views_of(evs_before).push(full[i as int]@));
                }
            }
            i = i + 1;
        }
        proof {
            assert(views_of(full).take(n as int) =~= views_of(full));
        }
    }

    /// The insert step: appends each event whose insert the store accepted,
    /// in batch order, and skips the others.
    fn insert_accepted(&mut self, events: Vec<Event>, rows_ok: &Vec<bool>)
        requires
            rows_ok@.len() == events@.len(),
        ensures
            final(self)@.events == old(self)@.events + kept_events(
                views_of(events@),
                rows_ok@,
            ),
            final(self)@.en == old(self)@.en,
            final(self)@.de == old(self)@.de,
    {
        let ghost full: Seq<Event> = events@;
        let ghost base: Seq<EventView> = views_of(self.events@);
        let mut rest = events;
        let n = rest.len();
        let mut i: usize = 0;
        proof {
            assert(views_of(self.events@) =~= base + kept_events(
                views_of(full).take(0),
                rows_ok@.take(0),
            ));
        }
        while i < n
            invariant
                n == full.len(),
                rows_ok@.len() == full.len(),
                i <= n,
                rest@ == full.skip(i as int),
                views_of(self.events@) == base + kept_events(
                    views_of(full).take(i as int),
                    rows_ok@.take(i as int),
                ),
                rows_of(self.fresh_en@) == old(self)@.en,
                rows_of(self.fresh_de@) == old(self)@.de,
            decreases n - i,
        {
            let e = rest.remove(0);
            proof {
                assert(e == full[i as int]);
                assert(rest@ =~= full.skip(i as int + 1));
                lemma_kept_events_step(views_of(full), rows_ok@, i as int);
                assert(views_of(full).take(i as int + 1).drop_last() =~= views_of(full).take(
                    i as int,
                ));
            }
            let ghost evs_before = self.events@;
            if rows_ok[i] {
                self.events.push(e);
                proof {
                    assert(views_of(self.events@) =~= views_of(evs_before).push(full[i as int]@));
                }
            }
            i = i + 1;
        }
        proof {
            assert(views_of(full).take(n as int) =~= views_of(full));
            assert(rows_ok@.take(n as int) =~= rows_ok@);
        }
    }

    /// The event rows currently visible for `room_id`, in table order.
    pub fn events_for_room(&self, room_id: &String) -> (r: Vec<Event>)
        ensures
            views_of(r@) == events_for(self@.events, room_id@),
    {
        let n = self.events.len();
        let mut out: Vec<Event> = Vec::new();
        let mut i: usize = 0;
        proof {
            assert(views_of(out@) =~= views_of(self.events@).take(0).filter(
                |e: EventView| e.room_code == room_id@,
            ));
        }
        while i < n
            invariant
                n == self.events@.len(),
                i <= n,
                views_of(out@) == events_for(views_of(self.events@).take(i as int), room_id@),
            decreases n - i,
        {
            broadcast use vstd::prelude::Seq::lemma_filter_push;

            proof {
                assert(views_of(self.events@).take(i as int + 1) =~= views_of(
                    self.events@,
                ).take(i as int).push(self.events@[i as int]@));
            }
            let ghost out_before = out@;
            let e = &self.events[i];
            if e.room_code == *room_id {
                out.push(e.clone());
                proof {
                    assert(views_of(out@) =~= views_of(out_before).push(
                        self.events@[i as int]@,
                    ));
                }
            }
            i = i + 1;
        }
        proof {
            assert(views_of(self.events@).take(n as int) =~= views_of(self.events@));
        }
        out
    }

    /// The freshness rows of one locale's table.
    pub closed spec fn locale_rows(self, locale: Locale) -> Seq<FreshnessView> {
        match locale {
            Locale::En => rows_of(self.fresh_en@),
            Locale::De => rows_of(self.fresh_de@),
        }
    }

    /// The last-scrape instant a locale's freshness table records for
    /// `room_id`: the value of some row with that key, or `None` where the
    /// table has no such row.
    pub fn freshness_for(&self, locale: Locale, room_id: &String) -> (r: Option<i64>)
        ensures
            match r {
                Some(t) => exists|i: int|
                    0 <= i < self.locale_rows(locale).len() && self.locale_rows(locale)[i].key
                        == room_id@ && self.locale_rows(locale)[i].at == t as int,
                None => !has_key(self.locale_rows(locale), room_id@),
            },
            has_key(self.locale_rows(locale), room_id@) <==> r is Some,
    {
        let rows = match locale {
            Locale::En => &self.fresh_en,
            Locale::De => &self.fresh_de,
        };
        let n = rows.len();
        let mut i: usize = 0;
        while i < n
            invariant
                n == rows@.len(),
                i <= n,
                rows_of(rows@) == self.locale_rows(locale),
                forall|j: int| 0 <= j < i as int ==> rows_of(rows@)[j].key != room_id@,
            decreases n - i,
        {
            if rows[i].key == *room_id {
                let t = rows[i].at;
                proof {
                    let ghost lr = self.locale_rows(locale);
                    assert(lr[i as int] == rows@[i as int]@);
                    assert(lr[i as int].key == room_id@ && lr[i as int].at == t as int);
                    assert(0 <= (i as int) && (i as int) < lr.len() && lr[i as int].key
                        == room_id@);
                    assert(has_key(lr, room_id@));
                }
                return Some(t);
            }
            i = i + 1;
        }
        None
    }

    /// The reader-facing view of both locale tables agrees with the store's
    /// value.
    pub proof fn lemma_locale_rows(self)
        ensures
            self.locale_rows(Locale::En) == self@.en,
            self.locale_rows(Locale::De) == self@.de,
    {
    }
}

/// The stamp step on one locale's table: every row of `room_id` gets `t`, and
/// a room without a row gets one.
fn stamp_rows(rows: &mut Vec<FreshnessRow>, room_id: &String, t: i64)
    ensures
        rows_of(final(rows)@) == stamped(rows_of(old(rows)@), room_id@, t as int),
{
    let ghost full: Seq<FreshnessRow> = rows@;
    let mut drained: Vec<FreshnessRow> = Vec::new();
    core::mem::swap(&mut drained, rows);
    let n = drained.len();
    let mut found = false;
    let mut i: usize = 0;
    proof {
        assert(rows_of(rows@) =~= updated_rows(rows_of(full).take(0), room_id@, t as int));
    }
    while i < n
        invariant
            n == full.len(),
            i <= n,
            drained@ == full.skip(i as int),
            rows_of(rows@) == updated_rows(rows_of(full).take(i as int), room_id@, t as int),
            found == has_key(rows_of(full).take(i as int), room_id@),
        decreases n - i,
    {
        let row = drained.remove(0);
        proof {
            assert(row == full[i as int]);
            assert(drained@ =~= full.skip(i as int + 1));
        }
        let ghost rows_before = rows@;
        let is_match = row.key == *room_id;
        if is_match {
            rows.push(FreshnessRow { key: row.key, at: t });
            found = true;
        } else {
            rows.push(row);
        }
        proof {
            let vt = rows_of(full);
            let next = updated_rows(vt.take(i as int + 1), room_id@, t as int);
            assert(next.len() == i as int + 1);
            assert(rows_of(rows_before).len() == i as int);
            assert(rows_before.len() == i as int);
            assert forall|j: int| 0 <= j < next.len() implies rows_of(rows@)[j] == next[j] by {
                assert(vt.take(i as int + 1)[j] == vt[j]);
                if j < i as int {
                    assert(rows_of(rows_before)[j] == updated_rows(
                        vt.take(i as int),
                        room_id@,
                        t as int,
                    )[j]);
                    assert(rows@[j] == rows_before[j]);
                    assert(rows_of(rows@)[j] == rows@[j]@);
                } else {
                    assert(rows_of(rows@)[j] == rows@[j]@);
                }
            }
            assert(rows_of(rows@) =~= next);
            if is_match {
                assert(vt.take(i as int + 1)[i as int].key == room_id@);
                assert(has_key(vt.take(i as int + 1), room_id@));
            } else {
                assert(vt[i as int].key != room_id@);
                if has_key(vt.take(i as int), room_id@) {
                    let j = choose|j: int|
                        0 <= j < i as int && (#[trigger] vt.take(i as int)[j]).key == room_id@;
                    assert(vt.take(i as int + 1)[j].key == room_id@);
                    assert(has_key(vt.take(i as int + 1), room_id@));
                }
                if has_key(vt.take(i as int + 1), room_id@) {
                    let j = choose|j: int|
                        0 <= j < i as int + 1 && (#[trigger] vt.take(i as int + 1)[j]).key
                            == room_id@;
                    assert(vt.take(i as int + 1)[j] == vt[j]);
                    assert(j != i as int);
                    assert(vt.take(i as int)[j].key == room_id@);
                    assert(has_key(vt.take(i as int), room_id@));
                }
            }
        }
        i = i + 1;
    }
    proof {
        assert(rows_of(full).take(n as int) =~= rows_of(full));
    }
    if !found {
        rows.push(FreshnessRow { key: room_id.clone(), at: t });
        proof {
            assert(rows_of(rows@) =~= updated_rows(rows_of(full), room_id@, t as int).push(
                FreshnessView { key: room_id@, at: t as int },
            ));
        }
    }
}

/// Appending one event to a batch extends its accepted subsequence by that
/// event exactly when its insert was accepted.
proof fn lemma_kept_events_step(events: Seq<EventView>, ok: Seq<bool>, i: int)
    requires
        ok.len() == events.len(),
        0 <= i < events.len(),
    ensures
        kept_events(events.take(i + 1), ok.take(i + 1)) == if ok[i] {
            kept_events(events.take(i), ok.take(i)).push(events[i])
        } else {
            kept_events(events.take(i), ok.take(i))
        },
{
    assert(events.take(i + 1).drop_last() =~= events.take(i));
    assert(ok.take(i + 1).drop_last() =~= ok.take(i));
    assert(events.take(i + 1).last() == events[i]);
    assert(ok.take(i + 1).last() == ok[i]);
}

} // verus!
