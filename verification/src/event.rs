//! Calendar events as they travel from the fetcher to the store, and the
//! tagging step that stamps each one with the room it was requested for.

use vstd::prelude::*;

verus! {

/// One calendar entry as it is persisted for a room. Times are seconds since
/// the Unix epoch.
pub struct Event {
    pub room_code: String,
    pub start: i64,
    pub end: i64,
    pub title: String,
}

/// The mathematical value of an [`Event`].
#[verifier::ext_equal]
pub struct EventView {
    pub room_code: Seq<char>,
    pub start: int,
    pub end: int,
    pub title: Seq<char>,
}

impl View for Event {
    type V = EventView;

    open spec fn view(&self) -> EventView {
        EventView {
            room_code: self.room_code@,
            start: self.start as int,
            end: self.end as int,
            title: self.title@,
        }
    }
}

impl Clone for Event {
    fn clone(&self) -> (r: Self)
        ensures
            r@ == self@,
    {
        Event {
            room_code: self.room_code.clone(),
            start: self.start,
            end: self.end,
            title: self.title.clone(),
        }
    }
}

/// The values of a row of events, in order.
pub open spec fn views_of(s: Seq<Event>) -> Seq<EventView> {
    Seq::new(s.len(), |i: int| s[i]@)
}

/// Every event re-stamped with `room`: the payload's own room field is
/// discarded.
pub open spec fn tagged(events: Seq<EventView>, room: Seq<char>) -> Seq<EventView> {
    events.map(
        |_i: int, e: EventView|
            EventView { room_code: room, start: e.start, end: e.end, title: e.title },
    )
}

/// Stamps every event with the requested room. The upstream payload's own
/// room field, whatever it held, is overwritten: the caller's intent is
/// authoritative, not the server's echo.
pub fn tag_with_room(events: Vec<Event>, room_id: &String) -> (r: Vec<Event>)
    ensures
        views_of(r@) == tagged(views_of(events@), room_id@),
{
    let ghost full: Seq<Event> = events@;
    let mut rest = events;
    let n = rest.len();
    let mut out: Vec<Event> = Vec::new();
    let mut i: usize = 0;
    while i < n
        invariant
            n == full.len(),
            i <= n,
            rest@ == full.skip(i as int),
            views_of(out@) == tagged(views_of(full).take(i as int), room_id@),
        decreases n - i,
    {
        let e = rest.remove(0);
        proof {
            assert(e == full[i as int]);
            assert(rest@ =~= full.skip(i as int + 1));
        }
        let ghost out_before = out@;
        out.push(Event { room_code: room_id.clone(), start: e.start, end: e.end, title: e.title });
        proof {
            let vt = views_of(full);
            let prev = tagged(vt.take(i as int), room_id@);
            let next = tagged(vt.take(i as int + 1), room_id@);
            assert(views_of(out_before).len() == i as int);
            assert(out_before.len() == i as int);
            assert(out@.len() == i as int + 1);
            assert(next.len() == i as int + 1);
            assert forall|j: int| 0 <= j < next.len() implies views_of(out@)[j] == next[j] by {
                assert(next[j] == EventView {
                    room_code: room_id@,
                    start: vt.take(i as int + 1)[j].start,
                    end: vt.take(i as int + 1)[j].end,
                    title: vt.take(i as int + 1)[j].title,
                });
                if j < i as int {
                    assert(views_of(out_before)[j] == prev[j]);
                    assert(out@[j] == out_before[j]);
                    assert(views_of(out@)[j] == out@[j]@);
                    assert(prev[j] == EventView {
                        room_code: room_id@,
                        start: vt.take(i as int)[j].start,
                        end: vt.take(i as int)[j].end,
                        title: vt.take(i as int)[j].title,
                    });
                }
            }
            assert(views_of(out@) =~= next);
        }
        i = i + 1;
    }
    proof {
        assert(views_of(full).take(full.len() as int) =~= views_of(full));
    }
    out
}

/// Room tagging: every event of a tagged batch carries the requested room
/// identifier, whatever the upstream payload contained; nothing else about
/// the batch changes.
pub proof fn lemma_room_tagging(events: Seq<EventView>, room: Seq<char>)
    ensures
        tagged(events, room).len() == events.len(),
        forall|i: int|
            0 <= i < events.len() ==> (#[trigger] tagged(events, room)[i]).room_code == room
                && tagged(events, room)[i].start == events[i].start && tagged(events, room)[i].end
                == events[i].end && tagged(events, room)[i].title == events[i].title,
{
}

} // verus!
