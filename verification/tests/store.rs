use calendar_sync::event::Event;
use calendar_sync::store::{CalendarDb, Locale, StoreError, TxOutcome};

fn ev(room: &str, start: i64, end: i64, title: &str) -> Event {
    Event { room_code: room.to_string(), start, end, title: title.to_string() }
}

fn all_ok(n: usize) -> TxOutcome {
    TxOutcome { delete_ok: true, rows_ok: vec![true; n], stamp_ok: true }
}

#[test]
fn atomic_replace_stores_batch_and_stamps() {
    let mut db = CalendarDb::new();
    let room = "1234.01.001".to_string();
    let events = vec![ev(&room, 100, 200, "lecture"), ev(&room, 300, 400, "seminar")];
    let r = db.replace(&room, events, &all_ok(2), 42);
    assert_eq!(r, Ok(()));
    let stored = db.events_for_room(&room);
    assert_eq!(stored.len(), 2);
    assert_eq!(stored[0].room_code, room);
    assert_eq!(stored[0].start, 100);
    assert_eq!(stored[0].end, 200);
    assert_eq!(stored[0].title, "lecture");
    assert_eq!(stored[1].title, "seminar");
    assert_eq!(db.freshness_for(Locale::En, &room), Some(42));
    assert_eq!(db.freshness_for(Locale::De, &room), Some(42));
}

#[test]
fn replace_clears_previous_calendar() {
    let mut db = CalendarDb::new();
    let room = "1234.01.001".to_string();
    db.replace(&room, vec![ev(&room, 1, 2, "old-a"), ev(&room, 3, 4, "old-b")], &all_ok(2), 10)
        .unwrap();
    db.replace(&room, vec![ev(&room, 5, 6, "new")], &all_ok(1), 20).unwrap();
    let stored = db.events_for_room(&room);
    assert_eq!(stored.len(), 1);
    assert_eq!(stored[0].title, "new");
    assert_eq!(db.freshness_for(Locale::En, &room), Some(20));
    assert_eq!(db.freshness_for(Locale::De, &room), Some(20));
}

#[test]
fn replace_leaves_other_rooms_alone() {
    let mut db = CalendarDb::new();
    let room_a = "room-a".to_string();
    let room_b = "room-b".to_string();
    db.replace(&room_a, vec![ev(&room_a, 1, 2, "a")], &all_ok(1), 10).unwrap();
    db.replace(&room_b, vec![ev(&room_b, 3, 4, "b")], &all_ok(1), 20).unwrap();
    let stored_a = db.events_for_room(&room_a);
    assert_eq!(stored_a.len(), 1);
    assert_eq!(stored_a[0].title, "a");
    assert_eq!(db.freshness_for(Locale::En, &room_a), Some(10));
    assert_eq!(db.freshness_for(Locale::De, &room_b), Some(20));
}

#[test]
fn partial_failure_keeps_siblings_and_stamps() {
    let mut db = CalendarDb::new();
    let room = "room-a".to_string();
    let events =
        vec![ev(&room, 1, 2, "first"), ev(&room, 3, 4, "malformed"), ev(&room, 5, 6, "third")];
    let outcome = TxOutcome { delete_ok: true, rows_ok: vec![true, false, true], stamp_ok: true };
    let r = db.replace(&room, events, &outcome, 77);
    assert_eq!(r, Ok(()));
    let stored = db.events_for_room(&room);
    assert_eq!(stored.len(), 2);
    assert_eq!(stored[0].title, "first");
    assert_eq!(stored[1].title, "third");
    assert_eq!(db.freshness_for(Locale::En, &room), Some(77));
    assert_eq!(db.freshness_for(Locale::De, &room), Some(77));
}

#[test]
fn delete_failure_rolls_back_everything() {
    let mut db = CalendarDb::new();
    let room = "room-a".to_string();
    db.replace(&room, vec![ev(&room, 1, 2, "kept")], &all_ok(1), 10).unwrap();
    let outcome = TxOutcome { delete_ok: false, rows_ok: vec![true], stamp_ok: true };
    let r = db.replace(&room, vec![ev(&room, 9, 10, "discarded")], &outcome, 99);
    assert_eq!(r, Err(StoreError::DeleteFailed));
    let stored = db.events_for_room(&room);
    assert_eq!(stored.len(), 1);
    assert_eq!(stored[0].title, "kept");
    assert_eq!(db.freshness_for(Locale::En, &room), Some(10));
    assert_eq!(db.freshness_for(Locale::De, &room), Some(10));
}

#[test]
fn stamp_failure_rolls_back_everything() {
    let mut db = CalendarDb::new();
    let room = "room-a".to_string();
    db.replace(&room, vec![ev(&room, 1, 2, "kept")], &all_ok(1), 10).unwrap();
    let outcome = TxOutcome { delete_ok: true, rows_ok: vec![true], stamp_ok: false };
    let r = db.replace(&room, vec![ev(&room, 9, 10, "discarded")], &outcome, 99);
    assert_eq!(r, Err(StoreError::StampFailed));
    let stored = db.events_for_room(&room);
    assert_eq!(stored.len(), 1);
    assert_eq!(stored[0].title, "kept");
    assert_eq!(db.freshness_for(Locale::En, &room), Some(10));
}

#[test]
fn replace_twice_is_idempotent() {
    let mut db = CalendarDb::new();
    let room = "room-a".to_string();
    let batch = || vec![ev(&room, 1, 2, "a"), ev(&room, 3, 4, "b")];
    db.replace(&room, batch(), &all_ok(2), 33).unwrap();
    let first_events: Vec<(String, i64, i64, String)> = db
        .events_for_room(&room)
        .into_iter()
        .map(|e| (e.room_code, e.start, e.end, e.title))
        .collect();
    db.replace(&room, batch(), &all_ok(2), 33).unwrap();
    let second_events: Vec<(String, i64, i64, String)> = db
        .events_for_room(&room)
        .into_iter()
        .map(|e| (e.room_code, e.start, e.end, e.title))
        .collect();
    assert_eq!(first_events, second_events);
    assert_eq!(db.freshness_for(Locale::En, &room), Some(33));
    assert_eq!(db.freshness_for(Locale::De, &room), Some(33));
}

#[test]
fn freshness_unknown_room_is_none() {
    let db = CalendarDb::new();
    assert_eq!(db.freshness_for(Locale::En, &"nowhere".to_string()), None);
    assert_eq!(db.freshness_for(Locale::De, &"nowhere".to_string()), None);
}
