use ballbreaker::datetime::{Date, Start};
use ballbreaker::event::{Event, EventKey};
use ballbreaker::store::EventStore;

fn ev(id: &str, cal: &str, y: u16, m: u8, d: u8) -> Event {
    Event {
        key: EventKey { event_id: id.to_string(), calendar_id: cal.to_string() },
        summary: format!("summary of {}", id),
        start: Start { date: Date { year: y, month: m, day: d }, has_time: false, seconds: 0 },
    }
}

#[test]
fn record_done_twice_leaves_one_record() {
    let mut store = EventStore::open_in_memory().unwrap();
    assert_eq!(store.count_done().unwrap(), 0);
    store.record_done("e1", "cal", 1000).unwrap();
    store.record_done("e1", "cal", 2000).unwrap();
    assert_eq!(store.count_done().unwrap(), 1);
}

#[test]
fn record_done_distinct_keys_counted_separately() {
    let mut store = EventStore::open_in_memory().unwrap();
    store.record_done("e1", "cal", 1).unwrap();
    store.record_done("e1", "other", 2).unwrap();
    store.record_done("e2", "cal", 3).unwrap();
    assert_eq!(store.count_done().unwrap(), 3);
}

#[test]
fn record_undone_on_never_completed_succeeds() {
    let mut store = EventStore::open_in_memory().unwrap();
    store.record_undone("ghost", "cal").unwrap();
    assert_eq!(store.count_done().unwrap(), 0);
}

#[test]
fn done_then_undone_restores_pending() {
    let mut store = EventStore::open_in_memory().unwrap();
    let events = vec![ev("e1", "cal", 2026, 3, 2)];
    let before = store.filter_pending(&events).unwrap();
    assert_eq!(before.len(), 1);

    store.record_done("e1", "cal", 1000).unwrap();
    let during = store.filter_pending(&events).unwrap();
    assert_eq!(during.len(), 0);

    store.record_undone("e1", "cal").unwrap();
    let after = store.filter_pending(&events).unwrap();
    assert_eq!(after.len(), 1);
    assert_eq!(after[0].key.event_id, "e1");
}

#[test]
fn filter_pending_keeps_input_order() {
    let mut store = EventStore::open_in_memory().unwrap();
    let events = vec![
        ev("a", "cal", 2026, 3, 2),
        ev("b", "cal", 2026, 3, 3),
        ev("c", "cal", 2026, 3, 4),
    ];
    store.record_done("b", "cal", 1000).unwrap();
    let pending = store.filter_pending(&events).unwrap();
    assert_eq!(pending.len(), 2);
    assert_eq!(pending[0].key.event_id, "a");
    assert_eq!(pending[1].key.event_id, "c");
}

#[test]
fn filter_pending_scopes_by_calendar() {
    let mut store = EventStore::open_in_memory().unwrap();
    let events = vec![ev("x", "cal_one", 2026, 3, 2), ev("x", "cal_two", 2026, 3, 2)];
    store.record_done("x", "cal_one", 1).unwrap();
    let pending = store.filter_pending(&events).unwrap();
    assert_eq!(pending.len(), 1);
    assert_eq!(pending[0].key.calendar_id, "cal_two");
}
