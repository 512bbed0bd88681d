use ballbreaker::actor::{ControlActor, Message, StepOutcome};
use ballbreaker::datetime::{Date, Start};
use ballbreaker::errors::SyncCause;
use ballbreaker::event::{Event, EventKey};
use ballbreaker::store::EventStore;

fn timed(id: &str, y: u16, m: u8, d: u8, secs: u32) -> Event {
    Event {
        key: EventKey { event_id: id.to_string(), calendar_id: "cal".to_string() },
        summary: format!("task {}", id),
        start: Start { date: Date { year: y, month: m, day: d }, has_time: true, seconds: secs },
    }
}

fn all_day(id: &str, summary: &str, y: u16, m: u8, d: u8) -> Event {
    Event {
        key: EventKey { event_id: id.to_string(), calendar_id: "cal".to_string() },
        summary: summary.to_string(),
        start: Start { date: Date { year: y, month: m, day: d }, has_time: false, seconds: 0 },
    }
}

fn fetch_two() -> Vec<Event> {
    vec![
        all_day("e1", "pay rent", 2026, 3, 2),
        all_day("e2", "call plumber", 2026, 3, 4),
    ]
}

#[test]
fn window_scenario_lists_both_in_start_order() {
    let mut actor = ControlActor::new(EventStore::open_in_memory().unwrap());
    let digest = actor.run_cycle(Ok(fetch_two())).unwrap();
    assert_eq!(digest.entries.len(), 2);
    assert_eq!(digest.entries[0].index, 1);
    assert_eq!(digest.entries[0].event.key.event_id, "e1");
    assert_eq!(digest.entries[1].index, 2);
    assert_eq!(digest.entries[1].event.key.event_id, "e2");
    assert_eq!(
        digest.text,
        "These are the pending tasks:\n1 - [02/03/26] pay rent\n2 - [04/03/26] call plumber"
    );
    assert_eq!(digest.entries[0].label, "1 - 02/03/26");
    assert_eq!(digest.entries[1].label, "2 - 04/03/26");
}

#[test]
fn resync_after_done_lists_only_the_other() {
    let mut actor = ControlActor::new(EventStore::open_in_memory().unwrap());
    let first = actor.run_cycle(Ok(fetch_two())).unwrap();
    assert_eq!(first.entries.len(), 2);

    let outcome = actor.step(
        Message::MarkDone { event_id: "e1".to_string(), calendar_id: "cal".to_string() },
        1000,
    );
    match outcome {
        StepOutcome::Ack { text } => {
            assert_eq!(text, "Task with ID e1 has been marked as done");
        }
        _ => panic!("expected an acknowledgment"),
    }

    let second = actor.run_cycle(Ok(fetch_two())).unwrap();
    assert_eq!(second.entries.len(), 1);
    assert_eq!(second.entries[0].index, 1);
    assert_eq!(second.entries[0].event.key.event_id, "e2");
    assert_eq!(
        second.text,
        "These are the pending tasks:\n1 - [04/03/26] call plumber"
    );
}

#[test]
fn fetch_failure_aborts_without_mutation_or_digest() {
    let mut actor = ControlActor::new(EventStore::open_in_memory().unwrap());
    actor.step(
        Message::MarkDone { event_id: "kept".to_string(), calendar_id: "cal".to_string() },
        5,
    );
    assert_eq!(actor.store.count_done().unwrap(), 1);

    let r = actor.run_cycle(Err(SyncCause::Fetch));
    let err = r.err().expect("fetch failure must abort the cycle");
    assert_eq!(err.cause, SyncCause::Fetch);
    assert_eq!(actor.store.count_done().unwrap(), 1);

    let r2 = actor.run_cycle(Err(SyncCause::Auth));
    assert_eq!(r2.err().unwrap().cause, SyncCause::Auth);
    assert_eq!(actor.store.count_done().unwrap(), 1);
}

#[test]
fn sorting_is_by_start_instant_with_all_day_at_midnight() {
    let mut actor = ControlActor::new(EventStore::open_in_memory().unwrap());
    let fetched = vec![
        timed("late", 2026, 3, 2, 36000),
        all_day("whole_day", "whole day", 2026, 3, 2),
        timed("early", 2026, 3, 2, 3600),
    ];
    let digest = actor.run_cycle(Ok(fetched)).unwrap();
    let order: Vec<&str> = digest
        .entries
        .iter()
        .map(|e| e.event.key.event_id.as_str())
        .collect();
    assert_eq!(order, vec!["whole_day", "early", "late"]);
}

#[test]
fn sorting_keeps_provider_order_on_ties() {
    let mut actor = ControlActor::new(EventStore::open_in_memory().unwrap());
    let fetched = vec![
        timed("first_returned", 2026, 3, 2, 3600),
        timed("second_returned", 2026, 3, 2, 3600),
    ];
    let digest = actor.run_cycle(Ok(fetched)).unwrap();
    assert_eq!(digest.entries[0].event.key.event_id, "first_returned");
    assert_eq!(digest.entries[1].event.key.event_id, "second_returned");
}

#[test]
fn stopped_actor_drops_messages() {
    let mut actor = ControlActor::new(EventStore::open_in_memory().unwrap());
    assert!(matches!(actor.step(Message::Stop, 0), StepOutcome::Halted));
    assert!(matches!(
        actor.step(
            Message::MarkDone { event_id: "e".to_string(), calendar_id: "c".to_string() },
            0
        ),
        StepOutcome::Dropped
    ));
    assert_eq!(actor.store.count_done().unwrap(), 0);
    assert!(matches!(actor.step(Message::Tick, 0), StepOutcome::Dropped));
}

#[test]
fn undone_ack_text_matches() {
    let mut actor = ControlActor::new(EventStore::open_in_memory().unwrap());
    let outcome = actor.step(
        Message::MarkUndone { event_id: "e9".to_string(), calendar_id: "cal".to_string() },
        0,
    );
    match outcome {
        StepOutcome::Ack { text } => {
            assert_eq!(text, "Task with ID e9 has been marked as todo");
        }
        _ => panic!("expected an acknowledgment"),
    }
}
