use ballbreaker::actor::Message;
use ballbreaker::datetime::{Date, Start};
use ballbreaker::dispatch::{on_completion_command, on_control_interaction};
use ballbreaker::event::{Event, EventKey};
use ballbreaker::store::EventStore;
use ballbreaker::token::{decode_token, encode_token};

#[test]
fn token_roundtrips_the_identity() {
    let key = EventKey {
        event_id: "evt_123".to_string(),
        calendar_id: "someone@example.com".to_string(),
    };
    let tok = encode_token(&key);
    assert_eq!(tok, "7:evt_123someone@example.com");
    let back = decode_token(&tok).unwrap();
    assert_eq!(back.event_id, "evt_123");
    assert_eq!(back.calendar_id, "someone@example.com");
}

#[test]
fn token_roundtrips_multi_digit_length_and_empty_calendar() {
    let key = EventKey {
        event_id: "twelve_chars".to_string(),
        calendar_id: String::new(),
    };
    let tok = encode_token(&key);
    assert_eq!(tok, "12:twelve_chars");
    let back = decode_token(&tok).unwrap();
    assert_eq!(back.event_id, "twelve_chars");
    assert_eq!(back.calendar_id, "");
}

#[test]
fn malformed_tokens_are_rejected() {
    assert!(decode_token("").is_none());
    assert!(decode_token("abc").is_none());
    assert!(decode_token("12").is_none());
    assert!(decode_token("5:ab").is_none());
    assert!(decode_token("03:abcd").is_none());
    assert!(decode_token(":abc").is_none());
}

#[test]
fn control_click_resolves_to_mark_done() {
    let key = EventKey { event_id: "e1".to_string(), calendar_id: "cal".to_string() };
    let tok = encode_token(&key);
    match on_control_interaction(&tok) {
        Some(Message::MarkDone { event_id, calendar_id }) => {
            assert_eq!(event_id, "e1");
            assert_eq!(calendar_id, "cal");
        }
        _ => panic!("expected a mark-done message"),
    }
    assert!(on_control_interaction("not a token").is_none());
}

#[test]
fn completion_command_resolves_to_mark_undone() {
    let key = EventKey { event_id: "e2".to_string(), calendar_id: "cal".to_string() };
    let tok = encode_token(&key);
    match on_completion_command(&tok) {
        Some(Message::MarkUndone { event_id, calendar_id }) => {
            assert_eq!(event_id, "e2");
            assert_eq!(calendar_id, "cal");
        }
        _ => panic!("expected a mark-undone message"),
    }
    assert!(on_completion_command("99").is_none());
}

#[test]
fn digest_tokens_resolve_back_to_their_events() {
    let mut actor = ballbreaker::actor::ControlActor::new(EventStore::open_in_memory().unwrap());
    let fetched = vec![Event {
        key: EventKey { event_id: "only".to_string(), calendar_id: "cal".to_string() },
        summary: "lone task".to_string(),
        start: Start { date: Date { year: 2026, month: 3, day: 2 }, has_time: false, seconds: 0 },
    }];
    let digest = actor.run_cycle(Ok(fetched)).unwrap();
    match on_control_interaction(&digest.entries[0].token) {
        Some(Message::MarkDone { event_id, calendar_id }) => {
            assert_eq!(event_id, "only");
            assert_eq!(calendar_id, "cal");
        }
        _ => panic!("digest token must resolve to its event"),
    }
}
