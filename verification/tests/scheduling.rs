use ballbreaker::clock::{local_now, LocalStamp};
use ballbreaker::credential::CredentialManager;
use ballbreaker::scheduler::{ReminderScheduler, SchedulerState};

fn at(day: u8, hour: u8, minute: u8) -> LocalStamp {
    LocalStamp { year: 2026, month: 3, day, hour, minute, epoch_seconds: 0 }
}

#[test]
fn daily_alarm_fires_once_per_day() {
    let mut s = ReminderScheduler::new(600);  // 10:00
    s.start();
    assert!(!s.poll(&at(2, 9, 59)));
    assert!(s.poll(&at(2, 10, 0)));
    s.cycle_done();
    assert!(!s.poll(&at(2, 10, 0)));
    assert!(!s.poll(&at(2, 23, 30)));
    assert!(s.poll(&at(3, 10, 5)));
}

#[test]
fn poll_does_not_fire_before_start() {
    let mut s = ReminderScheduler::new(0);
    assert!(!s.poll(&at(2, 12, 0)));
    assert_eq!(s.state, SchedulerState::Idle);
}

#[test]
fn force_fires_without_touching_daily_bookkeeping() {
    let mut s = ReminderScheduler::new(600);
    s.start();
    assert!(s.force());
    assert_eq!(s.state, SchedulerState::Firing);
    assert!(!s.force());
    s.cycle_done();
    // The forced cycle did not consume today's daily alarm.
    assert!(s.poll(&at(2, 10, 0)));
}

#[test]
fn stop_drains_then_stops() {
    let mut s = ReminderScheduler::new(600);
    s.start();
    s.begin_drain();
    assert_eq!(s.state, SchedulerState::Draining);
    s.drained();
    assert_eq!(s.state, SchedulerState::Stopped);
    assert!(!s.poll(&at(2, 10, 0)));
}

#[test]
fn clock_reading_is_in_range() {
    let now = local_now();
    assert!((1..=12).contains(&now.month));
    assert!((1..=31).contains(&now.day));
    assert!(now.hour < 24);
    assert!(now.minute < 60);
}

#[test]
fn credential_expiry_and_install() {
    let mut cm = CredentialManager::new("acc1".to_string(), "ref1".to_string(), 100);
    assert!(!cm.is_expired(99));
    assert!(cm.is_expired(100));
    assert!(cm.is_expired(101));

    cm.install("acc2".to_string(), None, 500);
    assert_eq!(cm.access_token().as_str(), "acc2");
    assert_eq!(cm.refresh_token().as_str(), "ref1");
    assert!(!cm.is_expired(499));

    cm.install("acc3".to_string(), Some("ref2".to_string()), 900);
    assert_eq!(cm.access_token().as_str(), "acc3");
    assert_eq!(cm.refresh_token().as_str(), "ref2");
}
