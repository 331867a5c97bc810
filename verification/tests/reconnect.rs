use librepods::address::Address;
use librepods::preferences::{auto_connect_in, auto_connect_preference};
use librepods::reconnect::{readiness_when, AttemptLog, ConnectStep, InFlight, Readiness};
use std::time::{Duration, Instant};

const A: Address = Address { octets: [1, 2, 3, 4, 5, 6] };
const B: Address = Address { octets: [6, 5, 4, 3, 2, 1] };

#[test]
fn buds_that_nobody_wears_are_left_alone() {
    let log = AttemptLog::new();
    let now = Instant::now();
    assert_eq!(log.readiness(&A, false, now), Readiness::NotWorn);
    assert_eq!(log.readiness(&A, true, now), Readiness::Ready);
}

#[test]
fn an_attempt_starts_the_pause() {
    let mut log = AttemptLog::new();
    let mut in_flight = InFlight::new();
    let now = Instant::now();
    assert!(!log.within_cooldown(&A, now));
    assert_eq!(in_flight.begin(&mut log, &A, now, true), ConnectStep::Connect);
    in_flight.finish(&A);
    assert!(log.within_cooldown(&A, now));
    assert_eq!(log.readiness(&A, true, now + Duration::from_secs(9)), Readiness::CoolingDown);
    assert_eq!(log.readiness(&A, false, now + Duration::from_secs(9)), Readiness::NotWorn);
    assert_eq!(log.readiness(&A, true, now + Duration::from_secs(10)), Readiness::Ready);
    assert_eq!(log.readiness(&B, true, now), Readiness::Ready);
}

#[test]
fn attempts_to_one_address_do_not_overlap() {
    let mut log = AttemptLog::new();
    let mut in_flight = InFlight::new();
    let now = Instant::now();
    let later = now + Duration::from_secs(30);
    assert_eq!(in_flight.begin(&mut log, &A, now, true), ConnectStep::Connect);
    assert_eq!(in_flight.begin(&mut log, &A, later, true), ConnectStep::AlreadyConnecting);
    assert!(!log.within_cooldown(&A, later));
    assert_eq!(in_flight.begin(&mut log, &B, now, true), ConnectStep::Connect);
    in_flight.finish(&A);
    assert_eq!(in_flight.begin(&mut log, &B, later, true), ConnectStep::AlreadyConnecting);
    assert_eq!(in_flight.begin(&mut log, &A, later, true), ConnectStep::Connect);
    assert!(log.within_cooldown(&A, later));
}

#[test]
fn an_unwanted_connection_leaves_no_trace() {
    let mut log = AttemptLog::new();
    let mut in_flight = InFlight::new();
    let now = Instant::now();
    assert_eq!(in_flight.begin(&mut log, &A, now, false), ConnectStep::Disabled);
    assert!(!log.within_cooldown(&A, now));
    assert_eq!(in_flight.begin(&mut log, &A, now, true), ConnectStep::Connect);
    assert_eq!(in_flight.begin(&mut log, &A, now, false), ConnectStep::Disabled);
}

#[test]
fn connecting_is_wanted_unless_switched_off() {
    let text = |s: &str| Some(s.to_string());
    assert!(auto_connect_preference(&None, "M"));
    assert!(auto_connect_preference(&text("not json"), "M"));
    assert!(auto_connect_preference(&text("{}"), "M"));
    assert!(auto_connect_preference(&text(r#"{"M":{}}"#), "M"));
    assert!(auto_connect_preference(&text(r#"{"M":{"autoConnect":true}}"#), "M"));
    assert!(!auto_connect_preference(&text(r#"{"M":{"autoConnect":false}}"#), "M"));
    assert!(auto_connect_preference(&text(r#"{"N":{"autoConnect":false}}"#), "M"));
    assert!(auto_connect_preference(&text(r#"{"M":{"autoconnect":false}}"#), "M"));
    assert!(!auto_connect_preference(
        &text(r#"{"N":{"autoConnect":true},"M":{"x":true,"autoConnect":false}}"#),
        "M"
    ));
    assert!(auto_connect_preference(&text(r#"{"M":{"autoConnect":0}}"#), "M"));
    assert!(auto_connect_preference(
        &text(r#"{"M":{"autoConnect":false,"autoConnect":true}}"#),
        "M"
    ));
}

#[test]
fn rows_switch_a_device_off() {
    let row = |mac: &str, on: bool| (mac.to_string(), vec![("autoConnect".to_string(), on)]);
    let rows = vec![row("M", false), row("N", true)];
    assert!(!auto_connect_in(&rows, "M"));
    assert!(auto_connect_in(&rows, "N"));
    assert!(auto_connect_in(&rows, "O"));
    assert!(auto_connect_in(&vec![], "M"));
}

#[test]
fn readiness_of_every_case() {
    assert_eq!(readiness_when(false, false), Readiness::NotWorn);
    assert_eq!(readiness_when(false, true), Readiness::NotWorn);
    assert_eq!(readiness_when(true, true), Readiness::CoolingDown);
    assert_eq!(readiness_when(true, false), Readiness::Ready);
}

#[test]
fn an_attempt_made_meanwhile_is_not_repeated_within_the_pause() {
    let mut log = AttemptLog::new();
    let mut in_flight = InFlight::new();
    let now = Instant::now();
    let next = now + Duration::from_secs(1);
    assert_eq!(log.readiness(&A, true, now), Readiness::Ready);
    assert_eq!(log.readiness(&A, true, next), Readiness::Ready);
    assert_eq!(in_flight.begin(&mut log, &A, next, true), ConnectStep::Connect);
    in_flight.finish(&A);
    assert_eq!(in_flight.begin(&mut log, &A, now, true), ConnectStep::TooEarly);
    assert_eq!(in_flight.begin(&mut log, &A, next, true), ConnectStep::TooEarly);
    assert_eq!(in_flight.begin(&mut log, &A, next, false), ConnectStep::Disabled);
    let over = next + Duration::from_secs(10);
    assert_eq!(in_flight.begin(&mut log, &A, over, true), ConnectStep::Connect);
    assert_eq!(in_flight.begin(&mut log, &A, over, true), ConnectStep::AlreadyConnecting);
}

#[test]
fn any_two_attempts_lie_the_pause_apart() {
    let mut log = AttemptLog::new();
    let mut in_flight = InFlight::new();
    let start = Instant::now();
    let mut made = Vec::new();
    for second in 0..45u64 {
        let now = start + Duration::from_secs(second);
        if in_flight.begin(&mut log, &A, now, true) == ConnectStep::Connect {
            made.push(second);
            in_flight.finish(&A);
        }
    }
    assert_eq!(made, vec![0, 10, 20, 30, 40]);
}

#[test]
fn an_ended_attempt_is_repeated_after_other_events() {
    let mut log = AttemptLog::new();
    let mut in_flight = InFlight::new();
    let now = Instant::now();
    assert_eq!(in_flight.begin(&mut log, &A, now, true), ConnectStep::Connect);
    in_flight.finish(&A);
    assert_eq!(in_flight.begin(&mut log, &B, now, true), ConnectStep::Connect);
    let soon = now + Duration::from_secs(5);
    assert_eq!(in_flight.begin(&mut log, &A, soon, true), ConnectStep::TooEarly);
    in_flight.finish(&B);
    let over = now + Duration::from_secs(10);
    assert_eq!(log.readiness(&A, true, over), Readiness::Ready);
    assert_eq!(in_flight.begin(&mut log, &A, over, true), ConnectStep::Connect);
}
