use chat_client::envelope::OutboundEnvelope;
use chat_client::producer::{Pace, Producer};

fn payload() -> OutboundEnvelope {
    OutboundEnvelope::GlobalMessage { text: "test message".to_string() }
}

#[test]
fn first_emission_is_due_at_start() {
    let mut p = Producer::new(payload(), 2000, 100);
    assert_eq!(p.poll(40), Pace::Wait(60));
    assert_eq!(p.poll(100), Pace::Emit(payload()));
}

#[test]
fn emissions_are_an_interval_apart() {
    let mut p = Producer::new(payload(), 2000, 0);
    assert_eq!(p.poll(0), Pace::Emit(payload()));
    assert_eq!(p.poll(1000), Pace::Wait(1000));
    assert_eq!(p.poll(1999), Pace::Wait(1));
    assert_eq!(p.poll(2000), Pace::Emit(payload()));
    assert_eq!(p.poll(2500), Pace::Wait(1500));
}

#[test]
fn no_burst_after_a_stall() {
    let mut p = Producer::new(payload(), 2000, 0);
    assert_eq!(p.poll(0), Pace::Emit(payload()));
    assert_eq!(p.poll(10_000), Pace::Emit(payload()));
    assert_eq!(p.poll(10_001), Pace::Wait(1999));
}

#[test]
fn sampled_count_within_bound() {
    let interval: u64 = 2000;
    let d: u64 = 5000;
    let mut p = Producer::new(payload(), interval, 0);
    let mut count: u64 = 0;
    for now in 0..=d {
        match p.poll(now) {
            Pace::Emit(e) => {
                assert_eq!(e, payload());
                count += 1;
            }
            Pace::Wait(_) => {}
            Pace::Stopped => panic!("not cancelled"),
        }
    }
    assert_eq!(count, 3);
    assert!(count <= d / interval + 1);
}

#[test]
fn cancelled_producer_stops() {
    let mut p = Producer::new(payload(), 2000, 0);
    assert_eq!(p.poll(0), Pace::Emit(payload()));
    p.cancel();
    assert!(p.is_cancelled());
    assert_eq!(p.poll(2000), Pace::Stopped);
    assert_eq!(p.poll(1_000_000), Pace::Stopped);
}

#[test]
fn due_time_past_the_clock_range() {
    let mut p = Producer::new(payload(), u64::MAX, u64::MAX - 1);
    assert_eq!(p.poll(u64::MAX - 1), Pace::Emit(payload()));
    assert_eq!(p.poll(u64::MAX), Pace::Wait(u64::MAX - 1));
    assert_eq!(p.poll(0), Pace::Wait(u64::MAX));
}

#[test]
fn accessors_report_configuration() {
    let p = Producer::new(payload(), 2000, 0);
    assert_eq!(p.interval(), 2000);
    assert_eq!(p.payload(), &payload());
    assert!(!p.is_cancelled());
}
