use chat_client::envelope::{InboundEnvelope, OutboundEnvelope};
use chat_client::producer::Pace;
use chat_client::session::{ConnectError, Received, Session, SessionOutcome, TransportFault};

fn payload() -> OutboundEnvelope {
    OutboundEnvelope::GlobalMessage { text: "test message".to_string() }
}

fn message(sender: &str, text: &str) -> Received {
    Received::Envelope(InboundEnvelope::Message {
        sender: Some(sender.to_string()),
        text: text.to_string(),
    })
}

fn active_session() -> Session {
    match Session::open(Ok(()), payload(), 2000, 0) {
        Ok(s) => s,
        Err(_) => panic!("connect succeeded"),
    }
}

#[test]
fn unreachable_endpoint_gives_connect_error() {
    let err = ConnectError { cause: "connection refused".to_string() };
    match Session::open(Err(err), payload(), 2000, 0) {
        Err(e) => assert_eq!(e, ConnectError { cause: "connection refused".to_string() }),
        Ok(_) => panic!("no session may be created"),
    }
}

#[test]
fn opened_session_is_active_and_emits() {
    let mut s = active_session();
    assert!(s.is_active());
    assert_eq!(s.outcome(), &None);
    assert_eq!(s.poll_outbound(0), Pace::Emit(payload()));
    assert_eq!(s.poll_outbound(1500), Pace::Wait(500));
}

#[test]
fn three_messages_in_arrival_order() {
    let mut s = active_session();
    let items = vec![message("a", "A"), message("b", "B"), message("c", "C")];
    let lines = s.run(&items);
    assert_eq!(lines, vec!["a: A".to_string(), "b: B".to_string(), "c: C".to_string()]);
    assert!(s.is_active());
}

#[test]
fn unrecognized_then_message() {
    let mut s = active_session();
    let items = vec![Received::Envelope(InboundEnvelope::Unrecognized), message("Alice", "hi")];
    let lines = s.run(&items);
    assert_eq!(lines, vec!["Unknown response found".to_string(), "Alice: hi".to_string()]);
    assert!(s.is_active());
}

#[test]
fn end_of_stream_is_graceful() {
    let mut s = active_session();
    let items = vec![message("Alice", "hi"), Received::EndOfStream, message("Bob", "late")];
    let lines = s.run(&items);
    assert_eq!(lines, vec!["Alice: hi".to_string()]);
    assert_eq!(s.outcome(), &Some(SessionOutcome::Graceful));
    assert_eq!(s.poll_outbound(0), Pace::Stopped);
}

#[test]
fn fault_is_distinct_from_graceful() {
    let mut s = active_session();
    let fault = TransportFault { cause: "connection reset".to_string() };
    assert!(s.receive(&Received::Fault(fault.clone())).is_none());
    assert!(!s.is_active());
    assert_eq!(s.outcome(), &Some(SessionOutcome::Faulted(fault)));
    assert_ne!(s.outcome(), &Some(SessionOutcome::Graceful));
    assert!(s.receive(&Received::EndOfStream).is_none());
    assert!(s.receive(&message("Bob", "late")).is_none());
}

#[test]
fn interrupt_stops_outbound() {
    let mut s = active_session();
    assert_eq!(s.poll_outbound(0), Pace::Emit(payload()));
    s.interrupt();
    assert_eq!(s.outcome(), &Some(SessionOutcome::Interrupted));
    assert_eq!(s.poll_outbound(2000), Pace::Stopped);
    assert_eq!(s.poll_outbound(4000), Pace::Stopped);
    assert!(s.receive(&message("Alice", "hi")).is_none());
}

#[test]
fn receive_dispatches_single_envelope() {
    let mut s = active_session();
    let d = s.receive(&message("Alice", "hi")).expect("an active session dispatches");
    assert_eq!(d.line(), "Alice: hi");
}
