use chat_client::dispatch::{dispatch, render_message, Dispatched};
use chat_client::envelope::InboundEnvelope;

fn message(sender: Option<&str>, text: &str) -> InboundEnvelope {
    InboundEnvelope::Message { sender: sender.map(|s| s.to_string()), text: text.to_string() }
}

#[test]
fn absent_sender_renders_placeholder() {
    let d = dispatch(&message(None, "hi"));
    assert_eq!(d, Dispatched::Rendered { line: "Unknown: hi".to_string() });
    assert!(d.is_rendered());
}

#[test]
fn named_sender_renders_name() {
    let d = dispatch(&message(Some("Alice"), "hi"));
    assert_eq!(d.line(), "Alice: hi");
    assert!(d.is_rendered());
}

#[test]
fn empty_sender_is_not_the_placeholder() {
    let d = dispatch(&message(Some(""), "hi"));
    assert_eq!(d.line(), ": hi");
}

#[test]
fn empty_text_keeps_separator() {
    assert_eq!(render_message(&Some("Bob".to_string()), &String::new()), "Bob: ");
}

#[test]
fn unrecognized_variant_gives_one_diagnostic() {
    let d = dispatch(&InboundEnvelope::Unrecognized);
    assert_eq!(d, Dispatched::Unrecognized { line: "Unknown response found".to_string() });
    assert!(!d.is_rendered());
}

#[test]
fn envelope_clone_is_equal() {
    let m = message(Some("Alice"), "hi");
    assert_eq!(m.clone(), m);
}
