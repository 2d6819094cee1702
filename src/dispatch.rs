//! Classifies one inbound envelope and renders the line it stands for.

use vstd::prelude::*;
use vstd::string::*;
use crate::envelope::InboundEnvelope;

verus! {

/// What dispatching one envelope produced: a rendered content line, or the
/// single diagnostic line for a variant this client does not know.
#[derive(Debug, PartialEq, Eq)]
pub enum Dispatched {
    Rendered { line: String },
    Unrecognized { line: String },
}

/// The identity shown for a message whose sender is absent. An absent sender
/// is distinct from an empty one, which renders as the empty string.
pub open spec fn sender_name(sender: Option<String>) -> Seq<char> {
    match sender {
        Some(name) => name@,
        None => "Unknown"@,
    }
}

/// `"{sender}: {text}"`.
pub open spec fn rendered_line(sender: Option<String>, text: Seq<char>) -> Seq<char> {
    sender_name(sender) + ": "@ + text
}

/// The diagnostic emitted for an unrecognized variant.
pub open spec fn diagnostic_line() -> Seq<char> {
    "Unknown response found"@
}

/// Whether this client knows how to render the envelope.
pub open spec fn recognizes(env: InboundEnvelope) -> bool {
    env is Message
}

/// The one line that dispatching `env` produces.
pub open spec fn dispatch_line(env: InboundEnvelope) -> Seq<char> {
    match env {
        InboundEnvelope::Message { sender, text } => rendered_line(sender, text@),
        InboundEnvelope::Unrecognized => diagnostic_line(),
    }
}

impl Dispatched {
    pub open spec fn spec_line(self) -> Seq<char> {
        match self {
            Dispatched::Rendered { line } => line@,
            Dispatched::Unrecognized { line } => line@,
        }
    }

    /// The produced line, whichever kind it is.
    pub fn line(&self) -> (r: &String)
        ensures
            r@ == self.spec_line(),
    {
        match self {
            Dispatched::Rendered { line } => line,
            Dispatched::Unrecognized { line } => line,
        }
    }

    pub fn is_rendered(&self) -> (r: bool)
        ensures
            r == self is Rendered,
    {
        match self {
            Dispatched::Rendered { .. } => true,
            Dispatched::Unrecognized { .. } => false,
        }
    }
}

/// Renders a message line: the sender, or `Unknown` where there is none,
/// then `": "`, then the text.
pub fn render_message(sender: &Option<String>, text: &String) -> (r: String)
    ensures
        r@ == rendered_line(*sender, text@),
{
    let mut line = match sender {
        Some(name) => name.clone(),
        None => String::from_str("Unknown"),
    };
    line.append(": ");
    line.append(text.as_str());
    line
}

/// Dispatches one inbound envelope: exactly one line comes out, a rendered
/// one for a message and a diagnostic one for anything else.
pub fn dispatch(env: &InboundEnvelope) -> (r: Dispatched)
    ensures
        r.spec_line() == dispatch_line(*env),
        (r is Rendered) == recognizes(*env),
{
    match env {
        InboundEnvelope::Message { sender, text } => Dispatched::Rendered {
            line: render_message(sender, text),
        },
        InboundEnvelope::Unrecognized => Dispatched::Unrecognized {
            line: String::from_str("Unknown response found"),
        },
    }
}

} // verus!
