//! The envelopes exchanged over the duplex stream.

use vstd::prelude::*;

verus! {

/// One outbound unit. Being an enum, every value has exactly one populated
/// variant; new variants can be added beside the existing one.
#[derive(Debug, PartialEq, Eq)]
pub enum OutboundEnvelope {
    GlobalMessage { text: String },
}

impl Clone for OutboundEnvelope {
    fn clone(&self) -> (r: Self)
        ensures
            r == *self,
    {
        match self {
            OutboundEnvelope::GlobalMessage { text } => OutboundEnvelope::GlobalMessage {
                text: text.clone(),
            },
        }
    }
}

/// One inbound unit. `Unrecognized` stands for any variant that this client
/// predates: it is well framed but carries nothing that can be rendered.
#[derive(Debug, PartialEq, Eq)]
pub enum InboundEnvelope {
    Message { sender: Option<String>, text: String },
    Unrecognized,
}

impl Clone for InboundEnvelope {
    fn clone(&self) -> (r: Self)
        ensures
            r == *self,
    {
        match self {
            InboundEnvelope::Message { sender, text } => {
                let sender_copy = match sender {
                    Some(name) => Some(name.clone()),
                    None => None,
                };
                InboundEnvelope::Message { sender: sender_copy, text: text.clone() }
            },
            InboundEnvelope::Unrecognized => InboundEnvelope::Unrecognized,
        }
    }
}

} // verus!
