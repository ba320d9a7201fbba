//! Messages exchanged with the call client over the WebSocket.
use vstd::prelude::*;

verus! {

/// Message sent by the call client.
#[derive(Debug)]
pub enum ClientMessage {
    Message { content: String },
}

/// A passage of a knowledge-base document that a copilot answer cites.
#[derive(Debug, Clone)]
pub struct Reference {
    pub document_id: String,
    pub start: usize,
    pub end: usize,
    pub text: String,
}

/// Message sent to the call client.
#[derive(Debug, Clone)]
pub enum ServerMessage {
    Connected { conversation_id: String },
    InterimTranscript { role: String, content: String },
    Utterance { id: String, role: String, content: String },
    Message { id: String, role: String, content: String },
    Processing { id: String, trigger_id: String, stage: String },
    /// A passage of a knowledge-base document that the copilot's answer
    /// cites, by document and position.
    Highlight {
        id: String,
        trigger_id: String,
        document_id: String,
        start: usize,
        end: usize,
        text: String,
    },
    /// The copilot's answer, drawn from the knowledge base.
    Summary { id: String, trigger_id: String, content: String },
    /// What the operator could say to the customer.
    Suggestion { id: String, trigger_id: String, content: String },
    /// No knowledge-base content was found for the message.
    NoRelevantInfo { id: String, trigger_id: String, content: String },
}

/// What arrived on the call's WebSocket, without its payload.
#[derive(Debug, Clone, Copy, PartialEq, Eq, Structural)]
pub enum SocketEvent {
    Binary,
    Text,
    Ping,
    Pong,
    Close,
    Error,
}

/// What the call's receive loop does with a WebSocket event.
#[derive(Debug, Clone, Copy, PartialEq, Eq, Structural)]
pub enum SocketAction {
    /// Decode the payload as an audio packet and forward it.
    HandleAudio,
    /// Decode the payload as a client message and handle it.
    HandleText,
    /// Answer with a pong that carries the same payload; stop if that fails.
    ReplyPong,
    /// Nothing to do.
    Ignore,
    /// Leave the loop and flush the call.
    Stop,
}

/// The receive loop's decision for one WebSocket event.
pub open spec fn socket_action_for(e: SocketEvent) -> SocketAction {
    match e {
        SocketEvent::Binary => SocketAction::HandleAudio,
        SocketEvent::Text => SocketAction::HandleText,
        SocketEvent::Ping => SocketAction::ReplyPong,
        SocketEvent::Pong => SocketAction::Ignore,
        SocketEvent::Close => SocketAction::Stop,
        SocketEvent::Error => SocketAction::Stop,
    }
}

/// Decides what the call's receive loop does with one WebSocket event.
pub fn socket_action(e: SocketEvent) -> (a: SocketAction)
    ensures
        a == socket_action_for(e),
{
    match e {
        SocketEvent::Binary => SocketAction::HandleAudio,
        SocketEvent::Text => SocketAction::HandleText,
        SocketEvent::Ping => SocketAction::ReplyPong,
        SocketEvent::Pong => SocketAction::Ignore,
        SocketEvent::Close => SocketAction::Stop,
        SocketEvent::Error => SocketAction::Stop,
    }
}

} // verus!
