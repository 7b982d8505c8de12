//! What the WebSocket endpoint does with each event of a connection: it echoes
//! text and binary messages back, and ends the connection when the peer closes
//! it or when reading or sending fails.
use vstd::prelude::*;

verus! {

/// An event on an open WebSocket connection.
#[derive(Debug, Clone, Copy, PartialEq, Eq)]
pub enum WsEvent {
    /// A text message arrived.
    Text,
    /// A binary message arrived.
    Binary,
    /// The peer closed the connection.
    Close,
    /// A control frame (ping, pong or raw frame) arrived.
    Control,
    /// Reading from the connection failed.
    ReadError,
}

/// Why a connection ends.
#[derive(Debug, Clone, Copy, PartialEq, Eq)]
pub enum WsEnd {
    ClosedByPeer,
    ReadFailed,
    SendFailed,
}

/// What the endpoint does next.
#[derive(Debug, Clone, Copy, PartialEq, Eq)]
pub enum WsAction {
    /// Send the message just received back to the peer.
    Echo,
    /// Wait for the next event.
    Continue,
    /// Stop serving the connection.
    Stop(WsEnd),
}

/// The action for an event.
pub open spec fn action_for(event: WsEvent) -> WsAction {
    match event {
        WsEvent::Text | WsEvent::Binary => WsAction::Echo,
        WsEvent::Close => WsAction::Stop(WsEnd::ClosedByPeer),
        WsEvent::Control => WsAction::Continue,
        WsEvent::ReadError => WsAction::Stop(WsEnd::ReadFailed),
    }
}

/// What to do with an event.
pub fn on_event(event: WsEvent) -> (r: WsAction)
    ensures
        r == action_for(event),
{
    match event {
        WsEvent::Text | WsEvent::Binary => WsAction::Echo,
        WsEvent::Close => WsAction::Stop(WsEnd::ClosedByPeer),
        WsEvent::Control => WsAction::Continue,
        WsEvent::ReadError => WsAction::Stop(WsEnd::ReadFailed),
    }
}

/// What to do once an echo was sent, or failed to be.
pub fn after_echo(sent: bool) -> (r: WsAction)
    ensures
        r == (if sent { WsAction::Continue } else { WsAction::Stop(WsEnd::SendFailed) }),
{
    if sent {
        WsAction::Continue
    } else {
        WsAction::Stop(WsEnd::SendFailed)
    }
}

/// Exactly the text and binary messages are echoed; a connection ends exactly
/// on a close or a read error, or when an echo cannot be sent; control frames
/// are passed over.
pub proof fn lemma_echo_rules(event: WsEvent)
    ensures
        (action_for(event) == WsAction::Echo) <==> (event == WsEvent::Text || event == WsEvent::Binary),
        (action_for(event) is Stop) <==> (event == WsEvent::Close || event == WsEvent::ReadError),
        (action_for(event) == WsAction::Continue) <==> event == WsEvent::Control,
        action_for(WsEvent::Close) == WsAction::Stop(WsEnd::ClosedByPeer),
        action_for(WsEvent::ReadError) == WsAction::Stop(WsEnd::ReadFailed),
{
}

} // verus!
