//! What a connection that relays score changes does with each thing that
//! happens to it.

use vstd::prelude::*;

verus! {

/// What happened on a connection.
#[derive(Debug, PartialEq, Eq)]
pub enum SocketEvent {
    /// The connection was opened.
    Opened,
    /// A text message arrived.
    Text(String),
    /// The other side closed the connection.
    Close,
    /// A message of another kind arrived.
    Other,
    /// A message could not be sent or received.
    Failed,
    /// No more messages will arrive.
    Ended,
}

/// What the connection does next.
#[derive(Debug, PartialEq, Eq)]
pub enum SocketAction {
    /// Send this text, then wait for a message.
    Send(String),
    /// Wait for a message.
    Receive,
    /// Leave the connection.
    Stop,
}

/// The greeting that is sent when a connection is opened.
pub open spec fn welcome_text() -> Seq<char> {
    "{\"type\":\"connected\",\"message\":\"Welcome to leaderboard updates\"}"@
}

/// What the connection does after `event`: it greets when it is opened,
/// sends back each text it receives, passes over messages of other kinds,
/// and leaves when the other side closes, when the messages end, and when
/// sending or receiving fails.
pub fn on_event(event: SocketEvent) -> (action: SocketAction)
    ensures
        match event {
            SocketEvent::Opened => action matches SocketAction::Send(text) && text@
                == welcome_text(),
            SocketEvent::Text(received) => action matches SocketAction::Send(text) && text
                == received,
            SocketEvent::Other => action is Receive,
            SocketEvent::Close | SocketEvent::Failed | SocketEvent::Ended => action is Stop,
        },
{
    match event {
        SocketEvent::Opened => SocketAction::Send(
            "{\"type\":\"connected\",\"message\":\"Welcome to leaderboard updates\"}".to_owned(),
        ),
        SocketEvent::Text(received) => SocketAction::Send(received),
        SocketEvent::Other => SocketAction::Receive,
        SocketEvent::Close => SocketAction::Stop,
        SocketEvent::Failed => SocketAction::Stop,
        SocketEvent::Ended => SocketAction::Stop,
    }
}

} // verus!
