//! One client's connection on the server: what each event on the
//! connection does to the game and whether the connection goes on.
//!
//! The network side turns what its socket and its outgoing queue report
//! into a [`SessionEvent`], and ends the connection (disconnecting the
//! client) when the step says so.
use vstd::prelude::*;
use crate::protocol::{C2s, ClientId};
use crate::server::{ServerState, ServerView};

verus! {

/// What happened on a client's connection.
#[derive(Debug, Clone, Copy, PartialEq, Eq)]
pub enum SessionEvent {
    /// A queued server message was sent on the socket.
    Sent,
    /// Sending on the socket failed.
    SendFailed,
    /// The queue of server messages for this client was closed.
    QueueClosed,
    /// A binary frame arrived and decoded to a message.
    Received(C2s),
    /// A binary frame arrived that does not decode to a message.
    Malformed,
    /// The client sent a close frame.
    CloseFrame,
    /// A text, ping or pong frame arrived.
    OtherFrame,
    /// Reading from the socket failed, or the socket is gone.
    ReceiveEnded,
}

/// What the connection does next.
#[derive(Debug, Clone, Copy, PartialEq, Eq, Structural)]
pub enum SessionStep {
    /// Keep serving the connection.
    Continue,
    /// Keep serving the connection, and report the undecodable frame.
    ReportMalformed,
    /// Close the connection and disconnect the client.
    End,
}

/// The step after an event: a failed send, a closed queue, a close frame or
/// a failed read end the connection; an undecodable frame is reported;
/// everything else keeps it going.
pub open spec fn step_for(event: SessionEvent) -> SessionStep {
    match event {
        SessionEvent::Sent => SessionStep::Continue,
        SessionEvent::SendFailed => SessionStep::End,
        SessionEvent::QueueClosed => SessionStep::End,
        SessionEvent::Received(_) => SessionStep::Continue,
        SessionEvent::Malformed => SessionStep::ReportMalformed,
        SessionEvent::CloseFrame => SessionStep::End,
        SessionEvent::OtherFrame => SessionStep::Continue,
        SessionEvent::ReceiveEnded => SessionStep::End,
    }
}

/// The game after an event on `client`'s connection: a decoded message is
/// applied; every other event leaves the game alone.
pub open spec fn game_after(v: ServerView, client: ClientId, event: SessionEvent) -> ServerView {
    match event {
        SessionEvent::Received(msg) => v.received(client, msg),
        _ => v,
    }
}

/// Handles one event on `client`'s connection.
pub fn session_event(game: &mut ServerState, client: ClientId, event: SessionEvent) -> (step: SessionStep)
    ensures
        final(game)@ == game_after(old(game)@, client, event),
        step == step_for(event),
        event matches SessionEvent::Received(msg) ==> final(game)@ == old(game)@.received(client, msg),
        !(event is Received) ==> final(game)@ == old(game)@,
        (step == SessionStep::End) <==> (event is SendFailed || event is QueueClosed
            || event is CloseFrame || event is ReceiveEnded),
        (step == SessionStep::ReportMalformed) <==> event is Malformed,
        (step == SessionStep::Continue) <==> (event is Sent || event is Received || event is OtherFrame),
{
    match event {
        SessionEvent::Sent => {
            SessionStep::Continue
        },
        SessionEvent::SendFailed => {
            SessionStep::End
        },
        SessionEvent::QueueClosed => {
            SessionStep::End
        },
        SessionEvent::Received(msg) => {
            game.receive(client, msg);
            SessionStep::Continue
        },
        SessionEvent::Malformed => {
            SessionStep::ReportMalformed
        },
        SessionEvent::CloseFrame => {
            SessionStep::End
        },
        SessionEvent::OtherFrame => {
            SessionStep::Continue
        },
        SessionEvent::ReceiveEnded => {
            SessionStep::End
        },
    }
}

/// Only a decoded message changes the game, and a connection that goes on
/// never loses its client's player.
pub proof fn lemma_only_messages_change_the_game(v: ServerView, client: ClientId, event: SessionEvent)
    ensures
        !(event is Received) ==> game_after(v, client, event) == v,
        step_for(event) != SessionStep::End ==> game_after(v, client, event).players.dom()
            == v.players.dom(),
{
    match event {
        SessionEvent::Received(msg) => {
            match msg {
                C2s::Input(input) => {
                    if v.players.contains_key(client) {
                        assert(v.received(client, msg).players.dom() =~= v.players.dom());
                    }
                },
            }
        },
        _ => {},
    }
}

/// A decoded message changes the game exactly as the server's `receive` of
/// that message from the connection's client does, whatever the message
/// holds; every other event leaves the game as it is.
pub proof fn lemma_received_event_is_receive(v: ServerView, client: ClientId, event: SessionEvent)
    ensures
        event matches SessionEvent::Received(msg) ==> game_after(v, client, event) == v.received(
            client,
            msg,
        ),
        !(event is Received) ==> game_after(v, client, event) == v,
{
}

/// The connection ends exactly on a failed send, a closed queue, a close
/// frame or a failed read; it reports exactly the undecodable frames; it goes
/// on after a send, a decoded message and any other frame.
pub proof fn lemma_step_table(event: SessionEvent)
    ensures
        (step_for(event) == SessionStep::End) <==> (event is SendFailed || event is QueueClosed
            || event is CloseFrame || event is ReceiveEnded),
        (step_for(event) == SessionStep::ReportMalformed) <==> event is Malformed,
        (step_for(event) == SessionStep::Continue) <==> (event is Sent || event is Received
            || event is OtherFrame),
{
}

} // verus!
