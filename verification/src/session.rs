//! The per-connection lifecycle state machine.
//!
//! One session drives one client: handshake, name registration, the inbound
//! read loop, and teardown. The machine here only decides; the surrounding
//! process performs the transport work and hands the next event back. States
//! move one way, `Connecting -> AwaitingName -> Active -> Closed`, and a
//! fresh physical connection always starts a fresh machine.

use vstd::prelude::*;

use crate::message::classify_spec;
use crate::message::classify;
use crate::message::Command;
use crate::message::CommandModel;
use crate::message::Frame;
use crate::message::FrameModel;

verus! {

/// Lifecycle state of one connection.
#[derive(Clone, Copy, Debug, PartialEq, Eq, Structural)]
pub enum SessionState {
    /// Raw transport accepted; the protocol handshake is in progress.
    Connecting,
    /// Handshake done; the first inbound text frame will be the display name.
    AwaitingName,
    /// Registered in the directory; the read loop is running.
    Active,
    /// Terminal: the session's entry is removed and no further send happens.
    Closed,
}

/// What the transport reported to the session.
pub enum SessionEvent {
    /// The protocol handshake finished.
    HandshakeComplete,
    /// One inbound frame arrived.
    FrameReceived(Frame),
    /// The peer's stream ended.
    StreamEnded,
    /// Reading from the peer failed.
    ReadError,
}

/// Mathematical model of a [`SessionEvent`].
pub enum SessionEventModel {
    HandshakeComplete,
    FrameReceived(FrameModel),
    StreamEnded,
    ReadError,
}

impl View for SessionEvent {
    type V = SessionEventModel;

    open spec fn view(&self) -> SessionEventModel {
        match self {
            SessionEvent::HandshakeComplete => SessionEventModel::HandshakeComplete,
            SessionEvent::FrameReceived(f) => SessionEventModel::FrameReceived(f@),
            SessionEvent::StreamEnded => SessionEventModel::StreamEnded,
            SessionEvent::ReadError => SessionEventModel::ReadError,
        }
    }
}

/// What the session asks the surrounding process to do next.
pub enum SessionAction {
    /// Nothing to perform; keep driving the transport.
    Proceed,
    /// Create the directory entry under this display name, then read on.
    Register(Vec<u8>),
    /// Hand the frame to the router for delivery to everyone else.
    Broadcast(Frame),
    /// Hand a private message to the router for the named recipient.
    Whisper { recipient: Vec<u8>, body: Vec<u8> },
    /// A malformed whisper command: report it to the sender, route nothing.
    ReportInvalidWhisper,
    /// Close the session's own handle, then remove its entry.
    CloseSelf,
    /// Remove the session's entry (a no-op if it never registered).
    Teardown,
    /// No effect.
    Ignore,
}

/// Mathematical model of a [`SessionAction`].
pub enum SessionActionModel {
    Proceed,
    Register(Seq<u8>),
    Broadcast(FrameModel),
    Whisper { recipient: Seq<u8>, body: Seq<u8> },
    ReportInvalidWhisper,
    CloseSelf,
    Teardown,
    Ignore,
}

impl View for SessionAction {
    type V = SessionActionModel;

    open spec fn view(&self) -> SessionActionModel {
        match self {
            SessionAction::Proceed => SessionActionModel::Proceed,
            SessionAction::Register(name) => SessionActionModel::Register(name@),
            SessionAction::Broadcast(f) => SessionActionModel::Broadcast(f@),
            SessionAction::Whisper { recipient, body } => SessionActionModel::Whisper {
                recipient: recipient@,
                body: body@,
            },
            SessionAction::ReportInvalidWhisper => SessionActionModel::ReportInvalidWhisper,
            SessionAction::CloseSelf => SessionActionModel::CloseSelf,
            SessionAction::Teardown => SessionActionModel::Teardown,
            SessionAction::Ignore => SessionActionModel::Ignore,
        }
    }
}

/// The display name used when a client proceeds without supplying one.
pub open spec fn anonymous_name() -> Seq<u8> {
    seq![65u8, 110u8, 111u8, 110u8, 121u8, 109u8, 111u8, 117u8, 115u8]
}

/// The bytes of `"Anonymous"`.
pub fn anonymous_name_bytes() -> (r: Vec<u8>)
    ensures
        r@ == anonymous_name(),
{
    let mut r: Vec<u8> = Vec::new();
    r.push(65u8);
    r.push(110u8);
    r.push(111u8);
    r.push(110u8);
    r.push(121u8);
    r.push(109u8);
    r.push(111u8);
    r.push(117u8);
    r.push(115u8);
    proof {
        assert(r@ =~= anonymous_name());
    }
    r
}

/// The transition relation of the session machine.
///
/// - In `Connecting`, only the handshake outcome matters; a transport failure
///   closes the session before it ever registers.
/// - In `AwaitingName`, a text frame is the display name; a binary frame
///   defaults the name to `"Anonymous"` and the session proceeds; a close
///   frame or a dead stream closes the session without registering it.
/// - In `Active`, text frames are classified as whisper, close token, or
///   broadcast; binary frames are forwarded unchanged as broadcasts; a close
///   frame or a dead stream ends the read loop.
/// - `Closed` is terminal; every later event is ignored.
pub open spec fn step_spec(state: SessionState, ev: SessionEventModel) -> (
    SessionState,
    SessionActionModel,
) {
    match (state, ev) {
        (SessionState::Connecting, SessionEventModel::HandshakeComplete) => (
            SessionState::AwaitingName,
            SessionActionModel::Proceed,
        ),
        (SessionState::Connecting, SessionEventModel::FrameReceived(_)) => (
            SessionState::Connecting,
            SessionActionModel::Ignore,
        ),
        (SessionState::Connecting, _) => (SessionState::Closed, SessionActionModel::Teardown),
        (SessionState::AwaitingName, SessionEventModel::HandshakeComplete) => (
            SessionState::AwaitingName,
            SessionActionModel::Ignore,
        ),
        (
            SessionState::AwaitingName,
            SessionEventModel::FrameReceived(FrameModel::Text(name)),
        ) => (SessionState::Active, SessionActionModel::Register(name)),
        (
            SessionState::AwaitingName,
            SessionEventModel::FrameReceived(FrameModel::Binary(_)),
        ) => (SessionState::Active, SessionActionModel::Register(anonymous_name())),
        (SessionState::AwaitingName, _) => (SessionState::Closed, SessionActionModel::Teardown),
        (SessionState::Active, SessionEventModel::HandshakeComplete) => (
            SessionState::Active,
            SessionActionModel::Ignore,
        ),
        (SessionState::Active, SessionEventModel::FrameReceived(FrameModel::Text(t))) => match
            classify_spec(t) {
            CommandModel::Whisper { recipient, body } => (
                SessionState::Active,
                SessionActionModel::Whisper { recipient, body },
            ),
            CommandModel::InvalidWhisper => (
                SessionState::Active,
                SessionActionModel::ReportInvalidWhisper,
            ),
            CommandModel::CloseRequest => (SessionState::Closed, SessionActionModel::CloseSelf),
            CommandModel::Broadcast => (
                SessionState::Active,
                SessionActionModel::Broadcast(FrameModel::Text(t)),
            ),
        },
        (SessionState::Active, SessionEventModel::FrameReceived(FrameModel::Binary(b))) => (
            SessionState::Active,
            SessionActionModel::Broadcast(FrameModel::Binary(b)),
        ),
        (SessionState::Active, _) => (SessionState::Closed, SessionActionModel::Teardown),
        (SessionState::Closed, _) => (SessionState::Closed, SessionActionModel::Ignore),
    }
}

/// Take one step of the session machine: from the current state and the
/// event the transport reported, decide the next state and the action the
/// surrounding process must perform, exactly as [`step_spec`] says.
pub fn step(state: SessionState, event: SessionEvent) -> (r: (SessionState, SessionAction))
    ensures
        r.0 == step_spec(state, event@).0,
        r.1@ == step_spec(state, event@).1,
{
    match (state, event) {
        (SessionState::Connecting, SessionEvent::HandshakeComplete) => (
            SessionState::AwaitingName,
            SessionAction::Proceed,
        ),
        (SessionState::Connecting, SessionEvent::FrameReceived(_)) => (
            SessionState::Connecting,
            SessionAction::Ignore,
        ),
        (SessionState::Connecting, _) => (SessionState::Closed, SessionAction::Teardown),
        (SessionState::AwaitingName, SessionEvent::HandshakeComplete) => (
            SessionState::AwaitingName,
            SessionAction::Ignore,
        ),
        (SessionState::AwaitingName, SessionEvent::FrameReceived(Frame::Text(name))) => (
            SessionState::Active,
            SessionAction::Register(name),
        ),
        (SessionState::AwaitingName, SessionEvent::FrameReceived(Frame::Binary(_))) => (
            SessionState::Active,
            SessionAction::Register(anonymous_name_bytes()),
        ),
        (SessionState::AwaitingName, _) => (SessionState::Closed, SessionAction::Teardown),
        (SessionState::Active, SessionEvent::HandshakeComplete) => (
            SessionState::Active,
            SessionAction::Ignore,
        ),
        (SessionState::Active, SessionEvent::FrameReceived(Frame::Text(t))) => match classify(
            &t,
        ) {
            Command::Whisper { recipient, body } => (
                SessionState::Active,
                SessionAction::Whisper { recipient, body },
            ),
            Command::InvalidWhisper => (SessionState::Active, SessionAction::ReportInvalidWhisper),
            Command::CloseRequest => (SessionState::Closed, SessionAction::CloseSelf),
            Command::Broadcast => (SessionState::Active, SessionAction::Broadcast(Frame::Text(t))),
        },
        (SessionState::Active, SessionEvent::FrameReceived(Frame::Binary(b))) => (
            SessionState::Active,
            SessionAction::Broadcast(Frame::Binary(b)),
        ),
        (SessionState::Active, _) => (SessionState::Closed, SessionAction::Teardown),
        (SessionState::Closed, _) => (SessionState::Closed, SessionAction::Ignore),
    }
}

/// Rank of a state along the one-directional lifecycle.
pub open spec fn state_rank(state: SessionState) -> int {
    match state {
        SessionState::Connecting => 0,
        SessionState::AwaitingName => 1,
        SessionState::Active => 2,
        SessionState::Closed => 3,
    }
}

/// Transitions are linear and one-directional: no step moves a session
/// backwards, and `Closed` is terminal.
pub proof fn lemma_transitions_one_directional(state: SessionState, ev: SessionEventModel)
    ensures
        state_rank(step_spec(state, ev).0) >= state_rank(state),
        state == SessionState::Closed ==> step_spec(state, ev).0 == SessionState::Closed,
{
}

/// Registration happens only on the step that leaves `AwaitingName` for
/// `Active`; no other transition asks for a directory entry.
pub proof fn lemma_register_only_from_awaiting_name(state: SessionState, ev: SessionEventModel)
    ensures
        step_spec(state, ev).1 is Register ==> state == SessionState::AwaitingName && step_spec(
            state,
            ev,
        ).0 == SessionState::Active,
{
}

/// A connection that disconnects while awaiting its name — its stream ends,
/// its read fails, or the peer sends a close frame — goes straight to
/// `Closed` and never asks to be registered, so it never appears in the
/// directory and leaves no entry behind.
pub proof fn lemma_disconnect_before_naming_never_registers(ev: SessionEventModel)
    requires
        ev is StreamEnded || ev is ReadError || ev == SessionEventModel::FrameReceived(
            FrameModel::Close,
        ),
    ensures
        step_spec(SessionState::AwaitingName, ev).0 == SessionState::Closed,
        step_spec(SessionState::AwaitingName, ev).1 == SessionActionModel::Teardown,
        !(step_spec(SessionState::AwaitingName, ev).1 is Register),
{
}

} // verus!
