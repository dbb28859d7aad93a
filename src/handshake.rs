//! The per-connection state machine of the emulated peer: the version /
//! verack handshake in either direction, the policy for out-of-order
//! handshake messages, and the steady state in which messages pass through
//! the filter to an order-preserving delivery queue.

use vstd::prelude::*;
use crate::message::MessageKind;

verus! {

/// Which side opened the connection.
#[derive(Debug, Clone, Copy, PartialEq, Eq, Structural)]
pub enum Role {
    /// The emulated peer connected out: it speaks first.
    Initiator,
    /// The emulated peer accepted the connection: it waits for the version.
    Responder,
}

/// What happens to a handshake message that comes out of turn, including a
/// second version or verack after the handshake.
#[derive(Debug, Clone, Copy, PartialEq, Eq, Structural)]
pub enum ViolationPolicy {
    /// Close the connection.
    Disconnect,
    /// Drop the message and carry on.
    Ignore,
}

/// Where a connection stands.
#[derive(Debug, Clone, Copy, PartialEq, Eq, Structural)]
pub enum ConnState {
    /// No transport yet.
    Connecting,
    /// Handshaking; the peer's version has not come yet.
    AwaitingVersion,
    /// Handshaking; the peer's version has come, its verack has not.
    AwaitingVerack,
    /// Both sides have exchanged version and verack.
    Established,
    /// Terminal: nothing more is read or written.
    Closed,
}

/// Something that happened on a connection.
#[derive(Debug, Clone, Copy, PartialEq, Eq, Structural)]
pub enum Event {
    /// The transport connected or was accepted.
    Connected,
    /// A well-framed message arrived; `None` for a command no kind has.
    Received(Option<MessageKind>),
    /// The byte stream can no longer be trusted (bad magic, checksum
    /// mismatch, truncated envelope).
    FramingError,
    /// The remote side closed the connection.
    RemoteClosed,
    /// Local shutdown was asked for.
    Shutdown,
}

/// What the connection's driver must do in response.
#[derive(Debug, Clone, Copy, PartialEq, Eq, Structural)]
pub enum Action {
    Nothing,
    SendVersion,
    SendVerack,
    /// Hand the message to the filter and then, as it decides, to test code.
    Deliver,
    /// Drop the message.
    Ignore,
    /// Close the transport.
    Close,
}

/// Whether a message kind belongs to the handshake.
pub open spec fn is_handshake_kind(k: Option<MessageKind>) -> bool {
    k == Some(MessageKind::Version) || k == Some(MessageKind::Verack)
}

/// The state and action for an out-of-turn handshake message.
pub open spec fn violation(policy: ViolationPolicy, state: ConnState) -> (ConnState, Action) {
    match policy {
        ViolationPolicy::Disconnect => (ConnState::Closed, Action::Close),
        ViolationPolicy::Ignore => (state, Action::Ignore),
    }
}

/// The transition table of a connection.
pub open spec fn next(role: Role, policy: ViolationPolicy, state: ConnState, event: Event) -> (ConnState, Action) {
    match state {
        ConnState::Closed => (ConnState::Closed, Action::Nothing),
        _ => match event {
            Event::FramingError => (ConnState::Closed, Action::Close),
            Event::Shutdown => (ConnState::Closed, Action::Close),
            Event::RemoteClosed => (ConnState::Closed, Action::Nothing),
            Event::Connected => match state {
                ConnState::Connecting => match role {
                    Role::Initiator => (ConnState::AwaitingVersion, Action::SendVersion),
                    Role::Responder => (ConnState::AwaitingVersion, Action::Nothing),
                },
                _ => (state, Action::Nothing),
            },
            Event::Received(k) => match state {
                ConnState::Connecting => (state, Action::Ignore),
                ConnState::AwaitingVersion => if k == Some(MessageKind::Version) {
                    match role {
                        Role::Initiator => (ConnState::AwaitingVerack, Action::Nothing),
                        Role::Responder => (ConnState::AwaitingVerack, Action::SendVersion),
                    }
                } else {
                    violation(policy, state)
                },
                ConnState::AwaitingVerack => if k == Some(MessageKind::Verack) {
                    (ConnState::Established, Action::SendVerack)
                } else {
                    violation(policy, state)
                },
                _ => if is_handshake_kind(k) {
                    violation(policy, state)
                } else {
                    (state, Action::Deliver)
                },
            },
        },
    }
}

/// One step of the connection state machine.
pub fn step(role: Role, policy: ViolationPolicy, state: ConnState, event: Event) -> (r: (ConnState, Action))
    ensures
        r == next(role, policy, state, event),
{
    let out_of_turn = match policy {
        ViolationPolicy::Disconnect => (ConnState::Closed, Action::Close),
        ViolationPolicy::Ignore => (state, Action::Ignore),
    };
    if state == ConnState::Closed {
        return (ConnState::Closed, Action::Nothing);
    }
    match event {
        Event::FramingError | Event::Shutdown => (ConnState::Closed, Action::Close),
        Event::RemoteClosed => (ConnState::Closed, Action::Nothing),
        Event::Connected => {
            if state == ConnState::Connecting {
                match role {
                    Role::Initiator => (ConnState::AwaitingVersion, Action::SendVersion),
                    Role::Responder => (ConnState::AwaitingVersion, Action::Nothing),
                }
            } else {
                (state, Action::Nothing)
            }
        },
        Event::Received(k) => match state {
            ConnState::Connecting => (state, Action::Ignore),
            ConnState::AwaitingVersion => {
                if k == Some(MessageKind::Version) {
                    match role {
                        Role::Initiator => (ConnState::AwaitingVerack, Action::Nothing),
                        Role::Responder => (ConnState::AwaitingVerack, Action::SendVersion),
                    }
                } else {
                    out_of_turn
                }
            },
            ConnState::AwaitingVerack => {
                if k == Some(MessageKind::Verack) {
                    (ConnState::Established, Action::SendVerack)
                } else {
                    out_of_turn
                }
            },
            _ => {
                if k == Some(MessageKind::Version) || k == Some(MessageKind::Verack) {
                    out_of_turn
                } else {
                    (state, Action::Deliver)
                }
            },
        },
    }
}

/// The initiating side sends its version as soon as it connects, before it
/// has received anything, and does not send it again.
pub proof fn lemma_initiator_sends_version_first(policy: ViolationPolicy, state: ConnState, event: Event)
    ensures
        next(Role::Initiator, policy, ConnState::Connecting, Event::Connected) == (
            ConnState::AwaitingVersion,
            Action::SendVersion,
        ),
        state != ConnState::Connecting ==> next(Role::Initiator, policy, state, event).1 != Action::SendVersion,
{
}

/// The accepting side sends its version only on receiving the peer's, in
/// the state that awaits it.
pub proof fn lemma_responder_waits_for_version(policy: ViolationPolicy, state: ConnState, event: Event)
    ensures
        next(Role::Responder, policy, state, event).1 == Action::SendVersion ==> state
            == ConnState::AwaitingVersion && event == Event::Received(Some(MessageKind::Version)),
{
}

/// A verack is sent only from the state that is entered on receiving the
/// peer's version, and that state is entered in no other way.
pub proof fn lemma_verack_after_version(role: Role, policy: ViolationPolicy, state: ConnState, event: Event)
    ensures
        next(role, policy, state, event).1 == Action::SendVerack ==> state == ConnState::AwaitingVerack,
        next(role, policy, state, event).0 == ConnState::AwaitingVerack && state != ConnState::AwaitingVerack
            ==> state == ConnState::AwaitingVersion && event == Event::Received(Some(MessageKind::Version)),
{
}

/// The handshake completes only on the peer's verack, after its version.
pub proof fn lemma_established_after_verack(role: Role, policy: ViolationPolicy, state: ConnState, event: Event)
    ensures
        next(role, policy, state, event).0 == ConnState::Established && state != ConnState::Established
            ==> state == ConnState::AwaitingVerack && event == Event::Received(Some(MessageKind::Verack)),
{
}

/// A second version on an established connection closes it under
/// `Disconnect` and is dropped, leaving the connection established, under
/// `Ignore`.
pub proof fn lemma_duplicate_version(role: Role)
    ensures
        next(role, ViolationPolicy::Disconnect, ConnState::Established, Event::Received(Some(MessageKind::Version)))
            == (ConnState::Closed, Action::Close),
        next(role, ViolationPolicy::Ignore, ConnState::Established, Event::Received(Some(MessageKind::Version)))
            == (ConnState::Established, Action::Ignore),
{
}

/// A closed connection stays closed and does nothing more.
pub proof fn lemma_closed_is_terminal(role: Role, policy: ViolationPolicy, event: Event)
    ensures
        next(role, policy, ConnState::Closed, event) == (ConnState::Closed, Action::Nothing),
{
}

} // verus!
