use ziggurat::addr::{IpAddr, NetworkAddr};
use ziggurat::codec::Nonce;
use ziggurat::connection::Connection;
use ziggurat::filter::{auto_reply_to, FilterPolicy, MessageFilter};
use ziggurat::handshake::{step, Action, ConnState, Event, Role, ViolationPolicy};
use ziggurat::inv::{Inv, InvHash, ObjectKind};
use ziggurat::codec::{Hash256, VarStr};
use ziggurat::version::Version;
use ziggurat::message::{Message, MessageKind};
use ziggurat::payload::{Addr, Headers, LocatorHashes};

fn established(role: Role, policy: ViolationPolicy) -> Connection {
    let mut c = Connection::new(role, policy);
    let filter = MessageFilter::new();
    let peers = Vec::new();
    c.handle(Event::Connected);
    let r = c.receive(Message::Verack, &filter, &peers);
    if policy == ViolationPolicy::Disconnect {
        assert_eq!(r.action, Action::Close);
        let mut c = Connection::new(role, policy);
        c.handle(Event::Connected);
        c.receive(dummy_version(), &filter, &peers);
        c.receive(Message::Verack, &filter, &peers);
        return c;
    }
    c.receive(dummy_version(), &filter, &peers);
    c.receive(Message::Verack, &filter, &peers);
    c
}

fn dummy_version() -> Message {
    let a = NetworkAddr { last_seen: None, services: 0, ip: IpAddr::V4([127, 0, 0, 1]), port: 8233 };
    Message::Version(Version {
        version: 170_100,
        services: 0,
        timestamp: 0,
        addr_recv: a,
        addr_from: a,
        nonce: Nonce::new(1),
        user_agent: VarStr::new(String::new()),
        start_height: 0,
        relay: false,
    })
}

#[test]
fn initiator_handshake_order() {
    let p = ViolationPolicy::Disconnect;
    let (s, a) = step(Role::Initiator, p, ConnState::Connecting, Event::Connected);
    assert_eq!((s, a), (ConnState::AwaitingVersion, Action::SendVersion));
    let (s, a) = step(Role::Initiator, p, s, Event::Received(Some(MessageKind::Version)));
    assert_eq!((s, a), (ConnState::AwaitingVerack, Action::Nothing));
    let (s, a) = step(Role::Initiator, p, s, Event::Received(Some(MessageKind::Verack)));
    assert_eq!((s, a), (ConnState::Established, Action::SendVerack));
}

#[test]
fn responder_handshake_order() {
    let p = ViolationPolicy::Disconnect;
    let (s, a) = step(Role::Responder, p, ConnState::Connecting, Event::Connected);
    assert_eq!((s, a), (ConnState::AwaitingVersion, Action::Nothing));
    let (s, a) = step(Role::Responder, p, s, Event::Received(Some(MessageKind::Version)));
    assert_eq!((s, a), (ConnState::AwaitingVerack, Action::SendVersion));
    let (s, a) = step(Role::Responder, p, s, Event::Received(Some(MessageKind::Verack)));
    assert_eq!((s, a), (ConnState::Established, Action::SendVerack));
}

#[test]
fn out_of_turn_message_during_handshake() {
    let (s, a) = step(Role::Responder, ViolationPolicy::Disconnect, ConnState::AwaitingVersion, Event::Received(Some(MessageKind::Ping)));
    assert_eq!((s, a), (ConnState::Closed, Action::Close));
    let (s, a) = step(Role::Responder, ViolationPolicy::Ignore, ConnState::AwaitingVersion, Event::Received(Some(MessageKind::Ping)));
    assert_eq!((s, a), (ConnState::AwaitingVersion, Action::Ignore));
    let (s, a) = step(Role::Initiator, ViolationPolicy::Ignore, ConnState::AwaitingVerack, Event::Received(None));
    assert_eq!((s, a), (ConnState::AwaitingVerack, Action::Ignore));
}

#[test]
fn duplicate_version_per_policy() {
    let (s, a) = step(Role::Initiator, ViolationPolicy::Disconnect, ConnState::Established, Event::Received(Some(MessageKind::Version)));
    assert_eq!((s, a), (ConnState::Closed, Action::Close));
    let (s, a) = step(Role::Initiator, ViolationPolicy::Ignore, ConnState::Established, Event::Received(Some(MessageKind::Version)));
    assert_eq!((s, a), (ConnState::Established, Action::Ignore));
}

#[test]
fn framing_error_and_shutdown_close() {
    assert_eq!(
        step(Role::Initiator, ViolationPolicy::Ignore, ConnState::Established, Event::FramingError),
        (ConnState::Closed, Action::Close)
    );
    assert_eq!(
        step(Role::Initiator, ViolationPolicy::Ignore, ConnState::Closed, Event::Received(Some(MessageKind::Ping))),
        (ConnState::Closed, Action::Nothing)
    );
    let mut c = established(Role::Initiator, ViolationPolicy::Ignore);
    assert_eq!(c.shutdown(), Action::Close);
    assert_eq!(c.state(), ConnState::Closed);
    assert_eq!(c.shutdown(), Action::Nothing);
    assert_eq!(c.delivered_len(), 0);
}

#[test]
fn auto_reply_ping_gives_pong_with_nonce() {
    let mut c = established(Role::Initiator, ViolationPolicy::Ignore);
    let filter = MessageFilter::new().with(MessageKind::Ping, FilterPolicy::AutoReply);
    let r = c.receive(Message::Ping(Nonce::new(0xdead_beef)), &filter, &Vec::new());
    assert_eq!(r.action, Action::Deliver);
    match r.reply {
        Some(Message::Pong(n)) => assert_eq!(n, Nonce::new(0xdead_beef)),
        other => panic!("expected a pong, got {:?}", other),
    }
    assert_eq!(c.delivered_len(), 0);
}

#[test]
fn disabled_ping_is_delivered_without_reply() {
    let mut c = established(Role::Responder, ViolationPolicy::Ignore);
    let filter = MessageFilter::new();
    assert_eq!(filter.policy(MessageKind::Ping), FilterPolicy::Disabled);
    let r = c.receive(Message::Ping(Nonce::new(5)), &filter, &Vec::new());
    assert_eq!(r.action, Action::Deliver);
    assert!(r.reply.is_none());
    match c.next_delivered() {
        Some(Message::Ping(n)) => assert_eq!(n, Nonce::new(5)),
        other => panic!("expected the ping, got {:?}", other),
    }
    assert!(c.next_delivered().is_none());
}

#[test]
fn duplicate_version_then_ping_pong() {
    let mut c = established(Role::Initiator, ViolationPolicy::Ignore);
    assert_eq!(c.state(), ConnState::Established);
    let filter = MessageFilter::with_all_auto_reply();
    let r = c.receive(dummy_version(), &filter, &Vec::new());
    assert_eq!(r.action, Action::Ignore);
    assert!(r.reply.is_none());
    assert_eq!(c.state(), ConnState::Established);
    let r = c.receive(Message::Ping(Nonce::new(77)), &filter, &Vec::new());
    match r.reply {
        Some(Message::Pong(n)) => assert_eq!(n, Nonce::new(77)),
        other => panic!("expected a pong, got {:?}", other),
    }
    let r = c.receive(Message::Pong(Nonce::new(78)), &filter, &Vec::new());
    assert!(r.reply.is_none());
    match c.next_delivered() {
        Some(Message::Pong(n)) => assert_eq!(n, Nonce::new(78)),
        other => panic!("expected the pong, got {:?}", other),
    }
}

#[test]
fn duplicate_version_disconnects_under_strict_policy() {
    let mut c = established(Role::Responder, ViolationPolicy::Disconnect);
    assert_eq!(c.state(), ConnState::Established);
    let r = c.receive(dummy_version(), &MessageFilter::new(), &Vec::new());
    assert_eq!(r.action, Action::Close);
    assert_eq!(c.state(), ConnState::Closed);
}

#[test]
fn delivery_keeps_arrival_order() {
    let mut c = established(Role::Initiator, ViolationPolicy::Ignore);
    let filter = MessageFilter::with_all_enabled();
    for i in 0..5u64 {
        c.receive(Message::Pong(Nonce::new(i)), &filter, &Vec::new());
    }
    c.receive(Message::MemPool, &filter, &Vec::new());
    assert_eq!(c.delivered_len(), 6);
    for i in 0..5u64 {
        match c.next_delivered() {
            Some(Message::Pong(n)) => assert_eq!(n.value(), i),
            other => panic!("expected pong {}, got {:?}", i, other),
        }
    }
    assert_eq!(c.next_delivered().map(|m| m.kind()), Some(Some(MessageKind::MemPool)));
}

#[test]
fn unknown_messages_take_the_disabled_path() {
    let mut c = established(Role::Initiator, ViolationPolicy::Ignore);
    let filter = MessageFilter::with_all_auto_reply();
    let r = c.receive(Message::Unknown { command: *b"sendcmpct\0\0\0", payload: vec![] }, &filter, &Vec::new());
    assert_eq!(r.action, Action::Deliver);
    assert!(r.reply.is_none());
    assert_eq!(c.delivered_len(), 1);
}

#[test]
fn auto_replies() {
    let peer = NetworkAddr { last_seen: Some(3), services: 1, ip: IpAddr::V4([1, 2, 3, 4]), port: 8233 };
    match auto_reply_to(&Message::GetAddr, &vec![peer]) {
        Some(Message::Addr(Addr(v))) => assert_eq!(v, vec![peer]),
        other => panic!("expected addresses, got {:?}", other),
    }
    let q = LocatorHashes::new(1, vec![Hash256::zeroed()], Hash256::zeroed());
    match auto_reply_to(&Message::GetHeaders(q.clone()), &Vec::new()) {
        Some(Message::Headers(Headers(v))) => assert!(v.is_empty()),
        other => panic!("expected headers, got {:?}", other),
    }
    match auto_reply_to(&Message::GetBlocks(q), &Vec::new()) {
        Some(Message::Inv(Inv(v))) => assert!(v.is_empty()),
        other => panic!("expected an inventory, got {:?}", other),
    }
    let want = Inv::new(vec![InvHash::new(ObjectKind::Tx, Hash256([4; 32]))]);
    match auto_reply_to(&Message::GetData(want), &Vec::new()) {
        Some(Message::NotFound(Inv(v))) => assert_eq!(v, vec![InvHash::new(ObjectKind::Tx, Hash256([4; 32]))]),
        other => panic!("expected not-found, got {:?}", other),
    }
    assert!(matches!(auto_reply_to(&dummy_version(), &Vec::new()), Some(Message::Verack)));
    assert!(auto_reply_to(&Message::MemPool, &Vec::new()).is_none());
}

#[test]
fn filter_overrides_one_kind() {
    let f = MessageFilter::with_all_auto_reply().with(MessageKind::GetAddr, FilterPolicy::Enabled);
    assert_eq!(f.policy(MessageKind::GetAddr), FilterPolicy::Enabled);
    assert_eq!(f.policy(MessageKind::Ping), FilterPolicy::AutoReply);
    let d = f.decide(&Message::GetAddr, &Vec::new());
    assert!(d.reply.is_none());
    assert!(d.forward);
    let d = f.decide(&Message::Inv(Inv::empty()), &Vec::new());
    assert!(d.reply.is_none());
    assert!(d.forward);
}

#[test]
fn auto_reply_can_also_surface() {
    let filter = MessageFilter::with_all_auto_reply().with_forwarding(MessageKind::Ping, true);
    assert!(filter.also_forward(MessageKind::Ping));
    assert!(!filter.also_forward(MessageKind::GetAddr));
    assert_eq!(filter.policy(MessageKind::Ping), FilterPolicy::AutoReply);
    let mut c = established(Role::Initiator, ViolationPolicy::Ignore);
    let r = c.receive(Message::Ping(Nonce::new(11)), &filter, &Vec::new());
    match r.reply {
        Some(Message::Pong(n)) => assert_eq!(n, Nonce::new(11)),
        other => panic!("expected a pong, got {:?}", other),
    }
    match c.next_delivered() {
        Some(Message::Ping(n)) => assert_eq!(n, Nonce::new(11)),
        other => panic!("expected the ping, got {:?}", other),
    }
    let r = c.receive(Message::GetAddr, &filter, &Vec::new());
    assert!(matches!(r.reply, Some(Message::Addr(_))));
    assert_eq!(c.delivered_len(), 0);
}
