//! One emulated peer endpoint: its handshake state, the filter's decisions
//! on what arrives, and the queue of messages for test code. The transport
//! itself is driven from outside; it reports events here and carries out the
//! actions that come back.

use vstd::prelude::*;
use crate::addr::NetworkAddr;
use crate::filter::{auto_reply, reply_view, FilterPolicy, MessageFilter};
use crate::handshake::{next, step, Action, ConnState, Event, Role, ViolationPolicy};
use crate::list::items_view;
use crate::message::{Message, MessageKind, MessageModel};

verus! {

/// What the driver of a connection must do after a message arrived.
#[derive(Debug)]
pub struct Reaction {
    /// The handshake's instruction.
    pub action: Action,
    /// A message the filter answered with, to be sent at once.
    pub reply: Option<Message>,
}

/// A connection of the emulated peer.
#[derive(Debug)]
pub struct Connection {
    role: Role,
    policy: ViolationPolicy,
    state: ConnState,
    delivered: Vec<Message>,
}

/// The filter's reply to a message that the handshake lets through.
pub open spec fn filter_reply(
    filter: &MessageFilter,
    m: MessageModel,
    peers: Seq<crate::addr::AddrModel>,
) -> Option<MessageModel> {
    if filter.policy_for(m) == FilterPolicy::AutoReply {
        auto_reply(m, peers)
    } else {
        None
    }
}

/// Whether the filter lets a message through to test code.
pub open spec fn filter_forwards(filter: &MessageFilter, m: MessageModel, peers: Seq<crate::addr::AddrModel>) -> bool {
    filter.policy_for(m) != FilterPolicy::AutoReply || auto_reply(m, peers) is None || filter.also_forward_for(m)
}

impl Connection {
    pub closed spec fn spec_role(&self) -> Role {
        self.role
    }

    pub closed spec fn spec_policy(&self) -> ViolationPolicy {
        self.policy
    }

    pub closed spec fn spec_state(&self) -> ConnState {
        self.state
    }

    /// The messages waiting for test code, oldest first.
    pub closed spec fn spec_delivered(&self) -> Seq<MessageModel> {
        items_view(self.delivered@)
    }

    pub fn new(role: Role, policy: ViolationPolicy) -> (r: Connection)
        ensures
            r.spec_role() == role,
            r.spec_policy() == policy,
            r.spec_state() == ConnState::Connecting,
            r.spec_delivered().len() == 0,
    {
        Connection { role, policy, state: ConnState::Connecting, delivered: Vec::new() }
    }

    pub fn state(&self) -> (r: ConnState)
        ensures
            r == self.spec_state(),
    {
        self.state
    }

    pub fn role(&self) -> (r: Role)
        ensures
            r == self.spec_role(),
    {
        self.role
    }

    /// Takes an event in and moves the handshake on; what waits for test
    /// code is not touched.
    pub fn handle(&mut self, event: Event) -> (r: Action)
        ensures
            (final(self).spec_state(), r) == next(old(self).spec_role(), old(self).spec_policy(), old(self).spec_state(), event),
            final(self).spec_role() == old(self).spec_role(),
            final(self).spec_policy() == old(self).spec_policy(),
            final(self).spec_delivered() == old(self).spec_delivered(),
    {
        let (s, a) = step(self.role, self.policy, self.state, event);
        self.state = s;
        a
    }

    /// Takes a decoded message in. The handshake decides first; a message it
    /// lets through goes to the filter, which may answer it and decides
    /// whether it joins the queue for test code.
    pub fn receive(&mut self, msg: Message, filter: &MessageFilter, known_peers: &Vec<NetworkAddr>) -> (r: Reaction)
        ensures
            ({
                let (s, a) = next(
                    old(self).spec_role(),
                    old(self).spec_policy(),
                    old(self).spec_state(),
                    Event::Received(msg@.kind()),
                );
                let peers = items_view(known_peers@);
                &&& final(self).spec_state() == s
                &&& r.action == a
                &&& a == Action::Deliver ==> reply_view(r.reply) == filter_reply(filter, msg@, peers)
                &&& a == Action::Deliver ==> final(self).spec_delivered() == if filter_forwards(filter, msg@, peers) {
                    old(self).spec_delivered().push(msg@)
                } else {
                    old(self).spec_delivered()
                }
                &&& a != Action::Deliver ==> r.reply is None && final(self).spec_delivered() == old(self).spec_delivered()
            }),
            final(self).spec_role() == old(self).spec_role(),
            final(self).spec_policy() == old(self).spec_policy(),
    {
        let (s, a) = step(self.role, self.policy, self.state, Event::Received(msg.kind()));
        self.state = s;
        match a {
            Action::Deliver => {
                let d = filter.decide(&msg, known_peers);
                if d.forward {
                    let ghost before = items_view(self.delivered@);
                    self.delivered.push(msg);
                    assert(items_view(self.delivered@) =~= before.push(msg@));
                }
                Reaction { action: a, reply: d.reply }
            },
            _ => Reaction { action: a, reply: None },
        }
    }

    /// The oldest message waiting for test code, taken off the queue.
    pub fn next_delivered(&mut self) -> (r: Option<Message>)
        ensures
            old(self).spec_delivered().len() == 0 ==> r is None && final(self).spec_delivered() == old(self).spec_delivered(),
            old(self).spec_delivered().len() > 0 ==> r is Some && r->Some_0@ == old(self).spec_delivered()[0]
                && final(self).spec_delivered() == old(self).spec_delivered().drop_first(),
            final(self).spec_state() == old(self).spec_state(),
            final(self).spec_role() == old(self).spec_role(),
            final(self).spec_policy() == old(self).spec_policy(),
    {
        if self.delivered.len() == 0 {
            None
        } else {
            let ghost before = self.delivered@;
            let m = self.delivered.remove(0);
            assert(items_view(self.delivered@) =~= items_view(before).drop_first());
            Some(m)
        }
    }

    /// How many messages wait for test code.
    pub fn delivered_len(&self) -> (r: usize)
        ensures
            r == self.spec_delivered().len(),
    {
        self.delivered.len()
    }

    /// Closes the connection and drops what waits in its queue; closing
    /// again changes nothing.
    pub fn shutdown(&mut self) -> (r: Action)
        ensures
            final(self).spec_state() == ConnState::Closed,
            final(self).spec_delivered().len() == 0,
            r == next(old(self).spec_role(), old(self).spec_policy(), old(self).spec_state(), Event::Shutdown).1,
            final(self).spec_role() == old(self).spec_role(),
            final(self).spec_policy() == old(self).spec_policy(),
    {
        let (s, a) = step(self.role, self.policy, self.state, Event::Shutdown);
        self.state = s;
        self.delivered = Vec::new();
        a
    }
}

/// On an established connection a ping passes the handshake to the filter.
/// Under `AutoReply` for pings the answer is a pong with the ping's nonce,
/// and the ping reaches test code exactly when pings are marked to surface;
/// under `Disabled` nothing is sent back and the ping reaches test code.
pub proof fn lemma_ping_policy(
    filter: &MessageFilter,
    nonce: u64,
    peers: Seq<crate::addr::AddrModel>,
    role: Role,
    policy: ViolationPolicy,
)
    ensures
        next(role, policy, ConnState::Established, Event::Received(Some(MessageKind::Ping))) == (
            ConnState::Established,
            Action::Deliver,
        ),
        filter.spec_policy(MessageKind::Ping) == FilterPolicy::AutoReply ==> filter_reply(
            filter,
            MessageModel::Ping(nonce),
            peers,
        ) == Some(MessageModel::Pong(nonce)) && (filter_forwards(filter, MessageModel::Ping(nonce), peers)
            == filter.spec_also_forward(MessageKind::Ping)),
        filter.spec_policy(MessageKind::Ping) == FilterPolicy::Disabled ==> filter_reply(
            filter,
            MessageModel::Ping(nonce),
            peers,
        ) is None && filter_forwards(filter, MessageModel::Ping(nonce), peers),
{
}

} // verus!
