//! The per-kind message filter: for each message kind, whether inbound
//! messages simply pass to test code, pass with bookkeeping, or are answered
//! automatically.

use vstd::prelude::*;
use crate::addr::{AddrModel, NetworkAddr};
use crate::inv::Inv;
use crate::message::{Message, MessageKind, MessageModel};
use crate::list::items_view;
use crate::payload::{Addr, Headers};

verus! {

/// What the filter does with messages of one kind.
#[derive(Debug, Clone, Copy, PartialEq, Eq, Structural)]
pub enum FilterPolicy {
    /// The message reaches test code unchanged; nothing else happens.
    Disabled,
    /// The message reaches test code; the filter may keep records of it.
    Enabled,
    /// The filter answers the message itself where the protocol prescribes
    /// an answer. A message it cannot answer reaches test code; one it
    /// answers does so only where the table says to surface that kind too.
    AutoReply,
}

/// The number of message kinds.
pub const KIND_COUNT: usize = 19;

/// The position of a kind in the policy table.
pub open spec fn kind_index(k: MessageKind) -> int {
    match k {
        MessageKind::Version => 0,
        MessageKind::Verack => 1,
        MessageKind::Ping => 2,
        MessageKind::Pong => 3,
        MessageKind::GetAddr => 4,
        MessageKind::Addr => 5,
        MessageKind::Inv => 6,
        MessageKind::GetData => 7,
        MessageKind::NotFound => 8,
        MessageKind::GetBlocks => 9,
        MessageKind::GetHeaders => 10,
        MessageKind::Block => 11,
        MessageKind::Headers => 12,
        MessageKind::Tx => 13,
        MessageKind::MemPool => 14,
        MessageKind::Reject => 15,
        MessageKind::FilterLoad => 16,
        MessageKind::FilterAdd => 17,
        MessageKind::FilterClear => 18,
    }
}

fn kind_slot(k: MessageKind) -> (r: usize)
    ensures
        r == kind_index(k),
        r < KIND_COUNT,
{
    match k {
        MessageKind::Version => 0,
        MessageKind::Verack => 1,
        MessageKind::Ping => 2,
        MessageKind::Pong => 3,
        MessageKind::GetAddr => 4,
        MessageKind::Addr => 5,
        MessageKind::Inv => 6,
        MessageKind::GetData => 7,
        MessageKind::NotFound => 8,
        MessageKind::GetBlocks => 9,
        MessageKind::GetHeaders => 10,
        MessageKind::Block => 11,
        MessageKind::Headers => 12,
        MessageKind::Tx => 13,
        MessageKind::MemPool => 14,
        MessageKind::Reject => 15,
        MessageKind::FilterLoad => 16,
        MessageKind::FilterAdd => 17,
        MessageKind::FilterClear => 18,
    }
}

/// Whether two kinds share a slot of the table only when they are the same.
pub proof fn lemma_kind_index_injective(a: MessageKind, b: MessageKind)
    ensures
        kind_index(a) == kind_index(b) ==> a == b,
        0 <= kind_index(a) < KIND_COUNT,
{
}

/// A policy for every message kind, and for each kind whether a message
/// answered automatically still reaches test code; fixed once built.
#[derive(Debug)]
pub struct MessageFilter {
    policies: Vec<FilterPolicy>,
    surfaced: Vec<bool>,
}

/// The answer the protocol prescribes for a message, if any: a pong with
/// the ping's nonce, the known addresses for an address request, a verack
/// for a version, empty answers to range queries, and "not found" for every
/// object asked for.
pub open spec fn auto_reply(m: MessageModel, peers: Seq<AddrModel>) -> Option<MessageModel> {
    match m {
        MessageModel::Ping(n) => Some(MessageModel::Pong(n)),
        MessageModel::GetAddr => Some(MessageModel::Addr(peers)),
        MessageModel::Version(_) => Some(MessageModel::Verack),
        MessageModel::GetHeaders(_) => Some(MessageModel::Headers(Seq::empty())),
        MessageModel::GetBlocks(_) => Some(MessageModel::Inv(Seq::empty())),
        MessageModel::GetData(i) => Some(MessageModel::NotFound(i)),
        _ => None,
    }
}

/// What a message seen through its view is, if there is one.
pub open spec fn reply_view(r: Option<Message>) -> Option<MessageModel> {
    match r {
        Some(m) => Some(m@),
        None => None,
    }
}

/// What the filter makes of one inbound message.
#[derive(Debug)]
pub struct FilterDecision {
    /// A message to send back to the peer at once.
    pub reply: Option<Message>,
    /// Whether the message goes on to test code.
    pub forward: bool,
}

impl MessageFilter {
    #[verifier::type_invariant]
    spec fn table_complete(&self) -> bool {
        self.policies@.len() == KIND_COUNT && self.surfaced@.len() == KIND_COUNT
    }

    /// The policy for messages of kind `k`.
    pub closed spec fn spec_policy(&self, k: MessageKind) -> FilterPolicy {
        self.policies@[kind_index(k)]
    }

    /// Whether a message of kind `k` that is answered automatically still
    /// reaches test code.
    pub closed spec fn spec_also_forward(&self, k: MessageKind) -> bool {
        self.surfaced@[kind_index(k)]
    }

    /// Whether an automatically answered message reaches test code.
    pub open spec fn also_forward_for(&self, m: MessageModel) -> bool {
        match m.kind() {
            Some(k) => self.spec_also_forward(k),
            None => false,
        }
    }

    /// The policy applied to a message: its kind's, and `Disabled` for a
    /// command no kind has.
    pub open spec fn policy_for(&self, m: MessageModel) -> FilterPolicy {
        match m.kind() {
            Some(k) => self.spec_policy(k),
            None => FilterPolicy::Disabled,
        }
    }

    /// A table with the same policy for every kind, where no automatically
    /// answered message reaches test code.
    pub fn uniform(policy: FilterPolicy) -> (r: MessageFilter)
        ensures
            forall|k: MessageKind| r.spec_policy(k) == policy,
            forall|k: MessageKind| !r.spec_also_forward(k),
    {
        let mut policies: Vec<FilterPolicy> = Vec::new();
        let mut surfaced: Vec<bool> = Vec::new();
        let mut i: usize = 0;
        while i < KIND_COUNT
            invariant
                0 <= i <= KIND_COUNT,
                policies@.len() == i,
                surfaced@.len() == i,
                forall|j: int| 0 <= j < i ==> policies@[j] == policy,
                forall|j: int| 0 <= j < i ==> !surfaced@[j],
            decreases KIND_COUNT - i,
        {
            policies.push(policy);
            surfaced.push(false);
            i = i + 1;
        }
        let r = MessageFilter { policies, surfaced };
        assert forall|k: MessageKind| r.spec_policy(k) == policy && !r.spec_also_forward(k) by {
            lemma_kind_index_injective(k, k);
        }
        r
    }

    /// Every kind `Disabled`: all messages reach test code untouched.
    pub fn new() -> (r: MessageFilter)
        ensures
            forall|k: MessageKind| r.spec_policy(k) == FilterPolicy::Disabled,
            forall|k: MessageKind| !r.spec_also_forward(k),
    {
        MessageFilter::uniform(FilterPolicy::Disabled)
    }

    /// Every kind `Enabled`.
    pub fn with_all_enabled() -> (r: MessageFilter)
        ensures
            forall|k: MessageKind| r.spec_policy(k) == FilterPolicy::Enabled,
            forall|k: MessageKind| !r.spec_also_forward(k),
    {
        MessageFilter::uniform(FilterPolicy::Enabled)
    }

    /// Every kind `AutoReply`.
    pub fn with_all_auto_reply() -> (r: MessageFilter)
        ensures
            forall|k: MessageKind| r.spec_policy(k) == FilterPolicy::AutoReply,
            forall|k: MessageKind| !r.spec_also_forward(k),
    {
        MessageFilter::uniform(FilterPolicy::AutoReply)
    }

    /// The same table with the policy for `kind` replaced.
    pub fn with(self, kind: MessageKind, policy: FilterPolicy) -> (r: MessageFilter)
        ensures
            r.spec_policy(kind) == policy,
            forall|k: MessageKind| k != kind ==> r.spec_policy(k) == self.spec_policy(k),
            forall|k: MessageKind| r.spec_also_forward(k) == self.spec_also_forward(k),
    {
        proof {
            use_type_invariant(&self);
        }
        let mut policies = self.policies;
        let i = kind_slot(kind);
        policies.set(i, policy);
        let r = MessageFilter { policies, surfaced: self.surfaced };
        assert forall|k: MessageKind| k != kind implies r.spec_policy(k) == self.spec_policy(k) by {
            lemma_kind_index_injective(k, kind);
        }
        r
    }

    /// The same table with the choice for `kind` replaced: whether a message
    /// of that kind that is answered automatically still reaches test code.
    pub fn with_forwarding(self, kind: MessageKind, surface: bool) -> (r: MessageFilter)
        ensures
            r.spec_also_forward(kind) == surface,
            forall|k: MessageKind| k != kind ==> r.spec_also_forward(k) == self.spec_also_forward(k),
            forall|k: MessageKind| r.spec_policy(k) == self.spec_policy(k),
    {
        proof {
            use_type_invariant(&self);
        }
        let mut surfaced = self.surfaced;
        let i = kind_slot(kind);
        surfaced.set(i, surface);
        let r = MessageFilter { policies: self.policies, surfaced };
        assert forall|k: MessageKind| k != kind implies r.spec_also_forward(k) == self.spec_also_forward(k) by {
            lemma_kind_index_injective(k, kind);
        }
        r
    }

    /// Whether a message of kind `kind` that is answered automatically still
    /// reaches test code.
    pub fn also_forward(&self, kind: MessageKind) -> (r: bool)
        ensures
            r == self.spec_also_forward(kind),
    {
        proof {
            use_type_invariant(self);
        }
        self.surfaced[kind_slot(kind)]
    }

    /// The policy for messages of kind `kind`.
    pub fn policy(&self, kind: MessageKind) -> (r: FilterPolicy)
        ensures
            r == self.spec_policy(kind),
    {
        proof {
            use_type_invariant(self);
        }
        self.policies[kind_slot(kind)]
    }

    /// Decides what happens to an inbound message. Under `AutoReply` the
    /// prescribed answer is produced, and the message reaches test code when
    /// there is none or when its kind is marked to surface too; otherwise the
    /// message reaches test code and nothing is sent. `known_peers` answers
    /// address requests.
    pub fn decide(&self, msg: &Message, known_peers: &Vec<NetworkAddr>) -> (r: FilterDecision)
        ensures
            self.policy_for(msg@) == FilterPolicy::AutoReply ==> {
                &&& reply_view(r.reply) == auto_reply(msg@, items_view(known_peers@))
                &&& r.forward == (auto_reply(msg@, items_view(known_peers@)) is None || self.also_forward_for(msg@))
            },
            self.policy_for(msg@) != FilterPolicy::AutoReply ==> r.reply is None && r.forward,
    {
        let (policy, surface) = match msg.kind() {
            Some(k) => (self.policy(k), self.also_forward(k)),
            None => (FilterPolicy::Disabled, false),
        };
        match policy {
            FilterPolicy::AutoReply => {
                let reply = auto_reply_to(msg, known_peers);
                let forward = reply.is_none() || surface;
                FilterDecision { reply, forward }
            },
            _ => FilterDecision { reply: None, forward: true },
        }
    }
}

/// The answer the protocol prescribes for `msg`, if any.
pub fn auto_reply_to(msg: &Message, known_peers: &Vec<NetworkAddr>) -> (r: Option<Message>)
    ensures
        reply_view(r) == auto_reply(msg@, items_view(known_peers@)),
{
    match msg {
        Message::Ping(n) => Some(Message::Pong(*n)),
        Message::GetAddr => {
            let peers = vstd::slice::slice_to_vec(known_peers.as_slice());
            Some(Message::Addr(Addr(peers)))
        },
        Message::Version(_) => Some(Message::Verack),
        Message::GetHeaders(_) => {
            let h = Headers::empty();
            assert(h@ =~= Seq::empty());
            Some(Message::Headers(h))
        },
        Message::GetBlocks(_) => {
            let i = Inv::empty();
            assert(i@ =~= Seq::empty());
            Some(Message::Inv(i))
        },
        Message::GetData(inv) => {
            let entries = vstd::slice::slice_to_vec(inv.0.as_slice());
            Some(Message::NotFound(Inv(entries)))
        },
        _ => None,
    }
}

} // verus!
