//! Inventory: typed references to blocks and transactions, and lists of them.

use vstd::bytes::*;
use vstd::prelude::*;
use crate::codec::{agrees, put_u32, read_u32, DecodeError, Hash256};
use crate::list::{encode_list, items_view, lemma_list_round_trip, parse_list, put_list, read_list, Wire};

verus! {

/// The kind of object an inventory entry refers to.
#[derive(Debug, Clone, Copy, PartialEq, Eq, Structural)]
pub enum ObjectKind {
    Error,
    Tx,
    Block,
    FilteredBlock,
}

pub open spec fn kind_code(k: ObjectKind) -> u32 {
    match k {
        ObjectKind::Error => 0,
        ObjectKind::Tx => 1,
        ObjectKind::Block => 2,
        ObjectKind::FilteredBlock => 3,
    }
}

pub open spec fn kind_of_code(c: u32) -> ObjectKind
    recommends
        c <= 3,
{
    if c == 0 {
        ObjectKind::Error
    } else if c == 1 {
        ObjectKind::Tx
    } else if c == 2 {
        ObjectKind::Block
    } else {
        ObjectKind::FilteredBlock
    }
}

/// A typed reference to an object: its kind and its hash.
#[derive(Debug, Clone, Copy, PartialEq, Eq)]
pub struct InvHash {
    pub kind: ObjectKind,
    pub hash: Hash256,
}

pub struct InvHashModel {
    pub kind: ObjectKind,
    pub hash: Seq<u8>,
}

impl View for InvHash {
    type V = InvHashModel;

    open spec fn view(&self) -> InvHashModel {
        InvHashModel { kind: self.kind, hash: self.hash@ }
    }
}

impl InvHashModel {
    pub open spec fn wf(self) -> bool {
        self.hash.len() == 32
    }
}

/// Kind as a little-endian `u32`, then the 32 hash bytes.
pub open spec fn inv_hash_bytes(h: InvHashModel) -> Seq<u8> {
    spec_u32_to_le_bytes(kind_code(h.kind)) + h.hash
}

pub open spec fn parse_inv_hash(s: Seq<u8>) -> Result<(InvHashModel, nat), DecodeError> {
    if s.len() < 36 {
        Err(DecodeError::UnexpectedEnd)
    } else if spec_u32_from_le_bytes(s.subrange(0, 4)) > 3 {
        Err(DecodeError::InvalidInvKind(spec_u32_from_le_bytes(s.subrange(0, 4))))
    } else {
        Ok((
            InvHashModel {
                kind: kind_of_code(spec_u32_from_le_bytes(s.subrange(0, 4))),
                hash: s.subrange(4, 36),
            },
            36,
        ))
    }
}

pub open spec fn inv_hash_encoder() -> spec_fn(InvHashModel) -> Seq<u8> {
    |h: InvHashModel| inv_hash_bytes(h)
}

pub open spec fn inv_hash_parser() -> spec_fn(Seq<u8>) -> Result<(InvHashModel, nat), DecodeError> {
    |s: Seq<u8>| parse_inv_hash(s)
}

impl InvHash {
    pub fn new(kind: ObjectKind, hash: Hash256) -> (r: InvHash)
        ensures
            r.kind == kind,
            r.hash == hash,
    {
        InvHash { kind, hash }
    }

    pub fn encode(&self, buf: &mut Vec<u8>)
        ensures
            final(buf)@ == old(buf)@ + inv_hash_bytes(self@),
    {
        let code: u32 = match self.kind {
            ObjectKind::Error => 0,
            ObjectKind::Tx => 1,
            ObjectKind::Block => 2,
            ObjectKind::FilteredBlock => 3,
        };
        put_u32(buf, code);
        self.hash.encode(buf);
        assert(buf@ =~= old(buf)@ + inv_hash_bytes(self@));
    }

    pub fn decode(bytes: &[u8]) -> (r: Result<(InvHash, usize), DecodeError>)
        ensures
            agrees(r, parse_inv_hash(bytes@)),
    {
        if bytes.len() < 36 {
            return Err(DecodeError::UnexpectedEnd);
        }
        let (code, _) = read_u32(bytes)?;
        if code > 3 {
            return Err(DecodeError::InvalidInvKind(code));
        }
        let kind = if code == 0 {
            ObjectKind::Error
        } else if code == 1 {
            ObjectKind::Tx
        } else if code == 2 {
            ObjectKind::Block
        } else {
            ObjectKind::FilteredBlock
        };
        let (hash, _) = Hash256::decode(&bytes[4..36])?;
        assert(hash@ =~= bytes@.subrange(4, 36));
        assert(kind == kind_of_code(code));
        Ok((InvHash { kind, hash }, 36))
    }
}

pub proof fn lemma_inv_hash_round_trip(h: InvHashModel, rest: Seq<u8>)
    requires
        h.wf(),
    ensures
        parse_inv_hash(inv_hash_bytes(h) + rest) == Ok::<(InvHashModel, nat), DecodeError>((h, 36)),
{
    lemma_auto_spec_u32_to_from_le_bytes();
    let s = inv_hash_bytes(h) + rest;
    assert(s.subrange(0, 4) =~= spec_u32_to_le_bytes(kind_code(h.kind)));
    assert(s.subrange(4, 36) =~= h.hash);
}

/// An ordered list of inventory entries; entries of different kinds may mix.
#[derive(Debug, Clone)]
pub struct Inv(pub Vec<InvHash>);

impl View for Inv {
    type V = Seq<InvHashModel>;

    open spec fn view(&self) -> Seq<InvHashModel> {
        items_view(self.0@)
    }
}

pub open spec fn inv_bytes(v: Seq<InvHashModel>) -> Seq<u8> {
    encode_list(inv_hash_encoder(), v)
}

pub open spec fn parse_inv(s: Seq<u8>) -> Result<(Seq<InvHashModel>, nat), DecodeError> {
    parse_list(inv_hash_parser(), s)
}

pub open spec fn inv_wf(v: Seq<InvHashModel>) -> bool {
    v.len() <= u64::MAX && forall|i: int| 0 <= i < v.len() ==> #[trigger] v[i].wf()
}

impl Inv {
    pub fn new(entries: Vec<InvHash>) -> (r: Inv)
        ensures
            r.0@ == entries@,
    {
        Inv(entries)
    }

    pub fn empty() -> (r: Inv)
        ensures
            r@.len() == 0,
    {
        Inv(Vec::new())
    }

    pub fn encode(&self, buf: &mut Vec<u8>)
        ensures
            final(buf)@ == old(buf)@ + inv_bytes(self@),
    {
        put_list(buf, &self.0);
    }

    pub fn decode(bytes: &[u8]) -> (r: Result<(Inv, usize), DecodeError>)
        ensures
            agrees(r, parse_inv(bytes@)),
    {
        let (v, n) = read_list::<InvHash>(bytes)?;
        Ok((Inv(v), n))
    }
}

impl Wire for InvHash {
    open spec fn parser() -> spec_fn(Seq<u8>) -> Result<(InvHashModel, nat), DecodeError> {
        inv_hash_parser()
    }

    open spec fn encoder() -> spec_fn(InvHashModel) -> Seq<u8> {
        inv_hash_encoder()
    }

    fn encode_item(&self, buf: &mut Vec<u8>) {
        self.encode(buf);
    }

    fn decode_item(bytes: &[u8]) -> (r: Result<(InvHash, usize), DecodeError>) {
        InvHash::decode(bytes)
    }
}

pub proof fn lemma_inv_round_trip(v: Seq<InvHashModel>, rest: Seq<u8>)
    requires
        inv_wf(v),
    ensures
        parse_inv(inv_bytes(v) + rest) == Ok::<(Seq<InvHashModel>, nat), DecodeError>((v, inv_bytes(v).len())),
{
    assert forall|i: int, r: Seq<u8>| 0 <= i < v.len() implies #[trigger] inv_hash_parser()(
        inv_hash_encoder()(v[i]) + r,
    ) == Ok::<(InvHashModel, nat), DecodeError>((v[i], inv_hash_encoder()(v[i]).len())) by {
        lemma_inv_hash_round_trip(v[i], r);
        lemma_auto_spec_u32_to_from_le_bytes();
        assert(inv_hash_encoder()(v[i]) == inv_hash_bytes(v[i]));
        assert(inv_hash_parser()(inv_hash_bytes(v[i]) + r) == parse_inv_hash(inv_hash_bytes(v[i]) + r));
    }
    lemma_list_round_trip(inv_hash_parser(), inv_hash_encoder(), v, rest);
}

} // verus!
