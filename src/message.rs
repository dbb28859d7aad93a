//! The message envelope: network magic, command name, payload length and
//! checksum around one payload, and the tagged union of all payloads.

use vstd::bytes::*;
use vstd::prelude::*;
use crate::addr::AddrModel;
use crate::codec::{agrees, lemma_var_bytes_round_trip, parse_var_bytes, put_slice, put_u32, put_u64, var_bytes, DecodeError, Nonce};
use crate::external::{array_from_slice, sha256, sha256_of};
use crate::inv::{inv_bytes, inv_wf, lemma_inv_round_trip, parse_inv, Inv, InvHashModel};
use crate::payload::{
    addr_list_bytes, addr_list_wf, block_bytes, filter_load_bytes, headers_bytes, headers_wf,
    lemma_addr_list_round_trip, lemma_block_round_trip, lemma_filter_load_round_trip,
    lemma_headers_round_trip, lemma_locator_round_trip, locator_bytes, parse_addr_list, parse_block,
    parse_filter_load, parse_headers, parse_locator, Addr, Block, BlockModel, FilterAdd, FilterLoad,
    FilterLoadModel, HeaderModel, Headers, LocatorHashes, LocatorModel,
};
use crate::reject::{lemma_reject_round_trip, parse_reject, reject_bytes, Reject, RejectModel};
use crate::version::{lemma_version_round_trip, parse_version, version_bytes, Version, VersionModel};

verus! {

/// The kinds of message this library knows, one per command name.
#[derive(Debug, Clone, Copy, PartialEq, Eq, Structural)]
pub enum MessageKind {
    Version,
    Verack,
    Ping,
    Pong,
    GetAddr,
    Addr,
    Inv,
    GetData,
    NotFound,
    GetBlocks,
    GetHeaders,
    Block,
    Headers,
    Tx,
    MemPool,
    Reject,
    FilterLoad,
    FilterAdd,
    FilterClear,
}

/// A command name's twelve NUL-padded ASCII bytes, read as a little-endian
/// `u64` and a little-endian `u32`.
pub open spec fn spec_command_code(k: MessageKind) -> (u64, u32) {
    match k {
        MessageKind::Version => (0x6e6f6973726576, 0x0),
        MessageKind::Verack => (0x6b6361726576, 0x0),
        MessageKind::Ping => (0x676e6970, 0x0),
        MessageKind::Pong => (0x676e6f70, 0x0),
        MessageKind::GetAddr => (0x72646461746567, 0x0),
        MessageKind::Addr => (0x72646461, 0x0),
        MessageKind::Inv => (0x766e69, 0x0),
        MessageKind::GetData => (0x61746164746567, 0x0),
        MessageKind::NotFound => (0x646e756f66746f6e, 0x0),
        MessageKind::GetBlocks => (0x6b636f6c62746567, 0x73),
        MessageKind::GetHeaders => (0x6564616568746567, 0x7372),
        MessageKind::Block => (0x6b636f6c62, 0x0),
        MessageKind::Headers => (0x73726564616568, 0x0),
        MessageKind::Tx => (0x7874, 0x0),
        MessageKind::MemPool => (0x6c6f6f706d656d, 0x0),
        MessageKind::Reject => (0x7463656a6572, 0x0),
        MessageKind::FilterLoad => (0x6f6c7265746c6966, 0x6461),
        MessageKind::FilterAdd => (0x64617265746c6966, 0x64),
        MessageKind::FilterClear => (0x6c637265746c6966, 0x726165),
    }
}

/// The kind whose command name has the given code, if any.
pub open spec fn spec_kind_of_code(lo: u64, hi: u32) -> Option<MessageKind> {
    if lo == 0x6e6f6973726576 && hi == 0x0 {
        Some(MessageKind::Version)
    } else if lo == 0x6b6361726576 && hi == 0x0 {
        Some(MessageKind::Verack)
    } else if lo == 0x676e6970 && hi == 0x0 {
        Some(MessageKind::Ping)
    } else if lo == 0x676e6f70 && hi == 0x0 {
        Some(MessageKind::Pong)
    } else if lo == 0x72646461746567 && hi == 0x0 {
        Some(MessageKind::GetAddr)
    } else if lo == 0x72646461 && hi == 0x0 {
        Some(MessageKind::Addr)
    } else if lo == 0x766e69 && hi == 0x0 {
        Some(MessageKind::Inv)
    } else if lo == 0x61746164746567 && hi == 0x0 {
        Some(MessageKind::GetData)
    } else if lo == 0x646e756f66746f6e && hi == 0x0 {
        Some(MessageKind::NotFound)
    } else if lo == 0x6b636f6c62746567 && hi == 0x73 {
        Some(MessageKind::GetBlocks)
    } else if lo == 0x6564616568746567 && hi == 0x7372 {
        Some(MessageKind::GetHeaders)
    } else if lo == 0x6b636f6c62 && hi == 0x0 {
        Some(MessageKind::Block)
    } else if lo == 0x73726564616568 && hi == 0x0 {
        Some(MessageKind::Headers)
    } else if lo == 0x7874 && hi == 0x0 {
        Some(MessageKind::Tx)
    } else if lo == 0x6c6f6f706d656d && hi == 0x0 {
        Some(MessageKind::MemPool)
    } else if lo == 0x7463656a6572 && hi == 0x0 {
        Some(MessageKind::Reject)
    } else if lo == 0x6f6c7265746c6966 && hi == 0x6461 {
        Some(MessageKind::FilterLoad)
    } else if lo == 0x64617265746c6966 && hi == 0x64 {
        Some(MessageKind::FilterAdd)
    } else if lo == 0x6c637265746c6966 && hi == 0x726165 {
        Some(MessageKind::FilterClear)
    } else {
        None
    }
}

pub fn command_code(k: MessageKind) -> (r: (u64, u32))
    ensures
        r == spec_command_code(k),
{
    match k {
            MessageKind::Version => (0x6e6f6973726576, 0x0),
            MessageKind::Verack => (0x6b6361726576, 0x0),
            MessageKind::Ping => (0x676e6970, 0x0),
            MessageKind::Pong => (0x676e6f70, 0x0),
            MessageKind::GetAddr => (0x72646461746567, 0x0),
            MessageKind::Addr => (0x72646461, 0x0),
            MessageKind::Inv => (0x766e69, 0x0),
            MessageKind::GetData => (0x61746164746567, 0x0),
            MessageKind::NotFound => (0x646e756f66746f6e, 0x0),
            MessageKind::GetBlocks => (0x6b636f6c62746567, 0x73),
            MessageKind::GetHeaders => (0x6564616568746567, 0x7372),
            MessageKind::Block => (0x6b636f6c62, 0x0),
            MessageKind::Headers => (0x73726564616568, 0x0),
            MessageKind::Tx => (0x7874, 0x0),
            MessageKind::MemPool => (0x6c6f6f706d656d, 0x0),
            MessageKind::Reject => (0x7463656a6572, 0x0),
            MessageKind::FilterLoad => (0x6f6c7265746c6966, 0x6461),
            MessageKind::FilterAdd => (0x64617265746c6966, 0x64),
            MessageKind::FilterClear => (0x6c637265746c6966, 0x726165),
    }
}

pub fn kind_of_code(lo: u64, hi: u32) -> (r: Option<MessageKind>)
    ensures
        r == spec_kind_of_code(lo, hi),
{
        if lo == 0x6e6f6973726576 && hi == 0x0 {
            Some(MessageKind::Version)
        } else if lo == 0x6b6361726576 && hi == 0x0 {
            Some(MessageKind::Verack)
        } else if lo == 0x676e6970 && hi == 0x0 {
            Some(MessageKind::Ping)
        } else if lo == 0x676e6f70 && hi == 0x0 {
            Some(MessageKind::Pong)
        } else if lo == 0x72646461746567 && hi == 0x0 {
            Some(MessageKind::GetAddr)
        } else if lo == 0x72646461 && hi == 0x0 {
            Some(MessageKind::Addr)
        } else if lo == 0x766e69 && hi == 0x0 {
            Some(MessageKind::Inv)
        } else if lo == 0x61746164746567 && hi == 0x0 {
            Some(MessageKind::GetData)
        } else if lo == 0x646e756f66746f6e && hi == 0x0 {
            Some(MessageKind::NotFound)
        } else if lo == 0x6b636f6c62746567 && hi == 0x73 {
            Some(MessageKind::GetBlocks)
        } else if lo == 0x6564616568746567 && hi == 0x7372 {
            Some(MessageKind::GetHeaders)
        } else if lo == 0x6b636f6c62 && hi == 0x0 {
            Some(MessageKind::Block)
        } else if lo == 0x73726564616568 && hi == 0x0 {
            Some(MessageKind::Headers)
        } else if lo == 0x7874 && hi == 0x0 {
            Some(MessageKind::Tx)
        } else if lo == 0x6c6f6f706d656d && hi == 0x0 {
            Some(MessageKind::MemPool)
        } else if lo == 0x7463656a6572 && hi == 0x0 {
            Some(MessageKind::Reject)
        } else if lo == 0x6f6c7265746c6966 && hi == 0x6461 {
            Some(MessageKind::FilterLoad)
        } else if lo == 0x64617265746c6966 && hi == 0x64 {
            Some(MessageKind::FilterAdd)
        } else if lo == 0x6c637265746c6966 && hi == 0x726165 {
            Some(MessageKind::FilterClear)
        } else {
            None
        }
}

/// Each kind is found again from its command name's code.
pub proof fn lemma_kind_of_code(k: MessageKind)
    ensures
        spec_kind_of_code(spec_command_code(k).0, spec_command_code(k).1) == Some(k),
{
}

/// A protocol message: exactly one payload kind, or a well-framed message
/// whose command this library does not know.
#[derive(Debug, Clone)]
pub enum Message {
    Version(Version),
    Verack,
    Ping(Nonce),
    Pong(Nonce),
    GetAddr,
    Addr(Addr),
    Inv(Inv),
    GetData(Inv),
    NotFound(Inv),
    GetBlocks(LocatorHashes),
    GetHeaders(LocatorHashes),
    Block(Block),
    Headers(Headers),
    /// A transaction, carried as its wire bytes.
    Tx(Vec<u8>),
    MemPool,
    Reject(Reject),
    FilterLoad(FilterLoad),
    FilterAdd(FilterAdd),
    FilterClear,
    /// A command name that no kind has, with its raw payload.
    Unknown { command: [u8; 12], payload: Vec<u8> },
}

pub enum MessageModel {
    Version(VersionModel),
    Verack,
    Ping(u64),
    Pong(u64),
    GetAddr,
    Addr(Seq<AddrModel>),
    Inv(Seq<InvHashModel>),
    GetData(Seq<InvHashModel>),
    NotFound(Seq<InvHashModel>),
    GetBlocks(LocatorModel),
    GetHeaders(LocatorModel),
    Block(BlockModel),
    Headers(Seq<HeaderModel>),
    Tx(Seq<u8>),
    MemPool,
    Reject(RejectModel),
    FilterLoad(FilterLoadModel),
    FilterAdd(Seq<u8>),
    FilterClear,
    Unknown { command: Seq<u8>, payload: Seq<u8> },
}

impl View for Message {
    type V = MessageModel;

    open spec fn view(&self) -> MessageModel {
        match self {
            Message::Version(v) => MessageModel::Version(v@),
            Message::Verack => MessageModel::Verack,
            Message::Ping(n) => MessageModel::Ping(n@),
            Message::Pong(n) => MessageModel::Pong(n@),
            Message::GetAddr => MessageModel::GetAddr,
            Message::Addr(a) => MessageModel::Addr(a@),
            Message::Inv(i) => MessageModel::Inv(i@),
            Message::GetData(i) => MessageModel::GetData(i@),
            Message::NotFound(i) => MessageModel::NotFound(i@),
            Message::GetBlocks(l) => MessageModel::GetBlocks(l@),
            Message::GetHeaders(l) => MessageModel::GetHeaders(l@),
            Message::Block(b) => MessageModel::Block(b@),
            Message::Headers(h) => MessageModel::Headers(h@),
            Message::Tx(t) => MessageModel::Tx(t@),
            Message::MemPool => MessageModel::MemPool,
            Message::Reject(r) => MessageModel::Reject(r@),
            Message::FilterLoad(f) => MessageModel::FilterLoad(f@),
            Message::FilterAdd(f) => MessageModel::FilterAdd(f@),
            Message::FilterClear => MessageModel::FilterClear,
            Message::Unknown { command, payload } => MessageModel::Unknown { command: command@, payload: payload@ },
        }
    }
}

/// The twelve command bytes of a known kind.
pub open spec fn command_bytes(k: MessageKind) -> Seq<u8> {
    spec_u64_to_le_bytes(spec_command_code(k).0) + spec_u32_to_le_bytes(spec_command_code(k).1)
}

/// The kind that twelve command bytes name, if any.
pub open spec fn kind_of_command(c: Seq<u8>) -> Option<MessageKind> {
    spec_kind_of_code(spec_u64_from_le_bytes(c.subrange(0, 8)), spec_u32_from_le_bytes(c.subrange(8, 12)))
}

impl MessageModel {
    pub open spec fn kind(self) -> Option<MessageKind> {
        match self {
            MessageModel::Version(_) => Some(MessageKind::Version),
            MessageModel::Verack => Some(MessageKind::Verack),
            MessageModel::Ping(_) => Some(MessageKind::Ping),
            MessageModel::Pong(_) => Some(MessageKind::Pong),
            MessageModel::GetAddr => Some(MessageKind::GetAddr),
            MessageModel::Addr(_) => Some(MessageKind::Addr),
            MessageModel::Inv(_) => Some(MessageKind::Inv),
            MessageModel::GetData(_) => Some(MessageKind::GetData),
            MessageModel::NotFound(_) => Some(MessageKind::NotFound),
            MessageModel::GetBlocks(_) => Some(MessageKind::GetBlocks),
            MessageModel::GetHeaders(_) => Some(MessageKind::GetHeaders),
            MessageModel::Block(_) => Some(MessageKind::Block),
            MessageModel::Headers(_) => Some(MessageKind::Headers),
            MessageModel::Tx(_) => Some(MessageKind::Tx),
            MessageModel::MemPool => Some(MessageKind::MemPool),
            MessageModel::Reject(_) => Some(MessageKind::Reject),
            MessageModel::FilterLoad(_) => Some(MessageKind::FilterLoad),
            MessageModel::FilterAdd(_) => Some(MessageKind::FilterAdd),
            MessageModel::FilterClear => Some(MessageKind::FilterClear),
            MessageModel::Unknown { .. } => None,
        }
    }

    /// Every field can be written and read back: addresses in their
    /// canonical form, lengths that fit, and an unknown command that is
    /// really no known kind's.
    pub open spec fn wf(self) -> bool {
        match self {
            MessageModel::Version(v) => v.wf(),
            MessageModel::Addr(a) => addr_list_wf(a),
            MessageModel::Inv(i) => inv_wf(i),
            MessageModel::GetData(i) => inv_wf(i),
            MessageModel::NotFound(i) => inv_wf(i),
            MessageModel::GetBlocks(l) => l.wf(),
            MessageModel::GetHeaders(l) => l.wf(),
            MessageModel::Block(b) => b.header.wf(),
            MessageModel::Headers(h) => headers_wf(h),
            MessageModel::Reject(r) => r.wf(),
            MessageModel::FilterLoad(f) => f.filter.len() <= u64::MAX,
            MessageModel::FilterAdd(d) => d.len() <= u64::MAX,
            MessageModel::Unknown { command, payload } => command.len() == 12 && kind_of_command(command) is None,
            _ => true,
        }
    }

    /// The twelve command bytes of the envelope.
    pub open spec fn command(self) -> Seq<u8> {
        match self {
            MessageModel::Unknown { command, .. } => command,
            _ => command_bytes(self.kind()->Some_0),
        }
    }
}

/// The payload bytes of a message.
pub open spec fn payload_bytes(m: MessageModel) -> Seq<u8> {
    match m {
        MessageModel::Version(v) => version_bytes(v),
        MessageModel::Ping(n) => spec_u64_to_le_bytes(n),
        MessageModel::Pong(n) => spec_u64_to_le_bytes(n),
        MessageModel::Addr(a) => addr_list_bytes(a),
        MessageModel::Inv(i) => inv_bytes(i),
        MessageModel::GetData(i) => inv_bytes(i),
        MessageModel::NotFound(i) => inv_bytes(i),
        MessageModel::GetBlocks(l) => locator_bytes(l),
        MessageModel::GetHeaders(l) => locator_bytes(l),
        MessageModel::Block(b) => block_bytes(b),
        MessageModel::Headers(h) => headers_bytes(h),
        MessageModel::Tx(t) => t,
        MessageModel::Reject(r) => reject_bytes(r),
        MessageModel::FilterLoad(f) => filter_load_bytes(f),
        MessageModel::FilterAdd(d) => var_bytes(d),
        MessageModel::Unknown { payload, .. } => payload,
        _ => Seq::empty(),
    }
}

/// Reads the payload of a message with the given command bytes. Bytes after
/// what the payload type reads are ignored; an unknown command keeps the
/// whole payload.
pub open spec fn parse_payload(command: Seq<u8>, body: Seq<u8>) -> Result<MessageModel, DecodeError> {
    match kind_of_command(command) {
        None => Ok(MessageModel::Unknown { command, payload: body }),
        Some(k) => parse_known_payload(k, body),
    }
}

/// Reads the payload of a known kind.
pub open spec fn parse_known_payload(k: MessageKind, body: Seq<u8>) -> Result<MessageModel, DecodeError> {
    match k {
            MessageKind::Version => match parse_version(body) {
                Ok((v, _)) => Ok(MessageModel::Version(v)),
                Err(e) => Err(e),
            },
            MessageKind::Verack => Ok(MessageModel::Verack),
            MessageKind::Ping => if body.len() < 8 {
                Err(DecodeError::UnexpectedEnd)
            } else {
                Ok(MessageModel::Ping(spec_u64_from_le_bytes(body.subrange(0, 8))))
            },
            MessageKind::Pong => if body.len() < 8 {
                Err(DecodeError::UnexpectedEnd)
            } else {
                Ok(MessageModel::Pong(spec_u64_from_le_bytes(body.subrange(0, 8))))
            },
            MessageKind::GetAddr => Ok(MessageModel::GetAddr),
            MessageKind::Addr => match parse_addr_list(body) {
                Ok((v, _)) => Ok(MessageModel::Addr(v)),
                Err(e) => Err(e),
            },
            MessageKind::Inv => match parse_inv(body) {
                Ok((v, _)) => Ok(MessageModel::Inv(v)),
                Err(e) => Err(e),
            },
            MessageKind::GetData => match parse_inv(body) {
                Ok((v, _)) => Ok(MessageModel::GetData(v)),
                Err(e) => Err(e),
            },
            MessageKind::NotFound => match parse_inv(body) {
                Ok((v, _)) => Ok(MessageModel::NotFound(v)),
                Err(e) => Err(e),
            },
            MessageKind::GetBlocks => match parse_locator(body) {
                Ok((v, _)) => Ok(MessageModel::GetBlocks(v)),
                Err(e) => Err(e),
            },
            MessageKind::GetHeaders => match parse_locator(body) {
                Ok((v, _)) => Ok(MessageModel::GetHeaders(v)),
                Err(e) => Err(e),
            },
            MessageKind::Block => match parse_block(body) {
                Ok((v, _)) => Ok(MessageModel::Block(v)),
                Err(e) => Err(e),
            },
            MessageKind::Headers => match parse_headers(body) {
                Ok((v, _)) => Ok(MessageModel::Headers(v)),
                Err(e) => Err(e),
            },
            MessageKind::Tx => Ok(MessageModel::Tx(body)),
            MessageKind::MemPool => Ok(MessageModel::MemPool),
            MessageKind::Reject => match parse_reject(body) {
                Ok((v, _)) => Ok(MessageModel::Reject(v)),
                Err(e) => Err(e),
            },
            MessageKind::FilterLoad => match parse_filter_load(body) {
                Ok((v, _)) => Ok(MessageModel::FilterLoad(v)),
                Err(e) => Err(e),
            },
            MessageKind::FilterAdd => match parse_var_bytes(body) {
                Ok((v, _)) => Ok(MessageModel::FilterAdd(v)),
                Err(e) => Err(e),
            },
            MessageKind::FilterClear => Ok(MessageModel::FilterClear),
    }
}

/// The first four bytes of the double SHA-256 of a payload.
pub open spec fn checksum_of(payload: Seq<u8>) -> Seq<u8> {
    Seq::new(4, |i: int| sha256_of(sha256_of(payload))[i])
}

/// A whole envelope: magic, command, payload length, checksum, payload.
pub open spec fn frame_bytes(magic: Seq<u8>, m: MessageModel) -> Seq<u8> {
    magic + m.command() + spec_u32_to_le_bytes(payload_bytes(m).len() as u32) + checksum_of(payload_bytes(m))
        + payload_bytes(m)
}

/// Reads one envelope from the front of `s`. Framing faults come first and
/// in this order: too short for a header, wrong magic, shorter than the
/// declared length, checksum mismatch; then the payload is read.
pub open spec fn parse_message(magic: Seq<u8>, s: Seq<u8>) -> Result<(MessageModel, nat), DecodeError> {
    if s.len() < 24 {
        Err(DecodeError::TruncatedFrame)
    } else if s.subrange(0, 4) != magic {
        Err(DecodeError::BadMagic)
    } else {
        let len = spec_u32_from_le_bytes(s.subrange(16, 20)) as nat;
        if s.len() < 24 + len {
            Err(DecodeError::TruncatedFrame)
        } else {
            let body = s.subrange(24, 24 + len as int);
            if checksum_of(body) != s.subrange(20, 24) {
                Err(DecodeError::ChecksumMismatch)
            } else {
                match parse_payload(s.subrange(4, 16), body) {
                    Err(e) => Err(e),
                    Ok(m) => Ok((m, 24 + len)),
                }
            }
        }
    }
}

/// The four checksum bytes of a payload.
pub fn checksum(payload: &[u8]) -> (r: Vec<u8>)
    ensures
        r@ == checksum_of(payload@),
        r@.len() == 4,
{
    let first = sha256(payload);
    let second = sha256(first.as_slice());
    let r = vstd::slice::slice_to_vec(&second.as_slice()[0..4]);
    assert(r@ =~= checksum_of(payload@));
    r
}

/// Why a message could not be framed.
#[derive(Debug, Clone, Copy, PartialEq, Eq, Structural)]
pub enum EncodeError {
    /// The payload's length does not fit the envelope's 32-bit field.
    PayloadTooLarge,
}

impl Message {
    pub open spec fn spec_kind(&self) -> Option<MessageKind> {
        self@.kind()
    }

    /// The message's kind; `None` for an unknown command.
    pub fn kind(&self) -> (r: Option<MessageKind>)
        ensures
            r == self@.kind(),
    {
        match self {
            Message::Version(_) => Some(MessageKind::Version),
            Message::Verack => Some(MessageKind::Verack),
            Message::Ping(_) => Some(MessageKind::Ping),
            Message::Pong(_) => Some(MessageKind::Pong),
            Message::GetAddr => Some(MessageKind::GetAddr),
            Message::Addr(_) => Some(MessageKind::Addr),
            Message::Inv(_) => Some(MessageKind::Inv),
            Message::GetData(_) => Some(MessageKind::GetData),
            Message::NotFound(_) => Some(MessageKind::NotFound),
            Message::GetBlocks(_) => Some(MessageKind::GetBlocks),
            Message::GetHeaders(_) => Some(MessageKind::GetHeaders),
            Message::Block(_) => Some(MessageKind::Block),
            Message::Headers(_) => Some(MessageKind::Headers),
            Message::Tx(_) => Some(MessageKind::Tx),
            Message::MemPool => Some(MessageKind::MemPool),
            Message::Reject(_) => Some(MessageKind::Reject),
            Message::FilterLoad(_) => Some(MessageKind::FilterLoad),
            Message::FilterAdd(_) => Some(MessageKind::FilterAdd),
            Message::FilterClear => Some(MessageKind::FilterClear),
            Message::Unknown { .. } => None,
        }
    }

    /// Appends the payload bytes.
    pub fn encode_payload(&self, buf: &mut Vec<u8>)
        ensures
            final(buf)@ == old(buf)@ + payload_bytes(self@),
    {
        match self {
            Message::Version(v) => v.encode(buf),
            Message::Ping(n) => n.encode(buf),
            Message::Pong(n) => n.encode(buf),
            Message::Addr(a) => a.encode(buf),
            Message::Inv(i) => i.encode(buf),
            Message::GetData(i) => i.encode(buf),
            Message::NotFound(i) => i.encode(buf),
            Message::GetBlocks(l) => l.encode(buf),
            Message::GetHeaders(l) => l.encode(buf),
            Message::Block(b) => b.encode(buf),
            Message::Headers(h) => h.encode(buf),
            Message::Tx(t) => put_slice(buf, t.as_slice()),
            Message::Reject(r) => r.encode(buf),
            Message::FilterLoad(f) => f.encode(buf),
            Message::FilterAdd(f) => f.encode(buf),
            Message::Unknown { payload, .. } => put_slice(buf, payload.as_slice()),
            _ => {
                assert(old(buf)@ + payload_bytes(self@) =~= old(buf)@);
            },
        }
    }

    /// Appends the twelve command bytes.
    fn encode_command(&self, buf: &mut Vec<u8>)
        ensures
            final(buf)@ == old(buf)@ + self@.command(),
    {
        match self.kind() {
            Some(k) => {
                let (lo, hi) = command_code(k);
                put_u64(buf, lo);
                put_u32(buf, hi);
                assert(buf@ =~= old(buf)@ + self@.command());
            },
            None => match self {
                Message::Unknown { command, .. } => put_slice(buf, command.as_slice()),
                _ => {},
            },
        }
    }

    /// Appends the whole envelope for the network with the given magic;
    /// fails, writing nothing, when the payload is too long for the length
    /// field.
    pub fn encode(&self, magic: [u8; 4], buf: &mut Vec<u8>) -> (r: Result<(), EncodeError>)
        ensures
            r is Ok <==> payload_bytes(self@).len() <= u32::MAX,
            r is Ok ==> final(buf)@ == old(buf)@ + frame_bytes(magic@, self@),
            r is Err ==> final(buf)@ == old(buf)@,
    {
        let mut payload: Vec<u8> = Vec::new();
        self.encode_payload(&mut payload);
        assert(payload@ =~= payload_bytes(self@));
        if payload.len() > 0xffff_ffff {
            return Err(EncodeError::PayloadTooLarge);
        }
        put_slice(buf, magic.as_slice());
        self.encode_command(buf);
        put_u32(buf, payload.len() as u32);
        let c = checksum(payload.as_slice());
        put_slice(buf, c.as_slice());
        put_slice(buf, payload.as_slice());
        assert(buf@ =~= old(buf)@ + frame_bytes(magic@, self@));
        Ok(())
    }

    /// Reads the payload of a message whose command bytes are `command`.
    pub fn decode_payload(command: &[u8], body: &[u8]) -> (r: Result<Message, DecodeError>)
        requires
            command@.len() == 12,
        ensures
            match r {
                Ok(m) => parse_payload(command@, body@) == Ok::<MessageModel, DecodeError>(m@),
                Err(e) => parse_payload(command@, body@) == Err::<MessageModel, DecodeError>(e),
            },
    {
        let lo = u64_from_le_bytes(&command[0..8]);
        let hi = u32_from_le_bytes(&command[8..12]);
        let kind = match kind_of_code(lo, hi) {
            None => {
                let c: [u8; 12] = array_from_slice(command);
                let payload = vstd::slice::slice_to_vec(body);
                return Ok(Message::Unknown { command: c, payload });
            },
            Some(k) => k,
        };
        let m = match kind {
            MessageKind::Version => Message::Version(Version::decode(body)?.0),
            MessageKind::Verack => Message::Verack,
            MessageKind::Ping => Message::Ping(Nonce::decode(body)?.0),
            MessageKind::Pong => Message::Pong(Nonce::decode(body)?.0),
            MessageKind::GetAddr => Message::GetAddr,
            MessageKind::Addr => Message::Addr(Addr::decode(body)?.0),
            MessageKind::Inv => Message::Inv(Inv::decode(body)?.0),
            MessageKind::GetData => Message::GetData(Inv::decode(body)?.0),
            MessageKind::NotFound => Message::NotFound(Inv::decode(body)?.0),
            MessageKind::GetBlocks => Message::GetBlocks(LocatorHashes::decode(body)?.0),
            MessageKind::GetHeaders => Message::GetHeaders(LocatorHashes::decode(body)?.0),
            MessageKind::Block => Message::Block(Block::decode(body)?.0),
            MessageKind::Headers => Message::Headers(Headers::decode(body)?.0),
            MessageKind::Tx => Message::Tx(vstd::slice::slice_to_vec(body)),
            MessageKind::MemPool => Message::MemPool,
            MessageKind::Reject => Message::Reject(Reject::decode(body)?.0),
            MessageKind::FilterLoad => Message::FilterLoad(FilterLoad::decode(body)?.0),
            MessageKind::FilterAdd => Message::FilterAdd(FilterAdd::decode(body)?.0),
            MessageKind::FilterClear => Message::FilterClear,
        };
        Ok(m)
    }

    /// Reads one envelope of the network with the given magic from the
    /// front of `bytes`; returns the message and the envelope's length.
    pub fn decode(magic: [u8; 4], bytes: &[u8]) -> (r: Result<(Message, usize), DecodeError>)
        ensures
            agrees(r, parse_message(magic@, bytes@)),
    {
        let len = bytes.len();
        if len < 24 {
            return Err(DecodeError::TruncatedFrame);
        }
        let mut i: usize = 0;
        while i < 4
            invariant
                0 <= i <= 4,
                len == bytes@.len(),
                len >= 24,
                magic@.len() == 4,
                forall|j: int| 0 <= j < i ==> bytes@[j] == magic@[j],
            decreases 4 - i,
        {
            if bytes[i] != magic[i] {
                assert(bytes@.subrange(0, 4)[i as int] != magic@[i as int]);
                return Err(DecodeError::BadMagic);
            }
            i = i + 1;
        }
        assert(bytes@.subrange(0, 4) =~= magic@);
        let body_len = u32_from_le_bytes(&bytes[16..20]) as usize;
        if len - 24 < body_len {
            return Err(DecodeError::TruncatedFrame);
        }
        let body = &bytes[24..24 + body_len];
        let c = checksum(body);
        let mut j: usize = 0;
        while j < 4
            invariant
                0 <= j <= 4,
                len == bytes@.len(),
                len >= 24,
                c@.len() == 4,
                bytes@.subrange(0, 4) == magic@,
                body_len == spec_u32_from_le_bytes(bytes@.subrange(16, 20)) as nat,
                24 + body_len <= len,
                c@ == checksum_of(bytes@.subrange(24, 24 + body_len as int)),
                forall|t: int| 0 <= t < j ==> c@[t] == bytes@[20 + t],
            decreases 4 - j,
        {
            if c[j] != bytes[20 + j] {
                assert(bytes@.subrange(20, 24)[j as int] != c@[j as int]);
                return Err(DecodeError::ChecksumMismatch);
            }
            j = j + 1;
        }
        assert(bytes@.subrange(20, 24) =~= c@);
        let m = Message::decode_payload(&bytes[4..16], body)?;
        Ok((m, 24 + body_len))
    }
}

/// The command bytes of a well-formed message name its kind.
pub proof fn lemma_command_round_trip(m: MessageModel)
    requires
        m.wf(),
    ensures
        kind_of_command(m.command()) == m.kind(),
        m.command().len() == 12,
{
    lemma_auto_spec_u32_to_from_le_bytes();
    lemma_auto_spec_u64_to_from_le_bytes();
    match m.kind() {
        Some(k) => {
            let c = command_bytes(k);
            assert(c.subrange(0, 8) =~= spec_u64_to_le_bytes(spec_command_code(k).0));
            assert(c.subrange(8, 12) =~= spec_u32_to_le_bytes(spec_command_code(k).1));
            lemma_kind_of_code(k);
        },
        None => {},
    }
}

proof fn lemma_version_payload(v: VersionModel)
    requires
        v.wf(),
    ensures
        parse_known_payload(MessageKind::Version, version_bytes(v)) == Ok::<MessageModel, DecodeError>(MessageModel::Version(v)),
{
    let p = version_bytes(v);
    let e = Seq::<u8>::empty();
    assert(p + e =~= p);
    lemma_version_round_trip(v, e);
}

proof fn lemma_ping_payload(n: u64)
    requires
        true,
    ensures
        parse_known_payload(MessageKind::Ping, spec_u64_to_le_bytes(n)) == Ok::<MessageModel, DecodeError>(MessageModel::Ping(n)),
{
    let p = spec_u64_to_le_bytes(n);
    let e = Seq::<u8>::empty();
    assert(p + e =~= p);
    lemma_auto_spec_u64_to_from_le_bytes();
    assert(p.subrange(0, 8) =~= p);
}

proof fn lemma_pong_payload(n: u64)
    requires
        true,
    ensures
        parse_known_payload(MessageKind::Pong, spec_u64_to_le_bytes(n)) == Ok::<MessageModel, DecodeError>(MessageModel::Pong(n)),
{
    let p = spec_u64_to_le_bytes(n);
    let e = Seq::<u8>::empty();
    assert(p + e =~= p);
    lemma_auto_spec_u64_to_from_le_bytes();
    assert(p.subrange(0, 8) =~= p);
}

proof fn lemma_addr_payload(a: Seq<AddrModel>)
    requires
        addr_list_wf(a),
    ensures
        parse_known_payload(MessageKind::Addr, addr_list_bytes(a)) == Ok::<MessageModel, DecodeError>(MessageModel::Addr(a)),
{
    let p = addr_list_bytes(a);
    let e = Seq::<u8>::empty();
    assert(p + e =~= p);
    lemma_addr_list_round_trip(a, e);
}

proof fn lemma_inv_payload(i: Seq<InvHashModel>)
    requires
        inv_wf(i),
    ensures
        parse_known_payload(MessageKind::Inv, inv_bytes(i)) == Ok::<MessageModel, DecodeError>(MessageModel::Inv(i)),
{
    let p = inv_bytes(i);
    let e = Seq::<u8>::empty();
    assert(p + e =~= p);
    lemma_inv_round_trip(i, e);
}

proof fn lemma_get_data_payload(i: Seq<InvHashModel>)
    requires
        inv_wf(i),
    ensures
        parse_known_payload(MessageKind::GetData, inv_bytes(i)) == Ok::<MessageModel, DecodeError>(MessageModel::GetData(i)),
{
    let p = inv_bytes(i);
    let e = Seq::<u8>::empty();
    assert(p + e =~= p);
    lemma_inv_round_trip(i, e);
}

proof fn lemma_not_found_payload(i: Seq<InvHashModel>)
    requires
        inv_wf(i),
    ensures
        parse_known_payload(MessageKind::NotFound, inv_bytes(i)) == Ok::<MessageModel, DecodeError>(MessageModel::NotFound(i)),
{
    let p = inv_bytes(i);
    let e = Seq::<u8>::empty();
    assert(p + e =~= p);
    lemma_inv_round_trip(i, e);
}

#[verifier::rlimit(30)]
proof fn lemma_get_blocks_payload(l: LocatorModel)
    requires
        l.wf(),
    ensures
        parse_known_payload(MessageKind::GetBlocks, locator_bytes(l)) == Ok::<MessageModel, DecodeError>(MessageModel::GetBlocks(l)),
{
    let p = locator_bytes(l);
    let e = Seq::<u8>::empty();
    assert(p + e =~= p);
    lemma_locator_round_trip(l, e);
    assert(parse_locator(p) == Ok::<(LocatorModel, nat), DecodeError>((l, p.len())));
}

#[verifier::rlimit(30)]
proof fn lemma_get_headers_payload(l: LocatorModel)
    requires
        l.wf(),
    ensures
        parse_known_payload(MessageKind::GetHeaders, locator_bytes(l)) == Ok::<MessageModel, DecodeError>(MessageModel::GetHeaders(l)),
{
    let p = locator_bytes(l);
    let e = Seq::<u8>::empty();
    assert(p + e =~= p);
    lemma_locator_round_trip(l, e);
    assert(parse_locator(p) == Ok::<(LocatorModel, nat), DecodeError>((l, p.len())));
}

proof fn lemma_block_payload(b: BlockModel)
    requires
        b.header.wf(),
    ensures
        parse_known_payload(MessageKind::Block, block_bytes(b)) == Ok::<MessageModel, DecodeError>(MessageModel::Block(b)),
{
    let p = block_bytes(b);
    let e = Seq::<u8>::empty();
    assert(p + e =~= p);
    lemma_block_round_trip(b);
}

#[verifier::rlimit(30)]
proof fn lemma_headers_payload(h: Seq<HeaderModel>)
    requires
        headers_wf(h),
    ensures
        parse_known_payload(MessageKind::Headers, headers_bytes(h)) == Ok::<MessageModel, DecodeError>(MessageModel::Headers(h)),
{
    let p = headers_bytes(h);
    let e = Seq::<u8>::empty();
    assert(p + e =~= p);
    lemma_headers_round_trip(h, e);
    assert(parse_headers(p) == Ok::<(Seq<HeaderModel>, nat), DecodeError>((h, p.len())));
}

proof fn lemma_reject_payload(r: RejectModel)
    requires
        r.wf(),
    ensures
        parse_known_payload(MessageKind::Reject, reject_bytes(r)) == Ok::<MessageModel, DecodeError>(MessageModel::Reject(r)),
{
    let p = reject_bytes(r);
    let e = Seq::<u8>::empty();
    assert(p + e =~= p);
    lemma_reject_round_trip(r);
}

proof fn lemma_filter_load_payload(f: FilterLoadModel)
    requires
        f.filter.len() <= u64::MAX,
    ensures
        parse_known_payload(MessageKind::FilterLoad, filter_load_bytes(f)) == Ok::<MessageModel, DecodeError>(MessageModel::FilterLoad(f)),
{
    let p = filter_load_bytes(f);
    let e = Seq::<u8>::empty();
    assert(p + e =~= p);
    lemma_filter_load_round_trip(f, e);
}

proof fn lemma_filter_add_payload(d: Seq<u8>)
    requires
        d.len() <= u64::MAX,
    ensures
        parse_known_payload(MessageKind::FilterAdd, var_bytes(d)) == Ok::<MessageModel, DecodeError>(MessageModel::FilterAdd(d)),
{
    let p = var_bytes(d);
    let e = Seq::<u8>::empty();
    assert(p + e =~= p);
    lemma_var_bytes_round_trip(d, e);
}

/// The payload of a well-formed message of a known kind reads back as that
/// message.
pub proof fn lemma_known_payload_round_trip(m: MessageModel)
    requires
        m.wf(),
        m.kind() is Some,
    ensures
        parse_known_payload(m.kind()->Some_0, payload_bytes(m)) == Ok::<MessageModel, DecodeError>(m),
{
    match m {
        MessageModel::Version(v) => lemma_version_payload(v),
        MessageModel::Ping(n) => lemma_ping_payload(n),
        MessageModel::Pong(n) => lemma_pong_payload(n),
        MessageModel::Addr(a) => lemma_addr_payload(a),
        MessageModel::Inv(i) => lemma_inv_payload(i),
        MessageModel::GetData(i) => lemma_get_data_payload(i),
        MessageModel::NotFound(i) => lemma_not_found_payload(i),
        MessageModel::GetBlocks(l) => lemma_get_blocks_payload(l),
        MessageModel::GetHeaders(l) => lemma_get_headers_payload(l),
        MessageModel::Block(b) => lemma_block_payload(b),
        MessageModel::Headers(h) => lemma_headers_payload(h),
        MessageModel::Reject(r) => lemma_reject_payload(r),
        MessageModel::FilterLoad(f) => lemma_filter_load_payload(f),
        MessageModel::FilterAdd(d) => lemma_filter_add_payload(d),
        _ => {},
    }
}

/// The payload of a well-formed message reads back as that message.
pub proof fn lemma_payload_round_trip(m: MessageModel)
    requires
        m.wf(),
    ensures
        parse_payload(m.command(), payload_bytes(m)) == Ok::<MessageModel, DecodeError>(m),
{
    lemma_command_round_trip(m);
    if m.kind() is Some {
        lemma_known_payload_round_trip(m);
    }
}

/// Round trip: reading the envelope of any well-formed message whose
/// payload fits the length field gives back that message and the
/// envelope's length, whatever follows it.
pub proof fn lemma_message_round_trip(magic: Seq<u8>, m: MessageModel, rest: Seq<u8>)
    requires
        magic.len() == 4,
        m.wf(),
        payload_bytes(m).len() <= u32::MAX,
    ensures
        parse_message(magic, frame_bytes(magic, m) + rest) == Ok::<(MessageModel, nat), DecodeError>(
            (m, frame_bytes(magic, m).len()),
        ),
{
    lemma_auto_spec_u32_to_from_le_bytes();
    lemma_auto_spec_u64_to_from_le_bytes();
    let p = payload_bytes(m);
    let lb = spec_u32_to_le_bytes(p.len() as u32);
    let s = frame_bytes(magic, m) + rest;
    lemma_command_round_trip(m);
    assert(s.subrange(0, 4) =~= magic);
    assert(s.subrange(4, 16) =~= m.command());
    assert(s.subrange(16, 20) =~= lb);
    assert(s.subrange(20, 24) =~= checksum_of(p));
    assert(s.subrange(24, 24 + p.len() as int) =~= p);
    lemma_payload_round_trip(m);
}

/// A changed payload byte is caught: after any one byte of the payload of
/// a framed message is changed, reading the envelope fails with a checksum
/// mismatch, as long as the changed payload's checksum differs from the one
/// the envelope carries (four checksum bytes can collide).
pub proof fn lemma_changed_payload_fails(magic: Seq<u8>, m: MessageModel, i: int, b: u8)
    requires
        magic.len() == 4,
        m.wf(),
        payload_bytes(m).len() <= u32::MAX,
        0 <= i < payload_bytes(m).len(),
        b != payload_bytes(m)[i],
        checksum_of(payload_bytes(m).update(i, b)) != checksum_of(payload_bytes(m)),
    ensures
        parse_message(magic, frame_bytes(magic, m).update(24 + i, b)) == Err::<(MessageModel, nat), DecodeError>(
            DecodeError::ChecksumMismatch,
        ),
{
    lemma_auto_spec_u32_to_from_le_bytes();
    lemma_command_round_trip(m);
    let p = payload_bytes(m);
    let f = frame_bytes(magic, m);
    let s = f.update(24 + i, b);
    assert(s.subrange(0, 4) =~= magic);
    assert(s.subrange(16, 20) =~= spec_u32_to_le_bytes(p.len() as u32));
    assert(s.subrange(20, 24) =~= checksum_of(p));
    assert(s.subrange(24, 24 + p.len() as int) =~= p.update(i, b));
}

} // verus!
