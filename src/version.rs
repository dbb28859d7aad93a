//! The version payload that opens a handshake.

use vstd::bytes::*;
use vstd::prelude::*;
use vstd::utf8::*;
use crate::addr::{addr_bytes, lemma_addr_round_trip, parse_addr_core, AddrModel, NetworkAddr};
use crate::codec::{
    agrees, lemma_varstr_round_trip, parse_varstr, put_u32, put_u64, varstr_bytes, DecodeError,
    Nonce, VarStr,
};

verus! {

/// A version payload: what the sending node runs and where it is.
#[derive(Debug, Clone)]
pub struct Version {
    pub version: u32,
    pub services: u64,
    /// UNIX seconds at the sender.
    pub timestamp: u64,
    pub addr_recv: NetworkAddr,
    pub addr_from: NetworkAddr,
    pub nonce: Nonce,
    pub user_agent: VarStr,
    pub start_height: u32,
    pub relay: bool,
}

pub struct VersionModel {
    pub version: u32,
    pub services: u64,
    pub timestamp: u64,
    pub addr_recv: AddrModel,
    pub addr_from: AddrModel,
    pub nonce: u64,
    pub user_agent: Seq<char>,
    pub start_height: u32,
    pub relay: bool,
}

impl View for Version {
    type V = VersionModel;

    open spec fn view(&self) -> VersionModel {
        VersionModel {
            version: self.version,
            services: self.services,
            timestamp: self.timestamp,
            addr_recv: self.addr_recv@,
            addr_from: self.addr_from@,
            nonce: self.nonce@,
            user_agent: self.user_agent@,
            start_height: self.start_height,
            relay: self.relay,
        }
    }
}

impl VersionModel {
    /// Both addresses are well formed and carry no timestamp.
    pub open spec fn wf(self) -> bool {
        &&& self.addr_recv.wf(false)
        &&& self.addr_from.wf(false)
        &&& encode_utf8(self.user_agent).len() <= u64::MAX
    }
}

/// The eighty bytes before the user agent.
pub open spec fn version_head_bytes(v: VersionModel) -> Seq<u8> {
    spec_u32_to_le_bytes(v.version) + spec_u64_to_le_bytes(v.services) + spec_u64_to_le_bytes(v.timestamp)
        + addr_bytes(v.addr_recv) + addr_bytes(v.addr_from) + spec_u64_to_le_bytes(v.nonce)
}

pub open spec fn version_bytes(v: VersionModel) -> Seq<u8> {
    version_head_bytes(v) + varstr_bytes(v.user_agent) + spec_u32_to_le_bytes(v.start_height) + seq![
        if v.relay {
            1u8
        } else {
            0u8
        },
    ]
}

/// Reads a version payload; any non-zero relay byte means true.
pub open spec fn parse_version(s: Seq<u8>) -> Result<(VersionModel, nat), DecodeError> {
    if s.len() < 80 {
        Err(DecodeError::UnexpectedEnd)
    } else {
        match parse_varstr(s.skip(80)) {
            Err(e) => Err(e),
            Ok((user_agent, k)) => if s.len() < 80 + k + 5 {
                Err(DecodeError::UnexpectedEnd)
            } else {
                Ok((
                    VersionModel {
                        version: spec_u32_from_le_bytes(s.subrange(0, 4)),
                        services: spec_u64_from_le_bytes(s.subrange(4, 12)),
                        timestamp: spec_u64_from_le_bytes(s.subrange(12, 20)),
                        addr_recv: parse_addr_core(s.subrange(20, 46))->Ok_0.0,
                        addr_from: parse_addr_core(s.subrange(46, 72))->Ok_0.0,
                        nonce: spec_u64_from_le_bytes(s.subrange(72, 80)),
                        user_agent,
                        start_height: spec_u32_from_le_bytes(s.subrange(80 + k as int, 84 + k as int)),
                        relay: s[84 + k as int] != 0,
                    },
                    85 + k,
                ))
            },
        }
    }
}

impl Version {
    pub fn encode(&self, buf: &mut Vec<u8>)
        ensures
            final(buf)@ == old(buf)@ + version_bytes(self@),
    {
        put_u32(buf, self.version);
        put_u64(buf, self.services);
        put_u64(buf, self.timestamp);
        self.addr_recv.encode(buf);
        self.addr_from.encode(buf);
        self.nonce.encode(buf);
        self.user_agent.encode(buf);
        put_u32(buf, self.start_height);
        buf.push(if self.relay { 1 } else { 0 });
        assert(buf@ =~= old(buf)@ + version_bytes(self@));
    }

    pub fn decode(bytes: &[u8]) -> (r: Result<(Version, usize), DecodeError>)
        ensures
            agrees(r, parse_version(bytes@)),
    {
        let len = bytes.len();
        if len < 80 {
            return Err(DecodeError::UnexpectedEnd);
        }
        let version = u32_from_le_bytes(&bytes[0..4]);
        let services = u64_from_le_bytes(&bytes[4..12]);
        let timestamp = u64_from_le_bytes(&bytes[12..20]);
        let (addr_recv, _) = NetworkAddr::decode(&bytes[20..46], false)?;
        let (addr_from, _) = NetworkAddr::decode(&bytes[46..72], false)?;
        let nonce = Nonce(u64_from_le_bytes(&bytes[72..80]));
        assert(bytes@.subrange(80, len as int) =~= bytes@.skip(80));
        let (user_agent, k) = VarStr::decode(&bytes[80..len])?;
        if len - 80 - k < 5 {
            return Err(DecodeError::UnexpectedEnd);
        }
        let start_height = u32_from_le_bytes(&bytes[80 + k..84 + k]);
        let relay = bytes[84 + k] != 0;
        let v = Version {
            version,
            services,
            timestamp,
            addr_recv,
            addr_from,
            nonce,
            user_agent,
            start_height,
            relay,
        };
        Ok((v, 85 + k))
    }
}

pub proof fn lemma_version_round_trip(v: VersionModel, rest: Seq<u8>)
    requires
        v.wf(),
    ensures
        parse_version(version_bytes(v) + rest) == Ok::<(VersionModel, nat), DecodeError>(
            (v, version_bytes(v).len()),
        ),
{
    lemma_auto_spec_u32_to_from_le_bytes();
    lemma_auto_spec_u64_to_from_le_bytes();
    let head = version_head_bytes(v);
    let ua = varstr_bytes(v.user_agent);
    let tail = spec_u32_to_le_bytes(v.start_height) + seq![if v.relay { 1u8 } else { 0u8 }];
    let s = version_bytes(v) + rest;
    assert(s =~= head + (ua + (tail + rest)));
    let ar = addr_bytes(v.addr_recv);
    let af = addr_bytes(v.addr_from);
    assert(s.subrange(0, 4) =~= spec_u32_to_le_bytes(v.version));
    assert(s.subrange(4, 12) =~= spec_u64_to_le_bytes(v.services));
    assert(s.subrange(12, 20) =~= spec_u64_to_le_bytes(v.timestamp));
    assert(s.subrange(20, 46) =~= ar + Seq::<u8>::empty());
    lemma_addr_round_trip(v.addr_recv, false, Seq::<u8>::empty());
    assert(s.subrange(46, 72) =~= af + Seq::<u8>::empty());
    lemma_addr_round_trip(v.addr_from, false, Seq::<u8>::empty());
    assert(s.subrange(72, 80) =~= spec_u64_to_le_bytes(v.nonce));
    assert(s.skip(80) =~= ua + (tail + rest));
    lemma_varstr_round_trip(v.user_agent, tail + rest);
    let k = ua.len() as int;
    assert(s.subrange(80 + k, 84 + k) =~= spec_u32_to_le_bytes(v.start_height));
    assert(s[84 + k] == if v.relay { 1u8 } else { 0u8 });
}

} // verus!
