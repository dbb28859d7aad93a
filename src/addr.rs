//! Network addresses: a services bitfield, an IP address carried on the wire
//! in its IPv6 form, a big-endian port and, in some payloads, a timestamp.

use vstd::bytes::*;
use vstd::prelude::*;
use crate::codec::{agrees, parse_u32, put_slice, put_u32, put_u64, DecodeError};
use crate::external::array_from_slice;

verus! {

/// An IP address, version 4 or 6.
#[derive(Debug, Clone, Copy, PartialEq, Eq)]
pub enum IpAddr {
    V4([u8; 4]),
    V6([u8; 16]),
}

/// What an IP address is: its octets.
pub enum IpModel {
    V4(Seq<u8>),
    V6(Seq<u8>),
}

impl View for IpAddr {
    type V = IpModel;

    open spec fn view(&self) -> IpModel {
        match self {
            IpAddr::V4(o) => IpModel::V4(o@),
            IpAddr::V6(o) => IpModel::V6(o@),
        }
    }
}

/// The first twelve bytes of an IPv4-mapped IPv6 address (`::ffff:0:0/96`).
pub open spec fn mapped_prefix() -> Seq<u8> {
    Seq::new(12, |i: int| if i < 10 { 0u8 } else { 0xffu8 })
}

/// Whether sixteen wire bytes are the IPv4-mapped form of an IPv4 address.
pub open spec fn is_v4_mapped(w: Seq<u8>) -> bool {
    w.len() == 16 && w.subrange(0, 12) == mapped_prefix()
}

/// The sixteen bytes that carry an address on the wire.
pub open spec fn ip_wire(ip: IpModel) -> Seq<u8> {
    match ip {
        IpModel::V4(o) => mapped_prefix() + o,
        IpModel::V6(o) => o,
    }
}

/// The address that sixteen wire bytes stand for: mapped forms become IPv4.
pub open spec fn ip_from_wire(w: Seq<u8>) -> IpModel {
    if is_v4_mapped(w) {
        IpModel::V4(w.subrange(12, 16))
    } else {
        IpModel::V6(w)
    }
}

impl IpModel {
    /// Four octets for IPv4; sixteen for IPv6, not in the IPv4-mapped form
    /// (that form stands for the IPv4 address).
    pub open spec fn wf(self) -> bool {
        match self {
            IpModel::V4(o) => o.len() == 4,
            IpModel::V6(o) => o.len() == 16 && !is_v4_mapped(o),
        }
    }
}

/// A peer's address as a payload carries it.
#[derive(Debug, Clone, Copy, PartialEq, Eq)]
pub struct NetworkAddr {
    /// When the peer was last seen (UNIX seconds); only address-gossip
    /// payloads carry it.
    pub last_seen: Option<u32>,
    pub services: u64,
    pub ip: IpAddr,
    pub port: u16,
}

pub struct AddrModel {
    pub last_seen: Option<u32>,
    pub services: u64,
    pub ip: IpModel,
    pub port: u16,
}

impl View for NetworkAddr {
    type V = AddrModel;

    open spec fn view(&self) -> AddrModel {
        AddrModel { last_seen: self.last_seen, services: self.services, ip: self.ip@, port: self.port }
    }
}

/// A port, most significant byte first.
pub open spec fn port_bytes(p: u16) -> Seq<u8> {
    seq![(p / 256) as u8, (p % 256) as u8]
}

/// Services, address and port: twenty-six bytes.
pub open spec fn addr_core_bytes(a: AddrModel) -> Seq<u8> {
    spec_u64_to_le_bytes(a.services) + ip_wire(a.ip) + port_bytes(a.port)
}

/// The wire form of an address: the timestamp when it has one, then the
/// services, the address and the port.
pub open spec fn addr_bytes(a: AddrModel) -> Seq<u8> {
    match a.last_seen {
        Some(t) => spec_u32_to_le_bytes(t) + addr_core_bytes(a),
        None => addr_core_bytes(a),
    }
}

/// Reads services, address and port, with no timestamp.
pub open spec fn parse_addr_core(s: Seq<u8>) -> Result<(AddrModel, nat), DecodeError> {
    if s.len() < 26 {
        Err(DecodeError::UnexpectedEnd)
    } else {
        Ok((AddrModel {
            last_seen: None,
            services: spec_u64_from_le_bytes(s.subrange(0, 8)),
            ip: ip_from_wire(s.subrange(8, 24)),
            port: (s[24] as int * 256 + s[25] as int) as u16,
        }, 26))
    }
}

/// Reads an address; `timed` says whether a timestamp comes first.
pub open spec fn parse_addr(s: Seq<u8>, timed: bool) -> Result<(AddrModel, nat), DecodeError> {
    if !timed {
        parse_addr_core(s)
    } else {
        match parse_u32(s) {
            Err(e) => Err(e),
            Ok((t, _)) => match parse_addr_core(s.skip(4)) {
                Err(e) => Err(e),
                Ok((a, n)) => Ok((AddrModel { last_seen: Some(t), ..a }, n + 4)),
            },
        }
    }
}

impl AddrModel {
    /// The address is well formed, and carries a timestamp exactly when the
    /// payload it stands in does.
    pub open spec fn wf(self, timed: bool) -> bool {
        self.ip.wf() && (self.last_seen is Some <==> timed)
    }
}

impl IpAddr {
    /// The sixteen wire bytes of the address.
    pub fn to_wire(&self) -> (r: [u8; 16])
        ensures
            r@ == ip_wire(self@),
    {
        match self {
            IpAddr::V4(o) => {
                let mut w: Vec<u8> = Vec::new();
                let mut i: usize = 0;
                while i < 12
                    invariant
                        0 <= i <= 12,
                        w@ == mapped_prefix().subrange(0, i as int),
                    decreases 12 - i,
                {
                    w.push(if i < 10 { 0u8 } else { 0xffu8 });
                    i = i + 1;
                    assert(w@ =~= mapped_prefix().subrange(0, i as int));
                }
                put_slice(&mut w, o.as_slice());
                assert(w@ =~= ip_wire(self@));
                array_from_slice(w.as_slice())
            },
            IpAddr::V6(o) => *o,
        }
    }

    /// The address that sixteen wire bytes stand for.
    pub fn from_wire(w: &[u8]) -> (r: IpAddr)
        requires
            w@.len() == 16,
        ensures
            r@ == ip_from_wire(w@),
    {
        let mut i: usize = 0;
        let mut mapped = true;
        assert(w@.subrange(0, 0) =~= mapped_prefix().subrange(0, 0));
        while i < 12
            invariant
                0 <= i <= 12,
                w@.len() == 16,
                mapped <==> w@.subrange(0, i as int) == mapped_prefix().subrange(0, i as int),
            decreases 12 - i,
        {
            let expect: u8 = if i < 10 { 0 } else { 0xff };
            proof {
                if mapped && w@[i as int] == expect {
                    assert(w@.subrange(0, i + 1) =~= mapped_prefix().subrange(0, i + 1));
                }
                if w@.subrange(0, i + 1) == mapped_prefix().subrange(0, i + 1) {
                    assert(w@.subrange(0, i as int) =~= w@.subrange(0, i + 1).subrange(0, i as int));
                    assert(mapped_prefix().subrange(0, i as int) =~= mapped_prefix().subrange(0, i + 1).subrange(0, i as int));
                    assert(w@.subrange(0, i + 1)[i as int] == w@[i as int]);
                }
            }
            mapped = mapped && w[i] == expect;
            i = i + 1;
        }
        assert(mapped_prefix().subrange(0, 12) =~= mapped_prefix());
        if mapped {
            IpAddr::V4(array_from_slice(&w[12..16]))
        } else {
            IpAddr::V6(array_from_slice(w))
        }
    }
}

impl NetworkAddr {
    pub fn encode(&self, buf: &mut Vec<u8>)
        ensures
            final(buf)@ == old(buf)@ + addr_bytes(self@),
    {
        match self.last_seen {
            Some(t) => put_u32(buf, t),
            None => {},
        }
        put_u64(buf, self.services);
        let w = self.ip.to_wire();
        put_slice(buf, w.as_slice());
        buf.push((self.port / 256) as u8);
        buf.push((self.port % 256) as u8);
        assert(buf@ =~= old(buf)@ + addr_bytes(self@));
    }

    /// Reads an address; `timed` says whether a timestamp comes first.
    pub fn decode(bytes: &[u8], timed: bool) -> (r: Result<(NetworkAddr, usize), DecodeError>)
        ensures
            agrees(r, parse_addr(bytes@, timed)),
    {
        let mut pos: usize = 0;
        let mut last_seen: Option<u32> = None;
        if timed {
            if bytes.len() < 4 {
                return Err(DecodeError::UnexpectedEnd);
            }
            last_seen = Some(u32_from_le_bytes(&bytes[0..4]));
            pos = 4;
        }
        if bytes.len() - pos < 26 {
            return Err(DecodeError::UnexpectedEnd);
        }
        let ghost s = bytes@.skip(pos as int);
        assert(bytes@.subrange(pos as int, pos + 8) =~= s.subrange(0, 8));
        assert(bytes@.subrange(pos + 8, pos + 24) =~= s.subrange(8, 24));
        let services = u64_from_le_bytes(&bytes[pos..pos + 8]);
        let ip = IpAddr::from_wire(&bytes[pos + 8..pos + 24]);
        let port = bytes[pos + 24] as u16 * 256 + bytes[pos + 25] as u16;
        let a = NetworkAddr { last_seen, services, ip, port };
        Ok((a, pos + 26))
    }
}

/// An address round-trips through its wire form: IPv4 addresses come back
/// as IPv4 from their mapped IPv6 form, and an address written without a
/// timestamp reads back without one.
pub proof fn lemma_addr_round_trip(a: AddrModel, timed: bool, rest: Seq<u8>)
    requires
        a.wf(timed),
    ensures
        parse_addr(addr_bytes(a) + rest, timed) == Ok::<(AddrModel, nat), DecodeError>((a, addr_bytes(a).len())),
{
    lemma_auto_spec_u32_to_from_le_bytes();
    lemma_auto_spec_u64_to_from_le_bytes();
    let core = addr_core_bytes(a);
    let c = core + rest;
    assert(c.subrange(0, 8) =~= spec_u64_to_le_bytes(a.services));
    assert(c.subrange(8, 24) =~= ip_wire(a.ip));
    match a.ip {
        IpModel::V4(o) => {
            assert(ip_wire(a.ip).subrange(0, 12) =~= mapped_prefix());
            assert(ip_wire(a.ip).subrange(12, 16) =~= o);
        },
        IpModel::V6(o) => {},
    }
    assert(c[24] == (a.port / 256) as u8);
    assert(c[25] == (a.port % 256) as u8);
    assert(parse_addr_core(c) == Ok::<(AddrModel, nat), DecodeError>((AddrModel { last_seen: None, ..a }, 26)));
    if timed {
        let t = a.last_seen->Some_0;
        let s = addr_bytes(a) + rest;
        assert(s =~= spec_u32_to_le_bytes(t) + c);
        assert(s.subrange(0, 4) =~= spec_u32_to_le_bytes(t));
        assert(s.skip(4) =~= c);
    } else {
        assert(addr_bytes(a) + rest =~= c);
    }
}

} // verus!
