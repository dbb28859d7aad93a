//! Reject payloads: which message was refused, a reason code, a reason text
//! and any extra data.

use vstd::prelude::*;
use vstd::utf8::*;
use crate::codec::{
    agrees, lemma_varstr_round_trip, parse_u8, parse_varstr, put_slice, read_u8, varstr_bytes,
    DecodeError, VarStr,
};

verus! {

pub const MALFORMED_CODE: u8 = 0x01;
pub const INVALID_CODE: u8 = 0x10;
pub const OBSOLETE_CODE: u8 = 0x11;
pub const DUPLICATE_CODE: u8 = 0x12;
pub const NON_STANDARD_CODE: u8 = 0x40;
pub const DUST_CODE: u8 = 0x41;
pub const INSUFFICIENT_FEE_CODE: u8 = 0x42;
pub const CHECKPOINT_CODE: u8 = 0x43;
pub const OTHER_CODE: u8 = 0x50;

/// The code specifying the reject reason.
#[derive(Debug, Clone, Copy, PartialEq, Eq, Structural)]
pub enum CCode {
    Malformed,
    Invalid,
    Obsolete,
    Duplicate,
    NonStandard,
    Dust,
    InsufficientFee,
    Checkpoint,
    Other,
}

/// The byte that carries a code on the wire.
pub open spec fn ccode_byte(c: CCode) -> u8 {
    match c {
        CCode::Malformed => MALFORMED_CODE,
        CCode::Invalid => INVALID_CODE,
        CCode::Obsolete => OBSOLETE_CODE,
        CCode::Duplicate => DUPLICATE_CODE,
        CCode::NonStandard => NON_STANDARD_CODE,
        CCode::Dust => DUST_CODE,
        CCode::InsufficientFee => INSUFFICIENT_FEE_CODE,
        CCode::Checkpoint => CHECKPOINT_CODE,
        CCode::Other => OTHER_CODE,
    }
}

/// Reads a code byte; a byte that is no code's is refused.
pub open spec fn parse_ccode(s: Seq<u8>) -> Result<(CCode, nat), DecodeError> {
    match parse_u8(s) {
        Err(e) => Err(e),
        Ok((b, n)) => if exists|c: CCode| ccode_byte(c) == b {
            Ok((choose|c: CCode| ccode_byte(c) == b, n))
        } else {
            Err(DecodeError::InvalidCCode(b))
        },
    }
}

impl View for CCode {
    type V = CCode;

    open spec fn view(&self) -> CCode {
        *self
    }
}

impl CCode {
    pub fn encode(&self, buf: &mut Vec<u8>)
        ensures
            final(buf)@ == old(buf)@.push(ccode_byte(*self)),
    {
        let code: u8 = match self {
            CCode::Malformed => MALFORMED_CODE,
            CCode::Invalid => INVALID_CODE,
            CCode::Obsolete => OBSOLETE_CODE,
            CCode::Duplicate => DUPLICATE_CODE,
            CCode::NonStandard => NON_STANDARD_CODE,
            CCode::Dust => DUST_CODE,
            CCode::InsufficientFee => INSUFFICIENT_FEE_CODE,
            CCode::Checkpoint => CHECKPOINT_CODE,
            CCode::Other => OTHER_CODE,
        };
        buf.push(code);
    }

    pub fn decode(bytes: &[u8]) -> (r: Result<(CCode, usize), DecodeError>)
        ensures
            agrees(r, parse_ccode(bytes@)),
    {
        let (b, n) = read_u8(bytes)?;
        let c = if b == MALFORMED_CODE {
            CCode::Malformed
        } else if b == INVALID_CODE {
            CCode::Invalid
        } else if b == OBSOLETE_CODE {
            CCode::Obsolete
        } else if b == DUPLICATE_CODE {
            CCode::Duplicate
        } else if b == NON_STANDARD_CODE {
            CCode::NonStandard
        } else if b == DUST_CODE {
            CCode::Dust
        } else if b == INSUFFICIENT_FEE_CODE {
            CCode::InsufficientFee
        } else if b == CHECKPOINT_CODE {
            CCode::Checkpoint
        } else if b == OTHER_CODE {
            CCode::Other
        } else {
            assert forall|c: CCode| ccode_byte(c) != b by {}
            return Err(DecodeError::InvalidCCode(b));
        };
        assert(ccode_byte(c) == b);
        proof { lemma_ccode_byte_injective(c); }
        Ok((c, n))
    }
}

/// No two codes share a byte.
pub proof fn lemma_ccode_byte_injective(c: CCode)
    ensures
        forall|d: CCode| ccode_byte(d) == ccode_byte(c) ==> d == c,
{
}

/// A reject message payload.
#[derive(Debug, Clone)]
pub struct Reject {
    /// The type of message rejected.
    pub message: VarStr,
    /// The code of the reason for rejection.
    pub ccode: CCode,
    /// The reason.
    pub reason: VarStr,
    /// Extra data of any length, conventionally the 32-byte hash of the
    /// rejected object.
    pub data: Vec<u8>,
}

pub struct RejectModel {
    pub message: Seq<char>,
    pub ccode: CCode,
    pub reason: Seq<char>,
    pub data: Seq<u8>,
}

impl View for Reject {
    type V = RejectModel;

    open spec fn view(&self) -> RejectModel {
        RejectModel { message: self.message@, ccode: self.ccode, reason: self.reason@, data: self.data@ }
    }
}

impl RejectModel {
    pub open spec fn wf(self) -> bool {
        encode_utf8(self.message).len() <= u64::MAX && encode_utf8(self.reason).len() <= u64::MAX
    }
}

pub open spec fn reject_bytes(r: RejectModel) -> Seq<u8> {
    varstr_bytes(r.message) + seq![ccode_byte(r.ccode)] + varstr_bytes(r.reason) + r.data
}

/// Reads a reject payload; the data is whatever follows the reason.
pub open spec fn parse_reject(s: Seq<u8>) -> Result<(RejectModel, nat), DecodeError> {
    match parse_varstr(s) {
        Err(e) => Err(e),
        Ok((message, k1)) => match parse_ccode(s.skip(k1 as int)) {
            Err(e) => Err(e),
            Ok((ccode, k2)) => match parse_varstr(s.skip((k1 + k2) as int)) {
                Err(e) => Err(e),
                Ok((reason, k3)) => Ok((
                    RejectModel { message, ccode, reason, data: s.skip((k1 + k2 + k3) as int) },
                    s.len(),
                )),
            },
        },
    }
}

impl Reject {
    pub fn encode(&self, buf: &mut Vec<u8>)
        ensures
            final(buf)@ == old(buf)@ + reject_bytes(self@),
    {
        self.message.encode(buf);
        self.ccode.encode(buf);
        self.reason.encode(buf);
        put_slice(buf, self.data.as_slice());
        assert(buf@ =~= old(buf)@ + reject_bytes(self@));
    }

    pub fn decode(bytes: &[u8]) -> (r: Result<(Reject, usize), DecodeError>)
        ensures
            agrees(r, parse_reject(bytes@)),
    {
        let len = bytes.len();
        let (message, k1) = VarStr::decode(bytes)?;
        assert(bytes@.subrange(k1 as int, len as int) =~= bytes@.skip(k1 as int));
        let (ccode, k2) = CCode::decode(&bytes[k1..len])?;
        let p = k1 + k2;
        assert(bytes@.subrange(p as int, len as int) =~= bytes@.skip(p as int));
        let (reason, k3) = VarStr::decode(&bytes[p..len])?;
        let q = p + k3;
        let data = vstd::slice::slice_to_vec(&bytes[q..len]);
        assert(data@ =~= bytes@.skip(q as int));
        Ok((Reject { message, ccode, reason, data }, len))
    }
}

pub proof fn lemma_reject_round_trip(r: RejectModel)
    requires
        r.wf(),
    ensures
        parse_reject(reject_bytes(r)) == Ok::<(RejectModel, nat), DecodeError>((r, reject_bytes(r).len())),
{
    let a = varstr_bytes(r.message);
    let b = seq![ccode_byte(r.ccode)];
    let c = varstr_bytes(r.reason);
    let s = reject_bytes(r);
    assert(s =~= a + (b + c + r.data));
    lemma_varstr_round_trip(r.message, b + c + r.data);
    assert(s.skip(a.len() as int) =~= b + c + r.data);
    lemma_ccode_byte_injective(r.ccode);
    assert(s.skip((a.len() + 1) as int) =~= c + r.data);
    lemma_varstr_round_trip(r.reason, r.data);
    assert(s.skip((a.len() + 1 + c.len()) as int) =~= r.data);
}

} // verus!
