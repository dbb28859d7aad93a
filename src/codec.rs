//! Primitive encodings: compact-size integers, length-prefixed strings,
//! nonces and 32-byte hashes.

use vstd::bytes::*;
use vstd::prelude::*;
use vstd::utf8::*;
use crate::external::{array_from_slice, random_u64, string_from_utf8};

verus! {

/// Why a byte sequence could not be decoded.
#[derive(Debug, Clone, Copy, PartialEq, Eq, Structural)]
pub enum DecodeError {
    /// A field runs past the end of the available bytes.
    UnexpectedEnd,
    /// A string's bytes are not valid UTF-8.
    InvalidUtf8,
    /// A reject code byte that names no known reason.
    InvalidCCode(u8),
    /// An inventory kind that names no known object kind.
    InvalidInvKind(u32),
    /// The envelope's magic bytes are not those of the expected network.
    BadMagic,
    /// The envelope's checksum does not match its payload.
    ChecksumMismatch,
    /// The envelope is shorter than its header or its declared length.
    TruncatedFrame,
}

impl DecodeError {
    pub open spec fn spec_is_fatal(self) -> bool {
        self is BadMagic || self is ChecksumMismatch || self is TruncatedFrame
    }

    /// Framing errors leave the byte stream untrustworthy; the others concern
    /// one well-framed payload only.
    pub fn is_fatal(&self) -> (r: bool)
        ensures
            r == self.spec_is_fatal(),
    {
        match self {
            DecodeError::BadMagic | DecodeError::ChecksumMismatch | DecodeError::TruncatedFrame => true,
            _ => false,
        }
    }
}

/// Appends `bytes` to `buf`.
pub fn put_slice(buf: &mut Vec<u8>, bytes: &[u8])
    ensures
        final(buf)@ == old(buf)@ + bytes@,
{
    let mut i: usize = 0;
    while i < bytes.len()
        invariant
            0 <= i <= bytes@.len(),
            buf@ == old(buf)@ + bytes@.subrange(0, i as int),
        decreases bytes@.len() - i,
    {
        buf.push(bytes[i]);
        i = i + 1;
        assert(buf@ =~= old(buf)@ + bytes@.subrange(0, i as int));
    }
    assert(bytes@.subrange(0, i as int) =~= bytes@);
}

/// The compact-size form of `v`: the shortest of the four widths that holds it.
pub open spec fn varint_bytes(v: u64) -> Seq<u8> {
    if v <= 0xfc {
        seq![v as u8]
    } else if v <= 0xffff {
        seq![0xfdu8] + spec_u16_to_le_bytes(v as u16)
    } else if v <= 0xffff_ffff {
        seq![0xfeu8] + spec_u32_to_le_bytes(v as u32)
    } else {
        seq![0xffu8] + spec_u64_to_le_bytes(v)
    }
}

/// Reads a compact-size integer from the front of `s`: the value and the
/// number of bytes it took.
pub open spec fn parse_varint(s: Seq<u8>) -> Result<(u64, nat), DecodeError> {
    if s.len() < 1 {
        Err(DecodeError::UnexpectedEnd)
    } else if s[0] <= 0xfc {
        Ok((s[0] as u64, 1))
    } else if s[0] == 0xfd {
        if s.len() < 3 {
            Err(DecodeError::UnexpectedEnd)
        } else {
            Ok((spec_u16_from_le_bytes(s.subrange(1, 3)) as u64, 3))
        }
    } else if s[0] == 0xfe {
        if s.len() < 5 {
            Err(DecodeError::UnexpectedEnd)
        } else {
            Ok((spec_u32_from_le_bytes(s.subrange(1, 5)) as u64, 5))
        }
    } else {
        if s.len() < 9 {
            Err(DecodeError::UnexpectedEnd)
        } else {
            Ok((spec_u64_from_le_bytes(s.subrange(1, 9)), 9))
        }
    }
}

/// The result of an executable decoder agrees with a spec-level parse: the
/// same error, or the same value (seen through its view) and width.
pub open spec fn agrees<T: View>(r: Result<(T, usize), DecodeError>, p: Result<(T::V, nat), DecodeError>) -> bool {
    match r {
        Ok((v, n)) => p == Ok::<(T::V, nat), DecodeError>((v@, n as nat)),
        Err(e) => p == Err::<(T::V, nat), DecodeError>(e),
    }
}

/// A compact-size integer.
#[derive(Debug, Clone, Copy, PartialEq, Eq, Structural)]
pub struct VarInt(pub u64);

impl View for VarInt {
    type V = u64;

    open spec fn view(&self) -> u64 {
        self.0
    }
}

impl VarInt {
    /// Appends the compact-size form of the value; returns its width.
    pub fn encode(&self, buf: &mut Vec<u8>) -> (n: usize)
        ensures
            final(buf)@ == old(buf)@ + varint_bytes(self.0),
            n == varint_bytes(self.0).len(),
    {
        proof {
            lemma_auto_spec_u16_to_from_le_bytes();
            lemma_auto_spec_u32_to_from_le_bytes();
            lemma_auto_spec_u64_to_from_le_bytes();
        }
        let v = self.0;
        if v <= 0xfc {
            buf.push(v as u8);
            1
        } else if v <= 0xffff {
            buf.push(0xfd);
            let b = u16_to_le_bytes(v as u16);
            put_slice(buf, b.as_slice());
            3
        } else if v <= 0xffff_ffff {
            buf.push(0xfe);
            let b = u32_to_le_bytes(v as u32);
            put_slice(buf, b.as_slice());
            5
        } else {
            buf.push(0xff);
            let b = u64_to_le_bytes(v);
            put_slice(buf, b.as_slice());
            9
        }
    }

    /// Reads a compact-size integer from the front of `bytes`; the first
    /// byte alone decides the width, so wider forms than needed are read too.
    pub fn decode(bytes: &[u8]) -> (r: Result<(VarInt, usize), DecodeError>)
        ensures
            agrees(r, parse_varint(bytes@)),
            r is Ok ==> r->Ok_0.1 <= bytes@.len(),
    {
        if bytes.len() < 1 {
            return Err(DecodeError::UnexpectedEnd);
        }
        let flag = bytes[0];
        if flag <= 0xfc {
            Ok((VarInt(flag as u64), 1))
        } else if flag == 0xfd {
            if bytes.len() < 3 {
                return Err(DecodeError::UnexpectedEnd);
            }
            Ok((VarInt(u16_from_le_bytes(&bytes[1..3]) as u64), 3))
        } else if flag == 0xfe {
            if bytes.len() < 5 {
                return Err(DecodeError::UnexpectedEnd);
            }
            Ok((VarInt(u32_from_le_bytes(&bytes[1..5]) as u64), 5))
        } else {
            if bytes.len() < 9 {
                return Err(DecodeError::UnexpectedEnd);
            }
            Ok((VarInt(u64_from_le_bytes(&bytes[1..9])), 9))
        }
    }
}

/// Decoding the compact-size form of any value, followed by anything, gives
/// back the value and the form's width.
pub proof fn lemma_varint_round_trip(v: u64, rest: Seq<u8>)
    ensures
        parse_varint(varint_bytes(v) + rest) == Ok::<(u64, nat), DecodeError>((v, varint_bytes(v).len())),
{
    lemma_auto_spec_u16_to_from_le_bytes();
    lemma_auto_spec_u32_to_from_le_bytes();
    lemma_auto_spec_u64_to_from_le_bytes();
    let s = varint_bytes(v) + rest;
    if v <= 0xfc {
    } else if v <= 0xffff {
        assert(s.subrange(1, 3) =~= spec_u16_to_le_bytes(v as u16));
    } else if v <= 0xffff_ffff {
        assert(s.subrange(1, 5) =~= spec_u32_to_le_bytes(v as u32));
    } else {
        assert(s.subrange(1, 9) =~= spec_u64_to_le_bytes(v));
    }
}


/// The width of a compact-size integer is set by its value alone: one byte
/// up to `0xfc`, three up to `0xffff`, five up to `0xffff_ffff`, nine above.
pub proof fn lemma_varint_width(v: u64)
    ensures
        varint_bytes(v).len() == if v <= 0xfc {
            1nat
        } else if v <= 0xffff {
            3nat
        } else if v <= 0xffff_ffff {
            5nat
        } else {
            9nat
        },
{
    lemma_auto_spec_u16_to_from_le_bytes();
    lemma_auto_spec_u32_to_from_le_bytes();
    lemma_auto_spec_u64_to_from_le_bytes();
}

/// The first byte alone fixes how many bytes a compact-size integer takes:
/// one for `0x00..=0xfc`, three after `0xfd`, five after `0xfe`, nine after
/// `0xff`, whatever the value that follows.
pub proof fn lemma_varint_width_from_flag(s: Seq<u8>)
    requires
        parse_varint(s) is Ok,
    ensures
        parse_varint(s)->Ok_0.1 == if s[0] <= 0xfc {
            1nat
        } else if s[0] == 0xfd {
            3nat
        } else if s[0] == 0xfe {
            5nat
        } else {
            9nat
        },
{
}

/// Reads one byte from the front of `s`.
pub open spec fn parse_u8(s: Seq<u8>) -> Result<(u8, nat), DecodeError> {
    if s.len() < 1 {
        Err(DecodeError::UnexpectedEnd)
    } else {
        Ok((s[0], 1))
    }
}

/// Reads a little-endian `u32` from the front of `s`.
pub open spec fn parse_u32(s: Seq<u8>) -> Result<(u32, nat), DecodeError> {
    if s.len() < 4 {
        Err(DecodeError::UnexpectedEnd)
    } else {
        Ok((spec_u32_from_le_bytes(s.subrange(0, 4)), 4))
    }
}

/// Reads a little-endian `u64` from the front of `s`.
pub open spec fn parse_u64(s: Seq<u8>) -> Result<(u64, nat), DecodeError> {
    if s.len() < 8 {
        Err(DecodeError::UnexpectedEnd)
    } else {
        Ok((spec_u64_from_le_bytes(s.subrange(0, 8)), 8))
    }
}

/// Reads `n` raw bytes from the front of `s`.
pub open spec fn parse_raw(s: Seq<u8>, n: nat) -> Result<(Seq<u8>, nat), DecodeError> {
    if s.len() < n {
        Err(DecodeError::UnexpectedEnd)
    } else {
        Ok((s.subrange(0, n as int), n))
    }
}

pub fn read_u8(bytes: &[u8]) -> (r: Result<(u8, usize), DecodeError>)
    ensures
        agrees(r, parse_u8(bytes@)),
{
    if bytes.len() < 1 {
        Err(DecodeError::UnexpectedEnd)
    } else {
        Ok((bytes[0], 1))
    }
}

pub fn read_u32(bytes: &[u8]) -> (r: Result<(u32, usize), DecodeError>)
    ensures
        agrees(r, parse_u32(bytes@)),
{
    if bytes.len() < 4 {
        Err(DecodeError::UnexpectedEnd)
    } else {
        Ok((u32_from_le_bytes(&bytes[0..4]), 4))
    }
}

pub fn read_u64(bytes: &[u8]) -> (r: Result<(u64, usize), DecodeError>)
    ensures
        agrees(r, parse_u64(bytes@)),
{
    if bytes.len() < 8 {
        Err(DecodeError::UnexpectedEnd)
    } else {
        Ok((u64_from_le_bytes(&bytes[0..8]), 8))
    }
}

pub fn put_u32(buf: &mut Vec<u8>, v: u32)
    ensures
        final(buf)@ == old(buf)@ + spec_u32_to_le_bytes(v),
{
    let b = u32_to_le_bytes(v);
    put_slice(buf, b.as_slice());
}

pub fn put_u64(buf: &mut Vec<u8>, v: u64)
    ensures
        final(buf)@ == old(buf)@ + spec_u64_to_le_bytes(v),
{
    let b = u64_to_le_bytes(v);
    put_slice(buf, b.as_slice());
}

/// The length-prefixed form of a byte string.
pub open spec fn var_bytes(b: Seq<u8>) -> Seq<u8> {
    varint_bytes(b.len() as u64) + b
}

/// Reads a compact-size length and then that many bytes.
pub open spec fn parse_var_bytes(s: Seq<u8>) -> Result<(Seq<u8>, nat), DecodeError> {
    match parse_varint(s) {
        Err(e) => Err(e),
        Ok((n, k)) => if s.len() - k < n {
            Err(DecodeError::UnexpectedEnd)
        } else {
            Ok((s.subrange(k as int, k + n), (k + n) as nat))
        },
    }
}

/// Appends a compact-size length and then the bytes.
pub fn put_var_bytes(buf: &mut Vec<u8>, b: &[u8])
    ensures
        final(buf)@ == old(buf)@ + var_bytes(b@),
{
    VarInt(b.len() as u64).encode(buf);
    put_slice(buf, b);
    assert(buf@ =~= old(buf)@ + var_bytes(b@));
}

pub fn read_var_bytes(bytes: &[u8]) -> (r: Result<(Vec<u8>, usize), DecodeError>)
    ensures
        agrees(r, parse_var_bytes(bytes@)),
{
    let (n, k) = VarInt::decode(bytes)?;
    if ((bytes.len() - k) as u64) < n.0 {
        return Err(DecodeError::UnexpectedEnd);
    }
    let end = k + n.0 as usize;
    let v = vstd::slice::slice_to_vec(&bytes[k..end]);
    Ok((v, end))
}

pub proof fn lemma_var_bytes_round_trip(b: Seq<u8>, rest: Seq<u8>)
    requires
        b.len() <= u64::MAX,
    ensures
        parse_var_bytes(var_bytes(b) + rest) == Ok::<(Seq<u8>, nat), DecodeError>((b, var_bytes(b).len())),
{
    let n = varint_bytes(b.len() as u64);
    lemma_varint_round_trip(b.len() as u64, b + rest);
    assert(var_bytes(b) + rest =~= n + (b + rest));
    assert((var_bytes(b) + rest).subrange(n.len() as int, (n.len() + b.len()) as int) =~= b);
}


/// A length-prefixed UTF-8 string.
#[derive(Debug, Clone)]
pub struct VarStr(pub String);

impl View for VarStr {
    type V = Seq<char>;

    open spec fn view(&self) -> Seq<char> {
        self.0@
    }
}

/// The wire form of a string: the length of its UTF-8 bytes, then the bytes.
pub open spec fn varstr_bytes(c: Seq<char>) -> Seq<u8> {
    var_bytes(encode_utf8(c))
}

/// Reads a length-prefixed string; bytes that are not UTF-8 are refused.
pub open spec fn parse_varstr(s: Seq<u8>) -> Result<(Seq<char>, nat), DecodeError> {
    match parse_var_bytes(s) {
        Err(e) => Err(e),
        Ok((b, n)) => if valid_utf8(b) {
            Ok((decode_utf8(b), n))
        } else {
            Err(DecodeError::InvalidUtf8)
        },
    }
}

impl VarStr {
    pub fn new(s: String) -> (r: VarStr)
        ensures
            r@ == s@,
    {
        VarStr(s)
    }

    pub fn encode(&self, buf: &mut Vec<u8>)
        ensures
            final(buf)@ == old(buf)@ + varstr_bytes(self@),
    {
        let b = self.0.as_str().as_bytes();
        put_var_bytes(buf, b);
    }

    pub fn decode(bytes: &[u8]) -> (r: Result<(VarStr, usize), DecodeError>)
        ensures
            agrees(r, parse_varstr(bytes@)),
    {
        let (v, n) = read_var_bytes(bytes)?;
        match string_from_utf8(v) {
            Some(s) => Ok((VarStr(s), n)),
            None => Err(DecodeError::InvalidUtf8),
        }
    }
}

pub proof fn lemma_varstr_round_trip(c: Seq<char>, rest: Seq<u8>)
    requires
        encode_utf8(c).len() <= u64::MAX,
    ensures
        parse_varstr(varstr_bytes(c) + rest) == Ok::<(Seq<char>, nat), DecodeError>((c, varstr_bytes(c).len())),
{
    broadcast use encode_utf8_valid_utf8, encode_utf8_decode_utf8;

    lemma_var_bytes_round_trip(encode_utf8(c), rest);
}

/// An 8-byte value used to detect self-connections and to pair pings with
/// pongs.
#[derive(Debug, Clone, Copy, PartialEq, Eq, Structural)]
pub struct Nonce(pub u64);

impl View for Nonce {
    type V = u64;

    open spec fn view(&self) -> u64 {
        self.0
    }
}

impl Nonce {
    pub fn new(value: u64) -> (r: Nonce)
        ensures
            r@ == value,
    {
        Nonce(value)
    }

    /// A nonce drawn from the thread's random number generator.
    pub fn random() -> (r: Nonce) {
        Nonce(random_u64())
    }

    pub fn value(&self) -> (r: u64)
        ensures
            r == self@,
    {
        self.0
    }

    pub fn encode(&self, buf: &mut Vec<u8>)
        ensures
            final(buf)@ == old(buf)@ + spec_u64_to_le_bytes(self@),
    {
        put_u64(buf, self.0);
    }

    pub fn decode(bytes: &[u8]) -> (r: Result<(Nonce, usize), DecodeError>)
        ensures
            agrees(r, parse_u64(bytes@)),
    {
        let (v, n) = read_u64(bytes)?;
        Ok((Nonce(v), n))
    }
}

impl Default for Nonce {
    /// A random nonce.
    fn default() -> Nonce {
        Nonce::random()
    }
}

/// A 32-byte digest; the all-zero hash means "no constraint" in locator
/// ranges.
#[derive(Debug, Clone, Copy, PartialEq, Eq)]
pub struct Hash256(pub [u8; 32]);

impl View for Hash256 {
    type V = Seq<u8>;

    open spec fn view(&self) -> Seq<u8> {
        self.0@
    }
}

/// Whether every byte of a hash is zero.
pub open spec fn is_zero_hash(h: Seq<u8>) -> bool {
    forall|i: int| 0 <= i < h.len() ==> h[i] == 0
}

impl Hash256 {
    pub fn zeroed() -> (r: Hash256)
        ensures
            r@.len() == 32,
            is_zero_hash(r@),
    {
        Hash256([0u8; 32])
    }

    pub fn is_zero(&self) -> (r: bool)
        ensures
            r == is_zero_hash(self@),
    {
        let mut i: usize = 0;
        while i < 32
            invariant
                0 <= i <= 32,
                self@.len() == 32,
                forall|j: int| 0 <= j < i ==> self@[j] == 0,
            decreases 32 - i,
        {
            if self.0[i] != 0 {
                return false;
            }
            i = i + 1;
        }
        true
    }

    pub fn encode(&self, buf: &mut Vec<u8>)
        ensures
            final(buf)@ == old(buf)@ + self@,
    {
        put_slice(buf, self.0.as_slice());
    }

    pub fn decode(bytes: &[u8]) -> (r: Result<(Hash256, usize), DecodeError>)
        ensures
            agrees(r, parse_raw(bytes@, 32)),
    {
        if bytes.len() < 32 {
            return Err(DecodeError::UnexpectedEnd);
        }
        let a: [u8; 32] = array_from_slice(&bytes[0..32]);
        Ok((Hash256(a), 32))
    }

    /// Whether two hashes hold the same bytes.
    pub fn same(&self, other: &Hash256) -> (r: bool)
        ensures
            r == (self@ == other@),
    {
        let mut i: usize = 0;
        while i < 32
            invariant
                0 <= i <= 32,
                self@.len() == 32,
                other@.len() == 32,
                forall|j: int| 0 <= j < i ==> self@[j] == other@[j],
            decreases 32 - i,
        {
            if self.0[i] != other.0[i] {
                return false;
            }
            i = i + 1;
        }
        assert(self@ =~= other@);
        true
    }
}

} // verus!
