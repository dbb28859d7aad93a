//! The remaining payload types: address lists, locator ranges, block headers
//! and blocks, and bloom-filter payloads.

use vstd::bytes::*;
use vstd::prelude::*;
use crate::addr::{addr_bytes, lemma_addr_round_trip, parse_addr, AddrModel, NetworkAddr};
use crate::codec::{
    agrees, lemma_var_bytes_round_trip, lemma_varint_round_trip, parse_raw, parse_var_bytes,
    parse_varint, put_slice, put_u32, put_var_bytes, read_var_bytes, var_bytes, varint_bytes,
    DecodeError, Hash256, VarInt,
};
use crate::external::{array_from_slice, sha256, sha256_of};
use crate::list::{encode_list, items_view, lemma_list_round_trip, parse_list, put_list, read_list, Wire};

verus! {

impl Wire for NetworkAddr {
    open spec fn parser() -> spec_fn(Seq<u8>) -> Result<(AddrModel, nat), DecodeError> {
        |s: Seq<u8>| parse_addr(s, true)
    }

    open spec fn encoder() -> spec_fn(AddrModel) -> Seq<u8> {
        |a: AddrModel| addr_bytes(a)
    }

    fn encode_item(&self, buf: &mut Vec<u8>) {
        self.encode(buf);
    }

    fn decode_item(bytes: &[u8]) -> (r: Result<(NetworkAddr, usize), DecodeError>) {
        NetworkAddr::decode(bytes, true)
    }
}

/// An address-gossip payload: addresses, each with its timestamp.
#[derive(Debug, Clone)]
pub struct Addr(pub Vec<NetworkAddr>);

impl View for Addr {
    type V = Seq<AddrModel>;

    open spec fn view(&self) -> Seq<AddrModel> {
        items_view(self.0@)
    }
}

pub open spec fn addr_list_bytes(v: Seq<AddrModel>) -> Seq<u8> {
    encode_list(NetworkAddr::encoder(), v)
}

pub open spec fn parse_addr_list(s: Seq<u8>) -> Result<(Seq<AddrModel>, nat), DecodeError> {
    parse_list(NetworkAddr::parser(), s)
}

pub open spec fn addr_list_wf(v: Seq<AddrModel>) -> bool {
    v.len() <= u64::MAX && forall|i: int| 0 <= i < v.len() ==> #[trigger] v[i].wf(true)
}

impl Addr {
    pub fn empty() -> (r: Addr)
        ensures
            r@.len() == 0,
    {
        Addr(Vec::new())
    }

    pub fn encode(&self, buf: &mut Vec<u8>)
        ensures
            final(buf)@ == old(buf)@ + addr_list_bytes(self@),
    {
        put_list(buf, &self.0);
    }

    pub fn decode(bytes: &[u8]) -> (r: Result<(Addr, usize), DecodeError>)
        ensures
            agrees(r, parse_addr_list(bytes@)),
    {
        let (v, n) = read_list::<NetworkAddr>(bytes)?;
        Ok((Addr(v), n))
    }
}

pub proof fn lemma_addr_list_round_trip(v: Seq<AddrModel>, rest: Seq<u8>)
    requires
        addr_list_wf(v),
    ensures
        parse_addr_list(addr_list_bytes(v) + rest) == Ok::<(Seq<AddrModel>, nat), DecodeError>(
            (v, addr_list_bytes(v).len()),
        ),
{
    assert forall|i: int, r: Seq<u8>| 0 <= i < v.len() implies #[trigger] NetworkAddr::parser()(
        NetworkAddr::encoder()(v[i]) + r,
    ) == Ok::<(AddrModel, nat), DecodeError>((v[i], NetworkAddr::encoder()(v[i]).len())) by {
        lemma_addr_round_trip(v[i], true, r);
    }
    lemma_list_round_trip(NetworkAddr::parser(), NetworkAddr::encoder(), v, rest);
}

impl Wire for Hash256 {
    open spec fn parser() -> spec_fn(Seq<u8>) -> Result<(Seq<u8>, nat), DecodeError> {
        |s: Seq<u8>| parse_raw(s, 32)
    }

    open spec fn encoder() -> spec_fn(Seq<u8>) -> Seq<u8> {
        |h: Seq<u8>| h
    }

    fn encode_item(&self, buf: &mut Vec<u8>) {
        self.encode(buf);
    }

    fn decode_item(bytes: &[u8]) -> (r: Result<(Hash256, usize), DecodeError>) {
        Hash256::decode(bytes)
    }
}

/// A range query: known block hashes, most recent first, and the hash to
/// stop at (all zero: no limit).
#[derive(Debug, Clone)]
pub struct LocatorHashes {
    pub version: u32,
    pub block_locator_hashes: Vec<Hash256>,
    pub hash_stop: Hash256,
}

pub struct LocatorModel {
    pub version: u32,
    pub hashes: Seq<Seq<u8>>,
    pub stop: Seq<u8>,
}

impl View for LocatorHashes {
    type V = LocatorModel;

    open spec fn view(&self) -> LocatorModel {
        LocatorModel { version: self.version, hashes: items_view(self.block_locator_hashes@), stop: self.hash_stop@ }
    }
}

impl LocatorModel {
    pub open spec fn wf(self) -> bool {
        &&& self.hashes.len() <= u64::MAX
        &&& forall|i: int| 0 <= i < self.hashes.len() ==> #[trigger] self.hashes[i].len() == 32
        &&& self.stop.len() == 32
    }
}

pub open spec fn locator_bytes(l: LocatorModel) -> Seq<u8> {
    spec_u32_to_le_bytes(l.version) + encode_list(Hash256::encoder(), l.hashes) + l.stop
}

pub open spec fn parse_locator(s: Seq<u8>) -> Result<(LocatorModel, nat), DecodeError> {
    if s.len() < 4 {
        Err(DecodeError::UnexpectedEnd)
    } else {
        match parse_list(Hash256::parser(), s.skip(4)) {
            Err(e) => Err(e),
            Ok((hashes, k)) => if s.len() < 4 + k + 32 {
                Err(DecodeError::UnexpectedEnd)
            } else {
                Ok((
                    LocatorModel {
                        version: spec_u32_from_le_bytes(s.subrange(0, 4)),
                        hashes,
                        stop: s.subrange(4 + k as int, 36 + k as int),
                    },
                    36 + k,
                ))
            },
        }
    }
}

impl LocatorHashes {
    pub fn new(version: u32, block_locator_hashes: Vec<Hash256>, hash_stop: Hash256) -> (r: LocatorHashes)
        ensures
            r.version == version,
            r.block_locator_hashes@ == block_locator_hashes@,
            r.hash_stop == hash_stop,
    {
        LocatorHashes { version, block_locator_hashes, hash_stop }
    }

    pub fn encode(&self, buf: &mut Vec<u8>)
        ensures
            final(buf)@ == old(buf)@ + locator_bytes(self@),
    {
        put_u32(buf, self.version);
        put_list(buf, &self.block_locator_hashes);
        self.hash_stop.encode(buf);
        assert(buf@ =~= old(buf)@ + locator_bytes(self@));
    }

    pub fn decode(bytes: &[u8]) -> (r: Result<(LocatorHashes, usize), DecodeError>)
        ensures
            agrees(r, parse_locator(bytes@)),
    {
        let len = bytes.len();
        if len < 4 {
            return Err(DecodeError::UnexpectedEnd);
        }
        let version = u32_from_le_bytes(&bytes[0..4]);
        assert(bytes@.subrange(4, len as int) =~= bytes@.skip(4));
        let (hashes, k) = read_list::<Hash256>(&bytes[4..len])?;
        if len - 4 < k || len - 4 - k < 32 {
            return Err(DecodeError::UnexpectedEnd);
        }
        let hash_stop = Hash256(array_from_slice(&bytes[4 + k..36 + k]));
        Ok((LocatorHashes { version, block_locator_hashes: hashes, hash_stop }, 36 + k))
    }
}

pub proof fn lemma_locator_round_trip(l: LocatorModel, rest: Seq<u8>)
    requires
        l.wf(),
    ensures
        parse_locator(locator_bytes(l) + rest) == Ok::<(LocatorModel, nat), DecodeError>(
            (l, locator_bytes(l).len()),
        ),
{
    lemma_auto_spec_u32_to_from_le_bytes();
    let list = encode_list(Hash256::encoder(), l.hashes);
    let s = locator_bytes(l) + rest;
    assert forall|i: int, r: Seq<u8>| 0 <= i < l.hashes.len() implies #[trigger] Hash256::parser()(
        Hash256::encoder()(l.hashes[i]) + r,
    ) == Ok::<(Seq<u8>, nat), DecodeError>((l.hashes[i], Hash256::encoder()(l.hashes[i]).len())) by {
        assert((l.hashes[i] + r).subrange(0, 32) =~= l.hashes[i]);
    }
    lemma_list_round_trip(Hash256::parser(), Hash256::encoder(), l.hashes, l.stop + rest);
    assert(s.subrange(0, 4) =~= spec_u32_to_le_bytes(l.version));
    assert(s.skip(4) =~= list + (l.stop + rest));
    assert(s.subrange(4 + list.len() as int, 36 + list.len() as int) =~= l.stop);
}

/// A block header.
#[derive(Debug, Clone)]
pub struct Header {
    pub version: u32,
    pub prev_block: Hash256,
    pub merkle_root: Hash256,
    pub light_client_root: Hash256,
    pub timestamp: u32,
    pub bits: u32,
    pub nonce: Hash256,
    pub solution: Vec<u8>,
}

pub struct HeaderModel {
    pub version: u32,
    pub prev_block: Seq<u8>,
    pub merkle_root: Seq<u8>,
    pub light_client_root: Seq<u8>,
    pub timestamp: u32,
    pub bits: u32,
    pub nonce: Seq<u8>,
    pub solution: Seq<u8>,
}

impl View for Header {
    type V = HeaderModel;

    open spec fn view(&self) -> HeaderModel {
        HeaderModel {
            version: self.version,
            prev_block: self.prev_block@,
            merkle_root: self.merkle_root@,
            light_client_root: self.light_client_root@,
            timestamp: self.timestamp,
            bits: self.bits,
            nonce: self.nonce@,
            solution: self.solution@,
        }
    }
}

impl HeaderModel {
    pub open spec fn wf(self) -> bool {
        &&& self.prev_block.len() == 32
        &&& self.merkle_root.len() == 32
        &&& self.light_client_root.len() == 32
        &&& self.nonce.len() == 32
        &&& self.solution.len() <= u64::MAX
    }
}

/// The 140 bytes before the solution.
pub open spec fn header_head_bytes(h: HeaderModel) -> Seq<u8> {
    spec_u32_to_le_bytes(h.version) + h.prev_block + h.merkle_root + h.light_client_root
        + spec_u32_to_le_bytes(h.timestamp) + spec_u32_to_le_bytes(h.bits) + h.nonce
}

pub open spec fn header_bytes(h: HeaderModel) -> Seq<u8> {
    header_head_bytes(h) + var_bytes(h.solution)
}

pub open spec fn parse_header(s: Seq<u8>) -> Result<(HeaderModel, nat), DecodeError> {
    if s.len() < 140 {
        Err(DecodeError::UnexpectedEnd)
    } else {
        match parse_var_bytes(s.skip(140)) {
            Err(e) => Err(e),
            Ok((solution, k)) => Ok((
                HeaderModel {
                    version: spec_u32_from_le_bytes(s.subrange(0, 4)),
                    prev_block: s.subrange(4, 36),
                    merkle_root: s.subrange(36, 68),
                    light_client_root: s.subrange(68, 100),
                    timestamp: spec_u32_from_le_bytes(s.subrange(100, 104)),
                    bits: spec_u32_from_le_bytes(s.subrange(104, 108)),
                    nonce: s.subrange(108, 140),
                    solution,
                },
                140 + k,
            )),
        }
    }
}

/// A header as a headers payload lists it: followed by a transaction count,
/// which is read and set aside.
pub open spec fn parse_header_entry(s: Seq<u8>) -> Result<(HeaderModel, nat), DecodeError> {
    match parse_header(s) {
        Err(e) => Err(e),
        Ok((h, n)) => match parse_varint(s.skip(n as int)) {
            Err(e) => Err(e),
            Ok((_, k)) => Ok((h, n + k)),
        },
    }
}

pub open spec fn header_entry_bytes(h: HeaderModel) -> Seq<u8> {
    header_bytes(h) + varint_bytes(0)
}

impl Header {
    pub fn encode(&self, buf: &mut Vec<u8>)
        ensures
            final(buf)@ == old(buf)@ + header_bytes(self@),
    {
        put_u32(buf, self.version);
        self.prev_block.encode(buf);
        self.merkle_root.encode(buf);
        self.light_client_root.encode(buf);
        put_u32(buf, self.timestamp);
        put_u32(buf, self.bits);
        self.nonce.encode(buf);
        put_var_bytes(buf, self.solution.as_slice());
        assert(buf@ =~= old(buf)@ + header_bytes(self@));
    }

    pub fn decode(bytes: &[u8]) -> (r: Result<(Header, usize), DecodeError>)
        ensures
            agrees(r, parse_header(bytes@)),
            r is Ok ==> r->Ok_0.1 <= bytes@.len(),
    {
        let len = bytes.len();
        if len < 140 {
            return Err(DecodeError::UnexpectedEnd);
        }
        let version = u32_from_le_bytes(&bytes[0..4]);
        let prev_block = Hash256(array_from_slice(&bytes[4..36]));
        let merkle_root = Hash256(array_from_slice(&bytes[36..68]));
        let light_client_root = Hash256(array_from_slice(&bytes[68..100]));
        let timestamp = u32_from_le_bytes(&bytes[100..104]);
        let bits = u32_from_le_bytes(&bytes[104..108]);
        let nonce = Hash256(array_from_slice(&bytes[108..140]));
        assert(bytes@.subrange(140, len as int) =~= bytes@.skip(140));
        let (solution, k) = read_var_bytes(&bytes[140..len])?;
        let h = Header { version, prev_block, merkle_root, light_client_root, timestamp, bits, nonce, solution };
        Ok((h, 140 + k))
    }
}

impl Header {
    /// The block hash: SHA-256 applied twice to the header's wire form.
    pub fn block_hash(&self) -> (r: Hash256)
        ensures
            r@ == sha256_of(sha256_of(header_bytes(self@))),
    {
        let mut bytes: Vec<u8> = Vec::new();
        self.encode(&mut bytes);
        assert(bytes@ =~= header_bytes(self@));
        let first = sha256(bytes.as_slice());
        let second = sha256(first.as_slice());
        Hash256(array_from_slice(second.as_slice()))
    }
}

pub proof fn lemma_header_round_trip(h: HeaderModel, rest: Seq<u8>)
    requires
        h.wf(),
    ensures
        parse_header(header_bytes(h) + rest) == Ok::<(HeaderModel, nat), DecodeError>((h, header_bytes(h).len())),
{
    lemma_auto_spec_u32_to_from_le_bytes();
    let head = header_head_bytes(h);
    let s = header_bytes(h) + rest;
    assert(s =~= head + (var_bytes(h.solution) + rest));
    assert(s.subrange(0, 4) =~= spec_u32_to_le_bytes(h.version));
    assert(s.subrange(4, 36) =~= h.prev_block);
    assert(s.subrange(36, 68) =~= h.merkle_root);
    assert(s.subrange(68, 100) =~= h.light_client_root);
    assert(s.subrange(100, 104) =~= spec_u32_to_le_bytes(h.timestamp));
    assert(s.subrange(104, 108) =~= spec_u32_to_le_bytes(h.bits));
    assert(s.subrange(108, 140) =~= h.nonce);
    assert(s.skip(140) =~= var_bytes(h.solution) + rest);
    lemma_var_bytes_round_trip(h.solution, rest);
}

impl Wire for Header {
    open spec fn parser() -> spec_fn(Seq<u8>) -> Result<(HeaderModel, nat), DecodeError> {
        |s: Seq<u8>| parse_header_entry(s)
    }

    open spec fn encoder() -> spec_fn(HeaderModel) -> Seq<u8> {
        |h: HeaderModel| header_entry_bytes(h)
    }

    fn encode_item(&self, buf: &mut Vec<u8>) {
        self.encode(buf);
        VarInt(0).encode(buf);
        assert(buf@ =~= old(buf)@ + header_entry_bytes(self@));
    }

    fn decode_item(bytes: &[u8]) -> (r: Result<(Header, usize), DecodeError>) {
        let len = bytes.len();
        let (h, n) = Header::decode(bytes)?;
        assert(bytes@.subrange(n as int, len as int) =~= bytes@.skip(n as int));
        let (_, k) = VarInt::decode(&bytes[n..len])?;
        Ok((h, n + k))
    }
}

/// A headers payload.
#[derive(Debug, Clone)]
pub struct Headers(pub Vec<Header>);

impl View for Headers {
    type V = Seq<HeaderModel>;

    open spec fn view(&self) -> Seq<HeaderModel> {
        items_view(self.0@)
    }
}

pub open spec fn headers_bytes(v: Seq<HeaderModel>) -> Seq<u8> {
    encode_list(Header::encoder(), v)
}

pub open spec fn parse_headers(s: Seq<u8>) -> Result<(Seq<HeaderModel>, nat), DecodeError> {
    parse_list(Header::parser(), s)
}

pub open spec fn headers_wf(v: Seq<HeaderModel>) -> bool {
    v.len() <= u64::MAX && forall|i: int| 0 <= i < v.len() ==> #[trigger] v[i].wf()
}

impl Headers {
    pub fn empty() -> (r: Headers)
        ensures
            r@.len() == 0,
    {
        Headers(Vec::new())
    }

    pub fn encode(&self, buf: &mut Vec<u8>)
        ensures
            final(buf)@ == old(buf)@ + headers_bytes(self@),
    {
        put_list(buf, &self.0);
    }

    pub fn decode(bytes: &[u8]) -> (r: Result<(Headers, usize), DecodeError>)
        ensures
            agrees(r, parse_headers(bytes@)),
    {
        let (v, n) = read_list::<Header>(bytes)?;
        Ok((Headers(v), n))
    }
}

pub proof fn lemma_headers_round_trip(v: Seq<HeaderModel>, rest: Seq<u8>)
    requires
        headers_wf(v),
    ensures
        parse_headers(headers_bytes(v) + rest) == Ok::<(Seq<HeaderModel>, nat), DecodeError>(
            (v, headers_bytes(v).len()),
        ),
{
    assert forall|i: int, r: Seq<u8>| 0 <= i < v.len() implies #[trigger] Header::parser()(
        Header::encoder()(v[i]) + r,
    ) == Ok::<(HeaderModel, nat), DecodeError>((v[i], Header::encoder()(v[i]).len())) by {
        let hb = header_bytes(v[i]);
        let s = header_entry_bytes(v[i]) + r;
        assert(s =~= hb + (varint_bytes(0) + r));
        lemma_header_round_trip(v[i], varint_bytes(0) + r);
        assert(s.skip(hb.len() as int) =~= varint_bytes(0) + r);
        lemma_varint_round_trip(0, r);
    }
    lemma_list_round_trip(Header::parser(), Header::encoder(), v, rest);
}

/// A block: its header, then its transactions, carried as their wire bytes.
#[derive(Debug, Clone)]
pub struct Block {
    pub header: Header,
    pub transactions: Vec<u8>,
}

pub struct BlockModel {
    pub header: HeaderModel,
    pub transactions: Seq<u8>,
}

impl View for Block {
    type V = BlockModel;

    open spec fn view(&self) -> BlockModel {
        BlockModel { header: self.header@, transactions: self.transactions@ }
    }
}

pub open spec fn block_bytes(b: BlockModel) -> Seq<u8> {
    header_bytes(b.header) + b.transactions
}

/// Reads a block: a header, and whatever follows it as the transactions.
pub open spec fn parse_block(s: Seq<u8>) -> Result<(BlockModel, nat), DecodeError> {
    match parse_header(s) {
        Err(e) => Err(e),
        Ok((header, n)) => Ok((BlockModel { header, transactions: s.skip(n as int) }, s.len())),
    }
}

impl Block {
    pub fn encode(&self, buf: &mut Vec<u8>)
        ensures
            final(buf)@ == old(buf)@ + block_bytes(self@),
    {
        self.header.encode(buf);
        put_slice(buf, self.transactions.as_slice());
        assert(buf@ =~= old(buf)@ + block_bytes(self@));
    }

    pub fn decode(bytes: &[u8]) -> (r: Result<(Block, usize), DecodeError>)
        ensures
            agrees(r, parse_block(bytes@)),
    {
        let len = bytes.len();
        let (header, n) = Header::decode(bytes)?;
        let transactions = vstd::slice::slice_to_vec(&bytes[n..len]);
        assert(transactions@ =~= bytes@.skip(n as int));
        Ok((Block { header, transactions }, len))
    }
}

pub proof fn lemma_block_round_trip(b: BlockModel)
    requires
        b.header.wf(),
    ensures
        parse_block(block_bytes(b)) == Ok::<(BlockModel, nat), DecodeError>((b, block_bytes(b).len())),
{
    lemma_header_round_trip(b.header, b.transactions);
    assert(block_bytes(b).skip(header_bytes(b.header).len() as int) =~= b.transactions);
}

/// A bloom filter to load: its bits, hash-function count, tweak and flags.
#[derive(Debug, Clone)]
pub struct FilterLoad {
    pub filter: Vec<u8>,
    pub hash_fn_count: u32,
    pub tweak: u32,
    pub flags: u8,
}

pub struct FilterLoadModel {
    pub filter: Seq<u8>,
    pub hash_fn_count: u32,
    pub tweak: u32,
    pub flags: u8,
}

impl View for FilterLoad {
    type V = FilterLoadModel;

    open spec fn view(&self) -> FilterLoadModel {
        FilterLoadModel { filter: self.filter@, hash_fn_count: self.hash_fn_count, tweak: self.tweak, flags: self.flags }
    }
}

pub open spec fn filter_load_bytes(f: FilterLoadModel) -> Seq<u8> {
    var_bytes(f.filter) + spec_u32_to_le_bytes(f.hash_fn_count) + spec_u32_to_le_bytes(f.tweak) + seq![f.flags]
}

pub open spec fn parse_filter_load(s: Seq<u8>) -> Result<(FilterLoadModel, nat), DecodeError> {
    match parse_var_bytes(s) {
        Err(e) => Err(e),
        Ok((filter, k)) => if s.len() < k + 9 {
            Err(DecodeError::UnexpectedEnd)
        } else {
            Ok((
                FilterLoadModel {
                    filter,
                    hash_fn_count: spec_u32_from_le_bytes(s.subrange(k as int, k + 4 as int)),
                    tweak: spec_u32_from_le_bytes(s.subrange(k + 4 as int, k + 8 as int)),
                    flags: s[k + 8 as int],
                },
                k + 9,
            ))
        },
    }
}

impl FilterLoad {
    pub fn encode(&self, buf: &mut Vec<u8>)
        ensures
            final(buf)@ == old(buf)@ + filter_load_bytes(self@),
    {
        put_var_bytes(buf, self.filter.as_slice());
        put_u32(buf, self.hash_fn_count);
        put_u32(buf, self.tweak);
        buf.push(self.flags);
        assert(buf@ =~= old(buf)@ + filter_load_bytes(self@));
    }

    pub fn decode(bytes: &[u8]) -> (r: Result<(FilterLoad, usize), DecodeError>)
        ensures
            agrees(r, parse_filter_load(bytes@)),
    {
        let (filter, k) = read_var_bytes(bytes)?;
        if bytes.len() - k < 9 {
            return Err(DecodeError::UnexpectedEnd);
        }
        let hash_fn_count = u32_from_le_bytes(&bytes[k..k + 4]);
        let tweak = u32_from_le_bytes(&bytes[k + 4..k + 8]);
        let flags = bytes[k + 8];
        Ok((FilterLoad { filter, hash_fn_count, tweak, flags }, k + 9))
    }
}

pub proof fn lemma_filter_load_round_trip(f: FilterLoadModel, rest: Seq<u8>)
    requires
        f.filter.len() <= u64::MAX,
    ensures
        parse_filter_load(filter_load_bytes(f) + rest) == Ok::<(FilterLoadModel, nat), DecodeError>(
            (f, filter_load_bytes(f).len()),
        ),
{
    lemma_auto_spec_u32_to_from_le_bytes();
    let vb = var_bytes(f.filter);
    let tail = spec_u32_to_le_bytes(f.hash_fn_count) + spec_u32_to_le_bytes(f.tweak) + seq![f.flags];
    let s = filter_load_bytes(f) + rest;
    assert(s =~= vb + (tail + rest));
    lemma_var_bytes_round_trip(f.filter, tail + rest);
    let k = vb.len() as int;
    assert(s.subrange(k, k + 4) =~= spec_u32_to_le_bytes(f.hash_fn_count));
    assert(s.subrange(k + 4, k + 8) =~= spec_u32_to_le_bytes(f.tweak));
    assert(s[k + 8] == f.flags);
}

/// Data to add to a loaded bloom filter.
#[derive(Debug, Clone)]
pub struct FilterAdd {
    pub data: Vec<u8>,
}

impl View for FilterAdd {
    type V = Seq<u8>;

    open spec fn view(&self) -> Seq<u8> {
        self.data@
    }
}

impl FilterAdd {
    pub fn encode(&self, buf: &mut Vec<u8>)
        ensures
            final(buf)@ == old(buf)@ + var_bytes(self@),
    {
        put_var_bytes(buf, self.data.as_slice());
    }

    pub fn decode(bytes: &[u8]) -> (r: Result<(FilterAdd, usize), DecodeError>)
        ensures
            agrees(r, parse_var_bytes(bytes@)),
    {
        let (data, k) = read_var_bytes(bytes)?;
        Ok((FilterAdd { data }, k))
    }
}

} // verus!
