//! The reply a peer owes to a block range query: from the first locator
//! hash it knows, onward through its chain, up to the stop hash.

use vstd::prelude::*;
use crate::codec::{is_zero_hash, DecodeError, Hash256};
use crate::inv::{inv_bytes, inv_wf, lemma_inv_round_trip, parse_inv, InvHash, InvHashModel, Inv, ObjectKind};
use crate::list::items_view;
use crate::payload::LocatorHashes;

verus! {

/// Whether a range ends just after the stop hash or just before it. The
/// protocol documents the first; some nodes behave as the second.
#[derive(Debug, Clone, Copy, PartialEq, Eq, Structural)]
pub enum StopRule {
    Inclusive,
    Exclusive,
}

/// The first position at or after `i` where `h` stands in `chain`, or -1.
pub open spec fn find_from(chain: Seq<Seq<u8>>, h: Seq<u8>, i: int) -> int
    decreases chain.len() - i,
{
    if i < 0 || i >= chain.len() {
        -1
    } else if chain[i] == h {
        i
    } else {
        find_from(chain, h, i + 1)
    }
}

/// The first position of `h` in `chain`, or -1.
pub open spec fn index_of(chain: Seq<Seq<u8>>, h: Seq<u8>) -> int {
    find_from(chain, h, 0)
}

/// The position of the first locator hash, from the `i`-th on, that the
/// chain holds; the start of the chain when none is held.
pub open spec fn fork_from(chain: Seq<Seq<u8>>, locator: Seq<Seq<u8>>, i: int) -> int
    decreases locator.len() - i,
{
    if i < 0 || i >= locator.len() {
        0
    } else if index_of(chain, locator[i]) >= 0 {
        index_of(chain, locator[i])
    } else {
        fork_from(chain, locator, i + 1)
    }
}

/// Where the reply starts: just after the fork point.
pub open spec fn range_start(chain: Seq<Seq<u8>>, locator: Seq<Seq<u8>>) -> int {
    let s = fork_from(chain, locator, 0) + 1;
    if s > chain.len() {
        chain.len() as int
    } else {
        s
    }
}

/// Where the reply ends: at the chain's end when the stop hash is zero or
/// not found after the start; else at the stop hash, by the rule.
pub open spec fn range_end(chain: Seq<Seq<u8>>, locator: Seq<Seq<u8>>, stop: Seq<u8>, rule: StopRule) -> int {
    let j = index_of(chain, stop);
    if is_zero_hash(stop) || j < range_start(chain, locator) {
        chain.len() as int
    } else {
        match rule {
            StopRule::Inclusive => j + 1,
            StopRule::Exclusive => j,
        }
    }
}

/// The hashes of the blocks a range query asks for.
pub open spec fn block_range(chain: Seq<Seq<u8>>, locator: Seq<Seq<u8>>, stop: Seq<u8>, rule: StopRule) -> Seq<
    Seq<u8>,
> {
    chain.subrange(range_start(chain, locator), range_end(chain, locator, stop, rule))
}

pub proof fn lemma_find_from_bounds(chain: Seq<Seq<u8>>, h: Seq<u8>, i: int)
    ensures
        find_from(chain, h, i) == -1 || (i <= find_from(chain, h, i) < chain.len() && chain[find_from(chain, h, i)] == h),
    decreases chain.len() - i,
{
    if 0 <= i < chain.len() && chain[i] != h {
        lemma_find_from_bounds(chain, h, i + 1);
    }
}

pub proof fn lemma_fork_from_bounds(chain: Seq<Seq<u8>>, locator: Seq<Seq<u8>>, i: int)
    ensures
        0 <= fork_from(chain, locator, i),
        fork_from(chain, locator, i) == 0 || fork_from(chain, locator, i) < chain.len(),
    decreases locator.len() - i,
{
    if 0 <= i < locator.len() {
        lemma_find_from_bounds(chain, locator[i], 0);
        if index_of(chain, locator[i]) < 0 {
            lemma_fork_from_bounds(chain, locator, i + 1);
        }
    }
}

/// The first position of `h` in `chain`, or -1.
pub fn position(chain: &Vec<Hash256>, h: &Hash256) -> (r: i64)
    requires
        chain@.len() < i64::MAX,
    ensures
        r == index_of(items_view(chain@), h@),
{
    let ghost c = items_view(chain@);
    let mut i: usize = 0;
    while i < chain.len()
        invariant
            0 <= i <= chain@.len(),
            chain@.len() < i64::MAX,
            c == items_view(chain@),
            find_from(c, h@, 0) == find_from(c, h@, i as int),
        decreases chain@.len() - i,
    {
        if chain[i].same(h) {
            return i as i64;
        }
        i = i + 1;
    }
    -1
}

/// The hashes of the blocks that a range query with these locator hashes
/// and stop hash asks of a peer whose chain is `chain`, oldest first.
pub fn expected_range(chain: &Vec<Hash256>, query: &LocatorHashes, rule: StopRule) -> (r: Vec<Hash256>)
    requires
        chain@.len() < i64::MAX,
    ensures
        items_view(r@) == block_range(items_view(chain@), query@.hashes, query@.stop, rule),
{
    let ghost c = items_view(chain@);
    let ghost loc = query@.hashes;
    let locator = &query.block_locator_hashes;
    let mut fork: i64 = 0;
    let mut found = false;
    let mut i: usize = 0;
    while i < locator.len() && !found
        invariant
            0 <= i <= locator@.len(),
            chain@.len() < i64::MAX,
            c == items_view(chain@),
            loc == items_view(locator@),
            !found ==> fork_from(c, loc, 0) == fork_from(c, loc, i as int),
            found ==> fork == fork_from(c, loc, 0),
            !found ==> fork == 0,
        decreases locator@.len() - i + (if found { 0int } else { 1int }),
    {
        let p = position(chain, &locator[i]);
        assert(loc[i as int] == locator@[i as int]@);
        if p >= 0 {
            fork = p;
            found = true;
        } else {
            i = i + 1;
        }
    }
    proof {
        lemma_fork_from_bounds(c, loc, 0);
    }
    assert(fork == fork_from(c, loc, 0));
    let len = chain.len();
    assert(c.len() == len);
    let start: usize = if fork as usize + 1 > len { len } else { fork as usize + 1 };
    let j = position(chain, &query.hash_stop);
    proof {
        lemma_find_from_bounds(c, query@.stop, 0);
    }
    let end: usize = if query.hash_stop.is_zero() || j < start as i64 {
        len
    } else {
        match rule {
            StopRule::Inclusive => j as usize + 1,
            StopRule::Exclusive => j as usize,
        }
    };
    let mut out: Vec<Hash256> = Vec::new();
    let mut k: usize = start;
    while k < end
        invariant
            start <= k <= end <= len,
            len == chain@.len(),
            items_view(out@) == c.subrange(start as int, k as int),
            c == items_view(chain@),
        decreases end - k,
    {
        let ghost before = items_view(out@);
        assert(c[k as int] == chain@[k as int]@);
        out.push(chain[k]);
        assert(items_view(out@) =~= before.push(c[k as int]));
        assert(c.subrange(start as int, k + 1) =~= c.subrange(start as int, k as int).push(c[k as int]));
        k = k + 1;
    }
    out
}

/// Block hashes as block references, in order.
pub open spec fn block_inv(hashes: Seq<Seq<u8>>) -> Seq<InvHashModel> {
    hashes.map_values(|h: Seq<u8>| InvHashModel { kind: ObjectKind::Block, hash: h })
}

/// The inventory that answers a range query: each block hash of the range
/// as a block reference.
pub fn expected_inv(chain: &Vec<Hash256>, query: &LocatorHashes, rule: StopRule) -> (r: Inv)
    requires
        chain@.len() < i64::MAX,
    ensures
        r@ == block_inv(block_range(items_view(chain@), query@.hashes, query@.stop, rule)),
{
    let hashes = expected_range(chain, query, rule);
    let mut entries: Vec<InvHash> = Vec::new();
    let mut i: usize = 0;
    while i < hashes.len()
        invariant
            0 <= i <= hashes@.len(),
            entries@.len() == i,
            forall|j: int|
                0 <= j < i ==> #[trigger] entries@[j]@ == (InvHashModel { kind: ObjectKind::Block, hash: hashes@[j]@ }),
        decreases hashes@.len() - i,
    {
        entries.push(InvHash { kind: ObjectKind::Block, hash: hashes[i] });
        i = i + 1;
    }
    let r = Inv(entries);
    let ghost want = block_inv(block_range(items_view(chain@), query@.hashes, query@.stop, rule));
    assert forall|j: int| 0 <= j < r@.len() implies #[trigger] r@[j] == want[j] by {
        assert(items_view(hashes@)[j] == hashes@[j]@);
    }
    assert(r@ =~= want);
    r
}

/// No hash stands twice in the chain.
pub open spec fn distinct(chain: Seq<Seq<u8>>) -> bool {
    forall|i: int, j: int| 0 <= i < j < chain.len() ==> chain[i] != chain[j]
}

pub proof fn lemma_index_of_member(chain: Seq<Seq<u8>>, k: int, i: int)
    requires
        distinct(chain),
        0 <= i <= k < chain.len(),
    ensures
        find_from(chain, chain[k], i) == k,
    decreases k - i,
{
    if i < k {
        lemma_index_of_member(chain, k, i + 1);
    }
}

/// Range queries on a chain of distinct hashes, with one locator hash `h_k`
/// that the chain holds: with a zero stop hash the reply is every block
/// after `h_k`; with a stop hash `h_j` further on it ends at `h_j`,
/// including it under the inclusive rule and excluding it under the other.
pub proof fn lemma_block_range_after_locator(chain: Seq<Seq<u8>>, k: int, stop: Seq<u8>, j: int)
    requires
        distinct(chain),
        0 <= k < chain.len(),
        k < j < chain.len(),
        !is_zero_hash(chain[j]),
        stop.len() == 32,
        is_zero_hash(stop),
    ensures
        block_range(chain, seq![chain[k]], stop, StopRule::Inclusive) == chain.subrange(k + 1, chain.len() as int),
        block_range(chain, seq![chain[k]], chain[j], StopRule::Inclusive) == chain.subrange(k + 1, j + 1),
        block_range(chain, seq![chain[k]], chain[j], StopRule::Exclusive) == chain.subrange(k + 1, j),
{
    lemma_index_of_member(chain, k, 0);
    lemma_index_of_member(chain, j, 0);
    let loc = seq![chain[k]];
    assert(fork_from(chain, loc, 1) == 0);
    assert(fork_from(chain, loc, 0) == k);
}

/// The inventory answering a range query with one locator hash `h_k` and
/// a zero stop hash, on a chain of distinct 32-byte hashes, is written with
/// a count of every block after `h_k` and reads back as those blocks, in
/// chain order, each as a block reference.
pub proof fn lemma_range_reply_reads_back(chain: Seq<Seq<u8>>, k: int, stop: Seq<u8>)
    requires
        distinct(chain),
        forall|i: int| 0 <= i < chain.len() ==> #[trigger] chain[i].len() == 32,
        chain.len() <= u64::MAX,
        0 <= k < chain.len(),
        stop.len() == 32,
        is_zero_hash(stop),
    ensures
        block_range(chain, seq![chain[k]], stop, StopRule::Inclusive) == chain.subrange(k + 1, chain.len() as int),
        parse_inv(inv_bytes(block_inv(chain.subrange(k + 1, chain.len() as int)))) == Ok::<
            (Seq<InvHashModel>, nat),
            DecodeError,
        >(
            (
                block_inv(chain.subrange(k + 1, chain.len() as int)),
                inv_bytes(block_inv(chain.subrange(k + 1, chain.len() as int))).len(),
            ),
        ),
        block_inv(chain.subrange(k + 1, chain.len() as int)).len() == chain.len() - k - 1,
{
    lemma_index_of_member(chain, k, 0);
    let loc = seq![chain[k]];
    assert(fork_from(chain, loc, 1) == 0);
    assert(fork_from(chain, loc, 0) == k);
    let v = block_inv(chain.subrange(k + 1, chain.len() as int));
    assert(inv_wf(v)) by {
        assert forall|i: int| 0 <= i < v.len() implies #[trigger] v[i].wf() by {
            assert(v[i].hash == chain[k + 1 + i]);
        }
    }
    let e = Seq::<u8>::empty();
    lemma_inv_round_trip(v, e);
    assert(inv_bytes(v) + e =~= inv_bytes(v));
}

} // verus!
