//! Count-prefixed lists: a compact-size count followed by that many items.

use vstd::prelude::*;
use crate::codec::{agrees, parse_varint, varint_bytes, lemma_varint_round_trip, DecodeError, VarInt};

verus! {

/// The items' wire forms, one after another.
pub open spec fn encode_items<V>(e: spec_fn(V) -> Seq<u8>, xs: Seq<V>) -> Seq<u8>
    decreases xs.len(),
{
    if xs.len() == 0 {
        Seq::empty()
    } else {
        e(xs[0]) + encode_items(e, xs.drop_first())
    }
}

/// The wire form of a list: its length, then its items.
pub open spec fn encode_list<V>(e: spec_fn(V) -> Seq<u8>, xs: Seq<V>) -> Seq<u8> {
    varint_bytes(xs.len() as u64) + encode_items(e, xs)
}

/// Reads `n` items one after another with the item parser `p`.
pub open spec fn parse_items<V>(
    p: spec_fn(Seq<u8>) -> Result<(V, nat), DecodeError>,
    s: Seq<u8>,
    n: nat,
) -> Result<(Seq<V>, nat), DecodeError>
    decreases n,
{
    if n == 0 {
        Ok((Seq::empty(), 0))
    } else {
        match p(s) {
            Err(e) => Err(e),
            Ok((x, k)) => if k > s.len() {
                Err(DecodeError::UnexpectedEnd)
            } else {
                match parse_items(p, s.skip(k as int), (n - 1) as nat) {
                    Err(e) => Err(e),
                    Ok((xs, m)) => Ok((seq![x] + xs, k + m)),
                }
            },
        }
    }
}

/// Reads a compact-size count and then that many items.
pub open spec fn parse_list<V>(p: spec_fn(Seq<u8>) -> Result<(V, nat), DecodeError>, s: Seq<u8>) -> Result<
    (Seq<V>, nat),
    DecodeError,
> {
    match parse_varint(s) {
        Err(e) => Err(e),
        Ok((n, k)) => match parse_items(p, s.skip(k as int), n as nat) {
            Err(e) => Err(e),
            Ok((xs, m)) => Ok((xs, k + m)),
        },
    }
}

/// Puts the items already read in front of what the rest of the input gives.
pub open spec fn prepend<V>(xs: Seq<V>, k: nat, r: Result<(Seq<V>, nat), DecodeError>) -> Result<
    (Seq<V>, nat),
    DecodeError,
> {
    match r {
        Err(e) => Err(e),
        Ok((ys, m)) => Ok((xs + ys, k + m)),
    }
}

/// Whether `p` reads back every item of `xs` from its wire form.
pub open spec fn reads_back<V>(
    p: spec_fn(Seq<u8>) -> Result<(V, nat), DecodeError>,
    e: spec_fn(V) -> Seq<u8>,
    xs: Seq<V>,
) -> bool {
    forall|i: int, r: Seq<u8>|
        0 <= i < xs.len() ==> #[trigger] p(e(xs[i]) + r) == Ok::<(V, nat), DecodeError>((xs[i], e(xs[i]).len()))
}

pub proof fn lemma_encode_items_push<V>(e: spec_fn(V) -> Seq<u8>, xs: Seq<V>, x: V)
    ensures
        encode_items(e, xs.push(x)) == encode_items(e, xs) + e(x),
    decreases xs.len(),
{
    if xs.len() == 0 {
        assert(xs.push(x).drop_first() =~= Seq::<V>::empty());
        assert(encode_items(e, xs.push(x).drop_first()) == Seq::<u8>::empty());
        assert(xs =~= Seq::<V>::empty());
        assert(encode_items(e, xs) == Seq::<u8>::empty());
        assert(encode_items(e, xs.push(x)) =~= e(x));
        assert(encode_items(e, xs) + e(x) =~= e(x));
    } else {
        assert(xs.push(x).drop_first() =~= xs.drop_first().push(x));
        lemma_encode_items_push(e, xs.drop_first(), x);
        assert(encode_items(e, xs.push(x)) =~= encode_items(e, xs) + e(x));
    }
}

/// One more step of reading items.
pub proof fn lemma_parse_items_step<V>(
    p: spec_fn(Seq<u8>) -> Result<(V, nat), DecodeError>,
    s: Seq<u8>,
    n: nat,
    x: V,
    k: nat,
)
    requires
        n > 0,
        p(s) == Ok::<(V, nat), DecodeError>((x, k)),
        k <= s.len(),
    ensures
        parse_items(p, s, n) == prepend(seq![x], k, parse_items(p, s.skip(k as int), (n - 1) as nat)),
{
}

pub proof fn lemma_prepend_prepend<V>(xs: Seq<V>, k: nat, ys: Seq<V>, m: nat, r: Result<(Seq<V>, nat), DecodeError>)
    ensures
        prepend(xs, k, prepend(ys, m, r)) == prepend(xs + ys, k + m, r),
{
    match r {
        Ok((zs, c)) => {
            assert(xs + (ys + zs) =~= (xs + ys) + zs);
        },
        Err(_) => {},
    }
}

pub proof fn lemma_items_round_trip<V>(
    p: spec_fn(Seq<u8>) -> Result<(V, nat), DecodeError>,
    e: spec_fn(V) -> Seq<u8>,
    xs: Seq<V>,
    rest: Seq<u8>,
)
    requires
        reads_back(p, e, xs),
    ensures
        parse_items(p, encode_items(e, xs) + rest, xs.len()) == Ok::<(Seq<V>, nat), DecodeError>(
            (xs, encode_items(e, xs).len()),
        ),
    decreases xs.len(),
{
    if xs.len() > 0 {
        let tail = xs.drop_first();
        let tail_rest = encode_items(e, tail) + rest;
        assert(reads_back(p, e, tail)) by {
            assert forall|i: int, r: Seq<u8>| 0 <= i < tail.len() implies #[trigger] p(e(tail[i]) + r)
                == Ok::<(V, nat), DecodeError>((tail[i], e(tail[i]).len())) by {
                assert(tail[i] == xs[i + 1]);
                assert(p(e(xs[i + 1]) + r) == Ok::<(V, nat), DecodeError>((xs[i + 1], e(xs[i + 1]).len())));
            }
        }
        lemma_items_round_trip(p, e, tail, rest);
        let s = encode_items(e, xs) + rest;
        assert(s =~= e(xs[0]) + tail_rest);
        assert(p(e(xs[0]) + tail_rest) == Ok::<(V, nat), DecodeError>((xs[0], e(xs[0]).len())));
        assert(s.skip(e(xs[0]).len() as int) =~= tail_rest);
        assert(seq![xs[0]] + tail =~= xs);
        assert(encode_items(e, xs) == e(xs[0]) + encode_items(e, tail));
    } else {
        assert(xs =~= Seq::<V>::empty());
    }
}

pub proof fn lemma_list_round_trip<V>(
    p: spec_fn(Seq<u8>) -> Result<(V, nat), DecodeError>,
    e: spec_fn(V) -> Seq<u8>,
    xs: Seq<V>,
    rest: Seq<u8>,
)
    requires
        reads_back(p, e, xs),
        xs.len() <= u64::MAX,
    ensures
        parse_list(p, encode_list(e, xs) + rest) == Ok::<(Seq<V>, nat), DecodeError>(
            (xs, encode_list(e, xs).len()),
        ),
{
    let n = varint_bytes(xs.len() as u64);
    let s = encode_list(e, xs) + rest;
    lemma_varint_round_trip(xs.len() as u64, encode_items(e, xs) + rest);
    assert(s =~= n + (encode_items(e, xs) + rest));
    assert(s.skip(n.len() as int) =~= encode_items(e, xs) + rest);
    lemma_items_round_trip(p, e, xs, rest);
}

/// An item that a list can hold: it has a wire form and a reader for it.
pub trait Wire: View + Sized {
    spec fn parser() -> spec_fn(Seq<u8>) -> Result<(Self::V, nat), DecodeError>;

    spec fn encoder() -> spec_fn(Self::V) -> Seq<u8>;

    fn encode_item(&self, buf: &mut Vec<u8>)
        ensures
            final(buf)@ == old(buf)@ + Self::encoder()(self@),
    ;

    fn decode_item(bytes: &[u8]) -> (r: Result<(Self, usize), DecodeError>)
        ensures
            agrees(r, Self::parser()(bytes@)),
            r is Ok ==> r->Ok_0.1 <= bytes@.len(),
    ;
}

/// What a vector of items holds, item by item.
pub open spec fn items_view<T: View>(v: Seq<T>) -> Seq<T::V> {
    v.map_values(|x: T| x@)
}

/// Appends a compact-size count and then each item's wire form.
pub fn put_list<T: Wire>(buf: &mut Vec<u8>, items: &Vec<T>)
    ensures
        final(buf)@ == old(buf)@ + encode_list(T::encoder(), items_view(items@)),
{
    let ghost e = T::encoder();
    let ghost xs = items_view(items@);
    VarInt(items.len() as u64).encode(buf);
    let ghost start = buf@;
    let mut i: usize = 0;
    while i < items.len()
        invariant
            0 <= i <= items@.len(),
            e == T::encoder(),
            xs == items_view(items@),
            buf@ == start + encode_items(e, xs.subrange(0, i as int)),
        decreases items@.len() - i,
    {
        items[i].encode_item(buf);
        proof {
            lemma_encode_items_push(e, xs.subrange(0, i as int), xs[i as int]);
            assert(xs.subrange(0, i + 1) =~= xs.subrange(0, i as int).push(xs[i as int]));
        }
        i = i + 1;
    }
    assert(xs.subrange(0, i as int) =~= xs);
    assert(buf@ =~= old(buf)@ + encode_list(e, xs));
}

/// Reads a compact-size count and then that many items.
pub fn read_list<T: Wire>(bytes: &[u8]) -> (r: Result<(Vec<T>, usize), DecodeError>)
    ensures
        match r {
            Ok((v, n)) => parse_list(T::parser(), bytes@) == Ok::<(Seq<T::V>, nat), DecodeError>(
                (items_view(v@), n as nat),
            ),
            Err(e) => parse_list(T::parser(), bytes@) == Err::<(Seq<T::V>, nat), DecodeError>(e),
        },
{
    let ghost p = T::parser();
    let len = bytes.len();
    let (n, k) = VarInt::decode(bytes)?;
    let mut items: Vec<T> = Vec::new();
    let mut pos = k;
    let mut i: u64 = 0;
    while i < n.0
        invariant
            k <= pos <= len,
            len == bytes@.len(),
            p == T::parser(),
            i <= n.0,
            parse_varint(bytes@) == Ok::<(u64, nat), DecodeError>((n.0, k as nat)),
            parse_items(p, bytes@.skip(k as int), n.0 as nat) == prepend(
                items_view(items@),
                (pos - k) as nat,
                parse_items(p, bytes@.skip(pos as int), (n.0 - i) as nat),
            ),
        decreases n.0 - i,
    {
        let ghost rest = bytes@.skip(pos as int);
        assert(bytes@.subrange(pos as int, len as int) =~= rest);
        match T::decode_item(&bytes[pos..len]) {
            Err(e) => {
                assert(parse_items(p, rest, (n.0 - i) as nat) == Err::<(Seq<T::V>, nat), DecodeError>(e));
                return Err(e);
            },
            Ok((x, m)) => {
                proof {
                    lemma_parse_items_step(p, rest, (n.0 - i) as nat, x@, m as nat);
                    assert(rest.skip(m as int) =~= bytes@.skip(pos + m));
                    lemma_prepend_prepend(
                        items_view(items@),
                        (pos - k) as nat,
                        seq![x@],
                        m as nat,
                        parse_items(p, bytes@.skip(pos + m), (n.0 - i - 1) as nat),
                    );
                }
                let ghost before = items_view(items@);
                items.push(x);
                assert(items_view(items@) =~= before + seq![x@]);
                pos = pos + m;
                i = i + 1;
            },
        }
    }
    assert(items_view(items@) + Seq::<T::V>::empty() =~= items_view(items@));
    Ok((items, pos))
}

} // verus!
