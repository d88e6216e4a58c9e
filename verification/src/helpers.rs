//! Splitting events into per-pool collections ordered by block number, and
//! the specification vocabulary (filters, block sequences, sortedness) the
//! heuristic contracts are written in.

use vstd::prelude::*;
use vstd::seq_lib::*;
use crate::data::InBlock;
use crate::data::InPool;
use crate::data::Pool;

verus! {

/// The order the per-pool collections are sorted by.
pub open spec fn le_u128() -> spec_fn(u128, u128) -> bool {
    |a: u128, b: u128| a <= b
}

/// Membership test for one pool.
pub open spec fn in_pool<T: InPool>(p: Pool) -> spec_fn(T) -> bool {
    |t: T| t.spec_pool() == p
}

/// The block numbers of a sequence of events, in sequence order.
pub open spec fn blocks_of<T: InBlock>(s: Seq<T>) -> Seq<u128> {
    s.map_values(|t: T| t.spec_block())
}

/// Block numbers never decrease along the sequence.
pub open spec fn sorted_by_block<T: InBlock>(s: Seq<T>) -> bool {
    forall|i: int, j: int| 0 <= i <= j < s.len() ==> s[i].spec_block() <= s[j].spec_block()
}

/// What one component returned by `collect_pools` holds: exactly the input's
/// events of pool `p`, ordered by block number.
pub open spec fn pool_slice_ok<T: InPool + InBlock>(ts: Seq<T>, p: Pool, out: Seq<T>) -> bool {
    &&& sorted_by_block(out)
    &&& out.to_multiset() == ts.filter(in_pool(p)).to_multiset()
    &&& blocks_of(out).to_multiset() == blocks_of(ts.filter(in_pool(p))).to_multiset()
}

/// The block numbers of the events of pool `p` in `s`, in ascending order.
pub open spec fn sorted_pool_blocks<T: InPool + InBlock>(s: Seq<T>, p: Pool) -> Seq<u128> {
    blocks_of(s.filter(in_pool(p))).sort_by(le_u128())
}

pub(crate) proof fn lemma_filter_push<A>(s: Seq<A>, x: A, p: spec_fn(A) -> bool)
    ensures
        s.push(x).filter(p) == if p(x) {
            s.filter(p).push(x)
        } else {
            s.filter(p)
        },
{
    reveal(Seq::filter);
    assert(s.push(x).drop_last() =~= s);
    assert(s.push(x).last() == x);
}

proof fn lemma_map_values_push<A, B>(s: Seq<A>, x: A, f: spec_fn(A) -> B)
    ensures
        s.push(x).map_values(f) =~= s.map_values(f).push(f(x)),
{
}

proof fn lemma_map_values_insert<A, B>(s: Seq<A>, i: int, x: A, f: spec_fn(A) -> B)
    requires
        0 <= i <= s.len(),
    ensures
        s.insert(i, x).map_values(f) =~= s.map_values(f).insert(i, f(x)),
{
}

/// Insert an event into a block-sorted vector, keeping it sorted; an event
/// goes after every event with the same block number already there.
fn insert_by_block<T: InBlock + Copy>(v: &mut Vec<T>, t: T)
    requires
        sorted_by_block(old(v)@),
    ensures
        sorted_by_block(final(v)@),
        final(v)@.to_multiset() == old(v)@.to_multiset().insert(t),
        blocks_of(final(v)@).to_multiset() == blocks_of(old(v)@).to_multiset().insert(
            t.spec_block(),
        ),
{
    broadcast use to_multiset_insert;

    let mut idx: usize = 0;
    let b = t.block();
    while idx < v.len() && v[idx].block() <= b
        invariant
            idx <= v.len(),
            sorted_by_block(v@),
            b == t.spec_block(),
            v == old(v),
            forall|j: int| 0 <= j < idx ==> v@[j].spec_block() <= t.spec_block(),
        decreases v.len() - idx,
    {
        idx += 1;
    }
    proof {
        assert(forall|j: int|
            idx <= j < v@.len() ==> t.spec_block() < #[trigger] v@[j].spec_block());
        lemma_map_values_insert(v@, idx as int, t, |e: T| e.spec_block());
    }
    v.insert(idx, t);
    proof {
        assert(sorted_by_block(v@)) by {
            assert(forall|i: int, j: int|
                0 <= i <= j < v@.len() ==> v@[i].spec_block() <= v@[j].spec_block());
        }
    }
}

/// Split events into one vector per pool, each ordered by block number;
/// events of an unknown pool are left out.
pub fn collect_pools<T: InPool + InBlock + Copy>(ts: &Vec<T>) -> (r: (Vec<T>, Vec<T>, Vec<T>, Vec<T>))
    ensures
        pool_slice_ok(ts@, Pool::_0_1ETH, r.0@),
        pool_slice_ok(ts@, Pool::_1ETH, r.1@),
        pool_slice_ok(ts@, Pool::_10ETH, r.2@),
        pool_slice_ok(ts@, Pool::_100ETH, r.3@),
{
    broadcast use vstd::seq_lib::group_to_multiset_ensures;

    let mut v0: Vec<T> = Vec::new();
    let mut v1: Vec<T> = Vec::new();
    let mut v2: Vec<T> = Vec::new();
    let mut v3: Vec<T> = Vec::new();
    let mut i: usize = 0;
    proof {
        assert(ts@.take(0).filter(in_pool::<T>(Pool::_0_1ETH)) =~= Seq::<T>::empty());
        assert(ts@.take(0).filter(in_pool::<T>(Pool::_1ETH)) =~= Seq::<T>::empty());
        assert(ts@.take(0).filter(in_pool::<T>(Pool::_10ETH)) =~= Seq::<T>::empty());
        assert(ts@.take(0).filter(in_pool::<T>(Pool::_100ETH)) =~= Seq::<T>::empty());
        reveal(Seq::filter);
    }
    while i < ts.len()
        invariant
            i <= ts.len(),
            pool_slice_ok(ts@.take(i as int), Pool::_0_1ETH, v0@),
            pool_slice_ok(ts@.take(i as int), Pool::_1ETH, v1@),
            pool_slice_ok(ts@.take(i as int), Pool::_10ETH, v2@),
            pool_slice_ok(ts@.take(i as int), Pool::_100ETH, v3@),
        decreases ts.len() - i,
    {
        broadcast use vstd::seq_lib::group_to_multiset_ensures;

        let t = ts[i];
        proof {
            assert(ts@.take(i + 1) =~= ts@.take(i as int).push(ts@[i as int]));
            lemma_filter_push(ts@.take(i as int), ts@[i as int], in_pool::<T>(Pool::_0_1ETH));
            lemma_filter_push(ts@.take(i as int), ts@[i as int], in_pool::<T>(Pool::_1ETH));
            lemma_filter_push(ts@.take(i as int), ts@[i as int], in_pool::<T>(Pool::_10ETH));
            lemma_filter_push(ts@.take(i as int), ts@[i as int], in_pool::<T>(Pool::_100ETH));
            lemma_map_values_push(
                ts@.take(i as int).filter(in_pool::<T>(Pool::_0_1ETH)),
                ts@[i as int],
                |e: T| e.spec_block(),
            );
            lemma_map_values_push(
                ts@.take(i as int).filter(in_pool::<T>(Pool::_1ETH)),
                ts@[i as int],
                |e: T| e.spec_block(),
            );
            lemma_map_values_push(
                ts@.take(i as int).filter(in_pool::<T>(Pool::_10ETH)),
                ts@[i as int],
                |e: T| e.spec_block(),
            );
            lemma_map_values_push(
                ts@.take(i as int).filter(in_pool::<T>(Pool::_100ETH)),
                ts@[i as int],
                |e: T| e.spec_block(),
            );
        }
        match t.pool() {
            Pool::_0_1ETH => insert_by_block(&mut v0, t),
            Pool::_1ETH => insert_by_block(&mut v1, t),
            Pool::_10ETH => insert_by_block(&mut v2, t),
            Pool::_100ETH => insert_by_block(&mut v3, t),
            Pool::Unknown => (),
        }
        i += 1;
    }
    proof {
        assert(ts@.take(ts@.len() as int) =~= ts@);
    }
    (v0, v1, v2, v3)
}

} // verus!
