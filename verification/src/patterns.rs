//! Deposit/withdraw patterns: the per-pool usage counts of one address, used
//! as a behavioral fingerprint by the denomination-pattern matcher.

use vstd::prelude::*;
use vstd::seq_lib::*;
use crate::data::InPool;
use crate::data::Pool;
use crate::helpers::in_pool;
use crate::helpers::lemma_filter_push;

verus! {

/// How often one address used each of the four pools.
#[derive(Clone, Copy, Debug, PartialEq, Eq, Structural)]
#[allow(non_snake_case)]
pub struct DepositWithdrawPattern {
    pub n0_1ETH: u64,
    pub n1ETH: u64,
    pub n10ETH: u64,
    pub n100ETH: u64,
}

impl View for DepositWithdrawPattern {
    type V = (nat, nat, nat, nat);

    open spec fn view(&self) -> (nat, nat, nat, nat) {
        (self.n0_1ETH as nat, self.n1ETH as nat, self.n10ETH as nat, self.n100ETH as nat)
    }
}

/// The per-pool counts of a sequence of events.
pub open spec fn spec_pattern_of<T: InPool>(s: Seq<T>) -> (nat, nat, nat, nat) {
    (
        s.filter(in_pool(Pool::_0_1ETH)).len(),
        s.filter(in_pool(Pool::_1ETH)).len(),
        s.filter(in_pool(Pool::_10ETH)).len(),
        s.filter(in_pool(Pool::_100ETH)).len(),
    )
}

/// A pattern is worth correlating: some pool was used more than once, and
/// more than one distinct pool was used at all.
pub open spec fn spec_interesting(p: (nat, nat, nat, nat)) -> bool {
    &&& (p.0 > 1 || p.1 > 1 || p.2 > 1 || p.3 > 1)
    &&& (if p.0 > 0 {
        1int
    } else {
        0int
    }) + (if p.1 > 0 {
        1int
    } else {
        0int
    }) + (if p.2 > 0 {
        1int
    } else {
        0int
    }) + (if p.3 > 0 {
        1int
    } else {
        0int
    }) > 1
}

/// Count the events of each pool.
pub fn pattern_of<T: InPool>(ts: &Vec<T>) -> (p: DepositWithdrawPattern)
    ensures
        p@ == spec_pattern_of(ts@),
{
    broadcast use Seq::lemma_filter_len;

    let mut c0: u64 = 0;
    let mut c1: u64 = 0;
    let mut c2: u64 = 0;
    let mut c3: u64 = 0;
    let mut i: usize = 0;
    proof {
        reveal(Seq::filter);
        assert(ts@.take(0).filter(in_pool::<T>(Pool::_0_1ETH)) =~= Seq::<T>::empty());
        assert(ts@.take(0).filter(in_pool::<T>(Pool::_1ETH)) =~= Seq::<T>::empty());
        assert(ts@.take(0).filter(in_pool::<T>(Pool::_10ETH)) =~= Seq::<T>::empty());
        assert(ts@.take(0).filter(in_pool::<T>(Pool::_100ETH)) =~= Seq::<T>::empty());
    }
    while i < ts.len()
        invariant
            i <= ts.len(),
            c0 == ts@.take(i as int).filter(in_pool::<T>(Pool::_0_1ETH)).len(),
            c1 == ts@.take(i as int).filter(in_pool::<T>(Pool::_1ETH)).len(),
            c2 == ts@.take(i as int).filter(in_pool::<T>(Pool::_10ETH)).len(),
            c3 == ts@.take(i as int).filter(in_pool::<T>(Pool::_100ETH)).len(),
        decreases ts.len() - i,
    {
        proof {
            broadcast use Seq::lemma_filter_len;

            assert(ts@.take(i + 1) =~= ts@.take(i as int).push(ts@[i as int]));
            lemma_filter_push(ts@.take(i as int), ts@[i as int], in_pool::<T>(Pool::_0_1ETH));
            lemma_filter_push(ts@.take(i as int), ts@[i as int], in_pool::<T>(Pool::_1ETH));
            lemma_filter_push(ts@.take(i as int), ts@[i as int], in_pool::<T>(Pool::_10ETH));
            lemma_filter_push(ts@.take(i as int), ts@[i as int], in_pool::<T>(Pool::_100ETH));
            assert(ts@.take(i as int).len() <= ts@.len());
        }
        match ts[i].pool() {
            Pool::_0_1ETH => { c0 += 1; },
            Pool::_1ETH => { c1 += 1; },
            Pool::_10ETH => { c2 += 1; },
            Pool::_100ETH => { c3 += 1; },
            Pool::Unknown => (),
        }
        i += 1;
    }
    proof {
        assert(ts@.take(ts@.len() as int) =~= ts@);
    }
    DepositWithdrawPattern { n0_1ETH: c0, n1ETH: c1, n10ETH: c2, n100ETH: c3 }
}

/// Whether a pattern is selective enough to feed the pattern matcher: it must
/// show repeated use of some pool and use of more than one pool.
pub fn pattern_is_interesting(pattern: &DepositWithdrawPattern) -> (r: bool)
    ensures
        r == spec_interesting(pattern@),
{
    let repeated = pattern.n0_1ETH > 1 || pattern.n1ETH > 1 || pattern.n10ETH > 1
        || pattern.n100ETH > 1;
    let mut pools_used: u32 = 0;
    if pattern.n0_1ETH > 0 {
        pools_used += 1;
    }
    if pattern.n1ETH > 0 {
        pools_used += 1;
    }
    if pattern.n10ETH > 0 {
        pools_used += 1;
    }
    if pattern.n100ETH > 0 {
        pools_used += 1;
    }
    repeated && pools_used > 1
}

} // verus!
