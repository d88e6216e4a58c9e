//! The reporting adapter: run the address-reuse matcher once per pool and
//! hand back one inspectable result shape per pool, ready for printing by
//! whatever sits on top.

use vstd::prelude::*;
use crate::analyze::AddressMatch;
use crate::analyze::get_address_matches;
use crate::analyze::spec_get_address_matches;
use crate::data::Deposit;
use crate::data::Pool;
use crate::data::Withdraw;
use crate::helpers::collect_pools;
use crate::helpers::pool_slice_ok;

verus! {

/// What the address-reuse heuristic found in one pool.
#[derive(Clone, Debug)]
pub struct PoolMatches {
    pub pool: Pool,
    pub deposits_analyzed: usize,
    pub withdraws_analyzed: usize,
    pub matches: Vec<AddressMatch>,
}

/// A pool's report comes from that pool's block-ordered deposits and
/// withdraws: the counts are theirs, and the matches are the address-reuse
/// matcher's answer on them.
pub open spec fn pool_report_ok(
    ds: Seq<Deposit>,
    ws: Seq<Withdraw>,
    p: Pool,
    rep: PoolMatches,
) -> bool {
    exists|dsp: Seq<Deposit>, wsp: Seq<Withdraw>|
        {
            &&& #[trigger] pool_slice_ok(ds, p, dsp)
            &&& #[trigger] pool_slice_ok(ws, p, wsp)
            &&& rep.pool == p
            &&& rep.deposits_analyzed == dsp.len()
            &&& rep.withdraws_analyzed == wsp.len()
            &&& rep.matches@.map_values(|m: AddressMatch| m@) == spec_get_address_matches(dsp, wsp)
        }
}

/// Run the address-reuse matcher once per pool, on that pool's events
/// ordered by block, and report each pool's counts and matches.
pub fn address_matches(deposits: &Vec<Deposit>, withdraws: &Vec<Withdraw>) -> (r: Vec<PoolMatches>)
    ensures
        r@.len() == 4,
        pool_report_ok(deposits@, withdraws@, Pool::_0_1ETH, r@[0]),
        pool_report_ok(deposits@, withdraws@, Pool::_1ETH, r@[1]),
        pool_report_ok(deposits@, withdraws@, Pool::_10ETH, r@[2]),
        pool_report_ok(deposits@, withdraws@, Pool::_100ETH, r@[3]),
{
    let (d0, d1, d2, d3) = collect_pools(deposits);
    let (w0, w1, w2, w3) = collect_pools(withdraws);
    let mut out: Vec<PoolMatches> = Vec::new();
    let m0 = get_address_matches(&d0, &w0);
    let rep0 = PoolMatches {
        pool: Pool::_0_1ETH,
        deposits_analyzed: d0.len(),
        withdraws_analyzed: w0.len(),
        matches: m0,
    };
    proof {
        assert(pool_report_ok(deposits@, withdraws@, Pool::_0_1ETH, rep0)) by {
            assert(pool_slice_ok(deposits@, Pool::_0_1ETH, d0@) && pool_slice_ok(
                withdraws@,
                Pool::_0_1ETH,
                w0@,
            ));
        }
    }
    out.push(rep0);
    let m1 = get_address_matches(&d1, &w1);
    let rep1 = PoolMatches {
        pool: Pool::_1ETH,
        deposits_analyzed: d1.len(),
        withdraws_analyzed: w1.len(),
        matches: m1,
    };
    proof {
        assert(pool_report_ok(deposits@, withdraws@, Pool::_1ETH, rep1)) by {
            assert(pool_slice_ok(deposits@, Pool::_1ETH, d1@) && pool_slice_ok(
                withdraws@,
                Pool::_1ETH,
                w1@,
            ));
        }
    }
    out.push(rep1);
    let m2 = get_address_matches(&d2, &w2);
    let rep2 = PoolMatches {
        pool: Pool::_10ETH,
        deposits_analyzed: d2.len(),
        withdraws_analyzed: w2.len(),
        matches: m2,
    };
    proof {
        assert(pool_report_ok(deposits@, withdraws@, Pool::_10ETH, rep2)) by {
            assert(pool_slice_ok(deposits@, Pool::_10ETH, d2@) && pool_slice_ok(
                withdraws@,
                Pool::_10ETH,
                w2@,
            ));
        }
    }
    out.push(rep2);
    let m3 = get_address_matches(&d3, &w3);
    let rep3 = PoolMatches {
        pool: Pool::_100ETH,
        deposits_analyzed: d3.len(),
        withdraws_analyzed: w3.len(),
        matches: m3,
    };
    proof {
        assert(pool_report_ok(deposits@, withdraws@, Pool::_100ETH, rep3)) by {
            assert(pool_slice_ok(deposits@, Pool::_100ETH, d3@) && pool_slice_ok(
                withdraws@,
                Pool::_100ETH,
                w3@,
            ));
        }
    }
    out.push(rep3);
    out
}

} // verus!
