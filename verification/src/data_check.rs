//! Sanity checks over raw records: every deposit-shaped transfer and every
//! reconstructed withdrawal of the 1 ETH pool should move exactly one
//! ether, unless the record is marked failed.

use vstd::prelude::*;
use crate::data::ESTransaction;
use crate::grouping::GroupedWithdraw;

verus! {

/// One ether, in wei.
pub const ONE_ETHER_WEI: u128 = 1_000_000_000_000_000_000;

/// A deposit-shaped record moves exactly one ether or is marked failed.
pub open spec fn spec_deposit_sum_ok<T: ESTransaction>(t: T) -> bool {
    t.spec_value() == ONE_ETHER_WEI || t.spec_is_error() != 0
}

/// A reconstructed withdrawal's transfers sum to exactly one ether, fee
/// included, or its payout is marked failed.
pub open spec fn spec_withdraw_sum_ok(g: GroupedWithdraw) -> bool {
    match g {
        GroupedWithdraw::WithoutRelayer(t) => t.value == ONE_ETHER_WEI || t.is_error != 0,
        GroupedWithdraw::WithRelayer(p, f) => p.value + f.value == ONE_ETHER_WEI || p.is_error
            != 0,
    }
}

/// Do all deposit-shaped records move exactly one ether, unless failed?
pub fn check_sum_per_deposit<T: ESTransaction>(deposits: &Vec<T>) -> (r: bool)
    ensures
        r == (forall|i: int|
            0 <= i < deposits@.len() ==> spec_deposit_sum_ok(#[trigger] deposits@[i])),
{
    let mut i: usize = 0;
    while i < deposits.len()
        invariant
            i <= deposits@.len(),
            forall|j: int| 0 <= j < i ==> spec_deposit_sum_ok(#[trigger] deposits@[j]),
        decreases deposits@.len() - i,
    {
        let value = deposits[i].transaction_value();
        let is_error = deposits[i].transaction_is_error();
        if !(value == ONE_ETHER_WEI || is_error != 0) {
            assert(!spec_deposit_sum_ok(deposits@[i as int]));
            return false;
        }
        i += 1;
    }
    true
}

/// Do all reconstructed withdrawals sum to exactly one ether, unless
/// failed?
pub fn check_sum_per_withdraw(withdraws: &Vec<GroupedWithdraw>) -> (r: bool)
    ensures
        r == (forall|i: int|
            0 <= i < withdraws@.len() ==> spec_withdraw_sum_ok(#[trigger] withdraws@[i])),
{
    let mut i: usize = 0;
    while i < withdraws.len()
        invariant
            i <= withdraws@.len(),
            forall|j: int| 0 <= j < i ==> spec_withdraw_sum_ok(#[trigger] withdraws@[j]),
        decreases withdraws@.len() - i,
    {
        let ok = match &withdraws[i] {
            GroupedWithdraw::WithoutRelayer(t) => t.value == ONE_ETHER_WEI || t.is_error != 0,
            GroupedWithdraw::WithRelayer(p, f) => (p.value <= ONE_ETHER_WEI && f.value
                == ONE_ETHER_WEI - p.value) || p.is_error != 0,
        };
        if !ok {
            assert(!spec_withdraw_sum_ok(withdraws@[i as int]));
            return false;
        }
        i += 1;
    }
    true
}

} // verus!
