//! The fee-grouping reconciler on synthetic transfer groups.

use tornado_cash_heuristics::canonical_withdraws;
use tornado_cash_heuristics::group_fee_withdraws;
use tornado_cash_heuristics::Address;
use tornado_cash_heuristics::GroupedWithdraw;
use tornado_cash_heuristics::Pool;
use tornado_cash_heuristics::Transfer;
use tornado_cash_heuristics::TxHash;
use tornado_cash_heuristics::TORNADO_CASH_1ETH;

fn xfer(hash: u8, block: u128, from: [u8; 20], to: [u8; 20], value: u128) -> Transfer {
    Transfer {
        hash: TxHash::new([hash; 32]),
        block_number: block,
        from: Address::new(from),
        to: Address::new(to),
        value,
        is_error: 0,
    }
}

#[test]
fn single_transfer_yields_without_relayer() {
    let t = xfer(1, 100, TORNADO_CASH_1ETH, [0xaa; 20], 995);
    let r = group_fee_withdraws(&vec![t]).expect("one transfer groups fine");
    assert_eq!(r, vec![GroupedWithdraw::WithoutRelayer(t)]);
    let w = r[0].to_withdraw();
    assert_eq!(w.receiver, Address::new([0xaa; 20]));
    assert_eq!(w.relayer, Address::new([0xaa; 20]));
    assert_eq!(w.fee.limbs, [0, 0, 0, 0]);
    assert_eq!(w.pool, Pool::_1ETH);
    assert_eq!(w.block_number, 100);
    assert_eq!(w.transaction_hash, TxHash::new([1; 32]));
}

#[test]
fn pair_larger_value_is_principal() {
    let principal = xfer(2, 50, TORNADO_CASH_1ETH, [0xaa; 20], 900);
    let fee = xfer(2, 50, TORNADO_CASH_1ETH, [0xbb; 20], 100);
    let r = group_fee_withdraws(&vec![principal, fee]).expect("a pair groups fine");
    assert_eq!(r, vec![GroupedWithdraw::WithRelayer(principal, fee)]);
    let w = r[0].to_withdraw();
    assert_eq!(w.receiver, Address::new([0xaa; 20]));
    assert_eq!(w.relayer, Address::new([0xbb; 20]));
    assert_eq!(w.fee.limbs, [100, 0, 0, 0]);
}

#[test]
fn pair_order_does_not_matter() {
    let principal = xfer(3, 50, TORNADO_CASH_1ETH, [0xaa; 20], 900);
    let fee = xfer(3, 50, TORNADO_CASH_1ETH, [0xbb; 20], 100);
    let r = group_fee_withdraws(&vec![fee, principal]).expect("a pair groups fine");
    assert_eq!(r, vec![GroupedWithdraw::WithRelayer(principal, fee)]);
}

#[test]
fn equal_values_first_is_principal() {
    let first = xfer(4, 50, TORNADO_CASH_1ETH, [0xaa; 20], 500);
    let second = xfer(4, 50, TORNADO_CASH_1ETH, [0xbb; 20], 500);
    let r = group_fee_withdraws(&vec![first, second]).expect("a pair groups fine");
    assert_eq!(r, vec![GroupedWithdraw::WithRelayer(first, second)]);
}

#[test]
fn three_records_one_hash_is_an_error() {
    let a = xfer(5, 10, TORNADO_CASH_1ETH, [0xaa; 20], 1);
    let b = xfer(5, 10, TORNADO_CASH_1ETH, [0xbb; 20], 2);
    let c = xfer(5, 10, TORNADO_CASH_1ETH, [0xcc; 20], 3);
    let e = group_fee_withdraws(&vec![a, b, c]).expect_err("three records must not group");
    assert_eq!(e.transaction_hash, TxHash::new([5; 32]));
    assert_eq!(
        e.destinations,
        vec![Address::new([0xaa; 20]), Address::new([0xbb; 20]), Address::new([0xcc; 20])]
    );
}

#[test]
fn groups_follow_first_appearance() {
    let a = xfer(6, 10, TORNADO_CASH_1ETH, [0xaa; 20], 7);
    let b1 = xfer(7, 11, TORNADO_CASH_1ETH, [0xbb; 20], 90);
    let b2 = xfer(7, 11, TORNADO_CASH_1ETH, [0xcc; 20], 10);
    let r = group_fee_withdraws(&vec![a, b1, b2]).expect("two groups");
    assert_eq!(
        r,
        vec![
            GroupedWithdraw::WithoutRelayer(a),
            GroupedWithdraw::WithRelayer(b1, b2),
        ]
    );
}

#[test]
fn error_names_the_offending_hash_only() {
    let good = xfer(8, 10, TORNADO_CASH_1ETH, [0xaa; 20], 7);
    let bad1 = xfer(9, 11, TORNADO_CASH_1ETH, [0xbb; 20], 1);
    let bad2 = xfer(9, 11, TORNADO_CASH_1ETH, [0xcc; 20], 2);
    let bad3 = xfer(9, 11, TORNADO_CASH_1ETH, [0xdd; 20], 3);
    let e = group_fee_withdraws(&vec![good, bad1, bad2, bad3]).expect_err("bad group");
    assert_eq!(e.transaction_hash, TxHash::new([9; 32]));
}

#[test]
fn canonical_withdraws_maps_every_group() {
    let single = xfer(11, 10, TORNADO_CASH_1ETH, [0xaa; 20], 7);
    let principal = xfer(12, 11, TORNADO_CASH_1ETH, [0xbb; 20], 90);
    let fee = xfer(12, 11, TORNADO_CASH_1ETH, [0xcc; 20], 10);
    let grouped = group_fee_withdraws(&vec![single, principal, fee]).expect("groups");
    let ws = canonical_withdraws(&grouped);
    assert_eq!(ws.len(), 2);
    assert_eq!(ws[0].receiver, Address::new([0xaa; 20]));
    assert_eq!(ws[0].fee.limbs, [0, 0, 0, 0]);
    assert_eq!(ws[1].receiver, Address::new([0xbb; 20]));
    assert_eq!(ws[1].relayer, Address::new([0xcc; 20]));
    assert_eq!(ws[1].fee.limbs, [10, 0, 0, 0]);
    assert_eq!(ws[1].pool, Pool::_1ETH);
}

#[test]
fn unknown_pool_address_classifies_unknown() {
    let t = xfer(10, 5, [0x01; 20], [0xaa; 20], 42);
    let r = group_fee_withdraws(&vec![t]).expect("groups");
    assert_eq!(r[0].to_withdraw().pool, Pool::Unknown);
}
