//! The two heuristics on synthetic canonical events.

use tornado_cash_heuristics::collect_pools;
use tornado_cash_heuristics::earlier;
use tornado_cash_heuristics::get_address_matches;
use tornado_cash_heuristics::match_patterns;
use tornado_cash_heuristics::pattern_is_interesting;
use tornado_cash_heuristics::pattern_of;
use tornado_cash_heuristics::Address;
use tornado_cash_heuristics::Deposit;
use tornado_cash_heuristics::DepositWithdrawPattern;
use tornado_cash_heuristics::TxHash;
use tornado_cash_heuristics::Uint256;
use tornado_cash_heuristics::Withdraw;
use tornado_cash_heuristics::TORNADO_CASH_0_1ETH;
use tornado_cash_heuristics::TORNADO_CASH_10ETH;
use tornado_cash_heuristics::TORNADO_CASH_1ETH;

fn dep(hash: u8, block: u128, pool: [u8; 20], from: [u8; 20]) -> Deposit {
    Deposit::new(TxHash::new([hash; 32]), block, Address::new(pool), Address::new(from))
}

fn wit(hash: u8, block: u128, pool: [u8; 20], to: [u8; 20]) -> Withdraw {
    Withdraw::new(
        TxHash::new([hash; 32]),
        block,
        Address::new(pool),
        Address::new(to),
        Address::new(to),
        Uint256 { limbs: [0; 4] },
    )
}

const X: [u8; 20] = [0xaa; 20];
const Y: [u8; 20] = [0xbb; 20];
const Z: [u8; 20] = [0xcc; 20];

#[test]
fn deposit_then_later_withdraw_is_reported() {
    let deposits = vec![dep(1, 100, TORNADO_CASH_1ETH, X)];
    let withdraws = vec![wit(2, 150, TORNADO_CASH_1ETH, X)];
    let r = get_address_matches(&deposits, &withdraws);
    assert_eq!(r.len(), 1);
    assert_eq!(r[0].address, Address::new(X));
    assert_eq!(r[0].deposits.len(), 1);
    assert_eq!(r[0].deposits[0].block_number, 100);
    assert_eq!(r[0].withdraws.len(), 1);
    assert_eq!(r[0].withdraws[0].block_number, 150);
}

#[test]
fn withdraw_at_earliest_deposit_block_is_not_reported() {
    let deposits = vec![dep(1, 100, TORNADO_CASH_1ETH, X)];
    let withdraws = vec![wit(2, 100, TORNADO_CASH_1ETH, X)];
    assert!(get_address_matches(&deposits, &withdraws).is_empty());
}

#[test]
fn withdraw_before_deposit_is_not_reported() {
    let deposits = vec![dep(1, 100, TORNADO_CASH_1ETH, X)];
    let withdraws = vec![wit(2, 50, TORNADO_CASH_1ETH, X)];
    assert!(get_address_matches(&deposits, &withdraws).is_empty());
}

#[test]
fn withdraw_to_another_address_is_not_reported() {
    let deposits = vec![dep(1, 100, TORNADO_CASH_1ETH, X)];
    let withdraws = vec![wit(2, 150, TORNADO_CASH_1ETH, Y)];
    assert!(get_address_matches(&deposits, &withdraws).is_empty());
}

#[test]
fn only_late_withdraws_are_listed() {
    let deposits = vec![dep(1, 100, TORNADO_CASH_1ETH, X), dep(2, 300, TORNADO_CASH_1ETH, X)];
    let withdraws = vec![
        wit(3, 50, TORNADO_CASH_1ETH, X),
        wit(4, 150, TORNADO_CASH_1ETH, X),
        wit(5, 400, TORNADO_CASH_1ETH, X),
    ];
    let r = get_address_matches(&deposits, &withdraws);
    assert_eq!(r.len(), 1);
    let blocks: Vec<u128> = r[0].withdraws.iter().map(|w| w.block_number).collect();
    assert_eq!(blocks, vec![150, 400]);
}

fn p6_deposits() -> Vec<Deposit> {
    vec![
        dep(1, 10, TORNADO_CASH_0_1ETH, X),
        dep(2, 20, TORNADO_CASH_0_1ETH, X),
        dep(3, 30, TORNADO_CASH_1ETH, X),
    ]
}

fn p6_withdraws() -> Vec<Withdraw> {
    vec![
        wit(4, 40, TORNADO_CASH_0_1ETH, Y),
        wit(5, 50, TORNADO_CASH_0_1ETH, Y),
        wit(6, 60, TORNADO_CASH_1ETH, Y),
    ]
}

#[test]
fn matching_pattern_is_reported() {
    let r = match_patterns(&p6_deposits(), &p6_withdraws());
    assert_eq!(r.len(), 1);
    let (da, wa, pat) = r[0];
    assert_eq!(da, Address::new(X));
    assert_eq!(wa, Address::new(Y));
    assert_eq!(pat, DepositWithdrawPattern { n0_1ETH: 2, n1ETH: 1, n10ETH: 0, n100ETH: 0 });
}

#[test]
fn second_withdrawer_with_same_pattern_removes_both() {
    let deposits = p6_deposits();
    let mut withdraws = p6_withdraws();
    withdraws.push(wit(7, 70, TORNADO_CASH_0_1ETH, Z));
    withdraws.push(wit(8, 80, TORNADO_CASH_0_1ETH, Z));
    withdraws.push(wit(9, 90, TORNADO_CASH_1ETH, Z));
    assert!(match_patterns(&deposits, &withdraws).is_empty());
}

#[test]
fn pattern_failing_temporal_order_is_discarded() {
    let deposits = p6_deposits();
    let mut withdraws = p6_withdraws();
    // the first-ranked withdraw from the 0.1 pool now precedes the
    // first-ranked deposit into it
    withdraws[0] = wit(4, 5, TORNADO_CASH_0_1ETH, Y);
    assert!(match_patterns(&deposits, &withdraws).is_empty());
}

#[test]
fn single_pool_pattern_is_not_interesting() {
    let deposits = vec![
        dep(1, 10, TORNADO_CASH_0_1ETH, X),
        dep(2, 20, TORNADO_CASH_0_1ETH, X),
    ];
    let withdraws = vec![
        wit(3, 40, TORNADO_CASH_0_1ETH, Y),
        wit(4, 50, TORNADO_CASH_0_1ETH, Y),
    ];
    assert!(match_patterns(&deposits, &withdraws).is_empty());
}

#[test]
fn pattern_without_repetition_is_not_interesting() {
    let deposits = vec![
        dep(1, 10, TORNADO_CASH_0_1ETH, X),
        dep(2, 20, TORNADO_CASH_1ETH, X),
    ];
    let withdraws = vec![
        wit(3, 40, TORNADO_CASH_0_1ETH, Y),
        wit(4, 50, TORNADO_CASH_1ETH, Y),
    ];
    assert!(match_patterns(&deposits, &withdraws).is_empty());
}

#[test]
fn pattern_of_counts_per_pool() {
    let p = pattern_of(&p6_deposits());
    assert_eq!(p, DepositWithdrawPattern { n0_1ETH: 2, n1ETH: 1, n10ETH: 0, n100ETH: 0 });
}

#[test]
fn interesting_needs_repetition_and_two_pools() {
    let repeated_two_pools = DepositWithdrawPattern { n0_1ETH: 2, n1ETH: 1, n10ETH: 0, n100ETH: 0 };
    assert!(pattern_is_interesting(&repeated_two_pools));
    let one_pool = DepositWithdrawPattern { n0_1ETH: 5, n1ETH: 0, n10ETH: 0, n100ETH: 0 };
    assert!(!pattern_is_interesting(&one_pool));
    let no_repetition = DepositWithdrawPattern { n0_1ETH: 1, n1ETH: 1, n10ETH: 1, n100ETH: 1 };
    assert!(!pattern_is_interesting(&no_repetition));
}

#[test]
fn collect_pools_partitions_and_sorts() {
    let events = vec![
        dep(1, 30, TORNADO_CASH_0_1ETH, X),
        dep(2, 10, TORNADO_CASH_0_1ETH, Y),
        dep(3, 20, TORNADO_CASH_1ETH, X),
        dep(4, 20, TORNADO_CASH_10ETH, X),
        dep(5, 99, [0x01; 20], X),
    ];
    let (p0, p1, p2, p3) = collect_pools(&events);
    let blocks0: Vec<u128> = p0.iter().map(|d| d.block_number).collect();
    assert_eq!(blocks0, vec![10, 30]);
    assert_eq!(p1.len(), 1);
    assert_eq!(p2.len(), 1);
    assert!(p3.is_empty());
}

#[test]
fn earlier_compares_rank_by_rank() {
    let ds = vec![dep(1, 10, TORNADO_CASH_0_1ETH, X), dep(2, 20, TORNADO_CASH_0_1ETH, X)];
    let ws_ok = vec![wit(3, 15, TORNADO_CASH_0_1ETH, Y), wit(4, 20, TORNADO_CASH_0_1ETH, Y)];
    assert!(earlier(&ds, &ws_ok));
    let ws_bad = vec![wit(3, 5, TORNADO_CASH_0_1ETH, Y), wit(4, 50, TORNADO_CASH_0_1ETH, Y)];
    assert!(!earlier(&ds, &ws_bad));
}
