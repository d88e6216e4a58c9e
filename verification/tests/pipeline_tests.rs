//! The batch splitter, the pool classifier, the sum checks, and the
//! per-pool report, exercised together on synthetic records.

use ethabi::encode;
use ethabi::Token;
use tornado_cash_heuristics::address_matches;
use tornado_cash_heuristics::check_sum_per_deposit;
use tornado_cash_heuristics::check_sum_per_withdraw;
use tornado_cash_heuristics::pool_by_addr;
use tornado_cash_heuristics::split_deposit_withdraw;
use tornado_cash_heuristics::Address;
use tornado_cash_heuristics::Deposit;
use tornado_cash_heuristics::ESNormalTransaction;
use tornado_cash_heuristics::GroupedWithdraw;
use tornado_cash_heuristics::Pool;
use tornado_cash_heuristics::Transfer;
use tornado_cash_heuristics::TxHash;
use tornado_cash_heuristics::Uint256;
use tornado_cash_heuristics::Withdraw;
use tornado_cash_heuristics::ONE_ETHER_WEI;
use tornado_cash_heuristics::DIRECT_DEPOSIT_SELECTOR;
use tornado_cash_heuristics::ROUTER_WITHDRAW_SELECTOR;
use tornado_cash_heuristics::TORNADO_CASH_0_1ETH;
use tornado_cash_heuristics::TORNADO_CASH_100ETH;
use tornado_cash_heuristics::TORNADO_CASH_10ETH;
use tornado_cash_heuristics::TORNADO_CASH_1ETH;
use tornado_cash_heuristics::TORNADO_CASH_ROUTER;

fn call(hash: u8, block: u128, from: [u8; 20], to: [u8; 20], input: Vec<u8>) -> ESNormalTransaction {
    ESNormalTransaction {
        blockNumber: block,
        timeStamp: 0,
        hash: TxHash::new([hash; 32]),
        nonce: 0,
        blockHash: TxHash::new([0; 32]),
        transactionIndex: 0,
        from: Address::new(from),
        to: Some(Address::new(to)),
        value: 0,
        gas: 0,
        gasPrice: 0,
        isError: 0,
        txreceipt_status: 1,
        input: Some(input),
        contractAddress: None,
        cumulativeGasUsed: 0,
        gasUsed: 0,
        confirmations: 0,
    }
}

#[test]
fn classify_the_five_addresses() {
    assert_eq!(pool_by_addr(&Address::new(TORNADO_CASH_0_1ETH)), Pool::_0_1ETH);
    assert_eq!(pool_by_addr(&Address::new(TORNADO_CASH_1ETH)), Pool::_1ETH);
    assert_eq!(pool_by_addr(&Address::new(TORNADO_CASH_10ETH)), Pool::_10ETH);
    assert_eq!(pool_by_addr(&Address::new(TORNADO_CASH_100ETH)), Pool::_100ETH);
    assert_eq!(pool_by_addr(&Address::new(TORNADO_CASH_ROUTER)), Pool::Unknown);
    assert_eq!(pool_by_addr(&Address::new([0; 20])), Pool::Unknown);
}

#[test]
fn split_reads_direct_and_router_calls() {
    let depositor = [0xaa; 20];
    let recipient = [0xbb; 20];
    let mut deposit_input = DIRECT_DEPOSIT_SELECTOR.to_vec();
    deposit_input.extend(encode(&[Token::FixedBytes(vec![0x55; 32])]));
    let mut withdraw_input = ROUTER_WITHDRAW_SELECTOR.to_vec();
    withdraw_input.extend(encode(&[
        Token::Address(TORNADO_CASH_1ETH.into()),
        Token::Bytes(vec![1]),
        Token::FixedBytes(vec![0x33; 32]),
        Token::FixedBytes(vec![0x44; 32]),
        Token::Address(recipient.into()),
        Token::Address(recipient.into()),
        Token::Uint(3u64.into()),
        Token::Uint(0u64.into()),
    ]));
    let calls = vec![
        call(1, 100, depositor, TORNADO_CASH_1ETH, deposit_input),
        call(2, 150, depositor, TORNADO_CASH_ROUTER, withdraw_input),
        call(3, 160, depositor, TORNADO_CASH_1ETH, vec![1, 2, 3]),
    ];
    let (deposits, withdraws) = split_deposit_withdraw(&calls);
    assert_eq!(deposits.len(), 1);
    assert_eq!(deposits[0].pool, Pool::_1ETH);
    assert_eq!(deposits[0].from, Address::new(depositor));
    assert_eq!(deposits[0].block_number, 100);
    assert_eq!(withdraws.len(), 1);
    assert_eq!(withdraws[0].pool, Pool::_1ETH);
    assert_eq!(withdraws[0].receiver, Address::new(recipient));
    assert_eq!(withdraws[0].fee, Uint256 { limbs: [3, 0, 0, 0] });
}

#[test]
fn record_without_target_or_payload_is_skipped() {
    let mut no_input = call(1, 100, [0xaa; 20], TORNADO_CASH_1ETH, vec![]);
    no_input.input = None;
    let mut no_target = call(2, 100, [0xaa; 20], TORNADO_CASH_1ETH, vec![]);
    no_target.to = None;
    let (deposits, withdraws) = split_deposit_withdraw(&vec![no_input, no_target]);
    assert!(deposits.is_empty());
    assert!(withdraws.is_empty());
}

fn xfer(hash: u8, value: u128, is_error: u128) -> Transfer {
    Transfer {
        hash: TxHash::new([hash; 32]),
        block_number: 1,
        from: Address::new(TORNADO_CASH_1ETH),
        to: Address::new([0xaa; 20]),
        value,
        is_error,
    }
}

#[test]
fn deposit_sums_must_be_one_ether_unless_failed() {
    assert!(check_sum_per_deposit(&vec![xfer(1, ONE_ETHER_WEI, 0)]));
    assert!(!check_sum_per_deposit(&vec![xfer(1, ONE_ETHER_WEI - 1, 0)]));
    assert!(check_sum_per_deposit(&vec![xfer(1, ONE_ETHER_WEI - 1, 1)]));
    assert!(check_sum_per_deposit(&Vec::<Transfer>::new()));
}

#[test]
fn deposit_sum_check_reads_call_records_too() {
    let mut c = call(1, 1, [0xaa; 20], TORNADO_CASH_1ETH, vec![]);
    c.value = ONE_ETHER_WEI;
    assert!(check_sum_per_deposit(&vec![c.clone()]));
    c.value = 5;
    assert!(!check_sum_per_deposit(&vec![c]));
}

#[test]
fn withdraw_sums_include_the_fee() {
    let whole = GroupedWithdraw::WithoutRelayer(xfer(1, ONE_ETHER_WEI, 0));
    assert!(check_sum_per_withdraw(&vec![whole]));
    let split_ok = GroupedWithdraw::WithRelayer(
        xfer(2, ONE_ETHER_WEI - 100, 0),
        xfer(2, 100, 0),
    );
    assert!(check_sum_per_withdraw(&vec![split_ok]));
    let split_short = GroupedWithdraw::WithRelayer(
        xfer(3, ONE_ETHER_WEI - 100, 0),
        xfer(3, 99, 0),
    );
    assert!(!check_sum_per_withdraw(&vec![split_short]));
}

#[test]
fn report_covers_all_four_pools() {
    let x = [0xaa; 20];
    let deposits = vec![
        Deposit::new(TxHash::new([1; 32]), 100, Address::new(TORNADO_CASH_1ETH), Address::new(x)),
        Deposit::new(TxHash::new([2; 32]), 100, Address::new(TORNADO_CASH_10ETH), Address::new(x)),
    ];
    let withdraws = vec![
        Withdraw::new(
            TxHash::new([3; 32]),
            150,
            Address::new(TORNADO_CASH_1ETH),
            Address::new(x),
            Address::new(x),
            Uint256 { limbs: [0; 4] },
        ),
    ];
    let reports = address_matches(&deposits, &withdraws);
    assert_eq!(reports.len(), 4);
    assert_eq!(reports[0].pool, Pool::_0_1ETH);
    assert_eq!(reports[0].deposits_analyzed, 0);
    assert_eq!(reports[0].matches.len(), 0);
    assert_eq!(reports[1].pool, Pool::_1ETH);
    assert_eq!(reports[1].deposits_analyzed, 1);
    assert_eq!(reports[1].withdraws_analyzed, 1);
    assert_eq!(reports[1].matches.len(), 1);
    assert_eq!(reports[1].matches[0].address, Address::new(x));
    assert_eq!(reports[2].pool, Pool::_10ETH);
    assert_eq!(reports[2].deposits_analyzed, 1);
    assert_eq!(reports[2].matches.len(), 0);
    assert_eq!(reports[3].pool, Pool::_100ETH);
}

#[test]
fn uint256_embeds_128_bit_values() {
    let small = Uint256::from_u128(5);
    assert_eq!(small.limbs, [5, 0, 0, 0]);
    let wide = Uint256::from_u128((1u128 << 64) + 7);
    assert_eq!(wide.limbs, [7, 1, 0, 0]);
}
