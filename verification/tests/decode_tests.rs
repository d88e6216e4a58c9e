//! Decoding real ABI-encoded payloads through the payload decoder.

use ethabi::encode;
use ethabi::Token;
use tornado_cash_heuristics::decode;
use tornado_cash_heuristics::parse_pool_call;
use tornado_cash_heuristics::parse_router_call;
use tornado_cash_heuristics::router_address;
use tornado_cash_heuristics::Address;
use tornado_cash_heuristics::DecodedCall;
use tornado_cash_heuristics::PoolCall;
use tornado_cash_heuristics::RouterCall;
use tornado_cash_heuristics::Uint256;
use tornado_cash_heuristics::DIRECT_DEPOSIT_SELECTOR;
use tornado_cash_heuristics::DIRECT_WITHDRAW_SELECTOR;
use tornado_cash_heuristics::ROUTER_DEPOSIT_SELECTOR;
use tornado_cash_heuristics::ROUTER_WITHDRAW_SELECTOR;

fn direct_withdraw_input() -> Vec<u8> {
    let tokens = vec![
        Token::Bytes(vec![1, 2, 3]),
        Token::FixedBytes(vec![0x11; 32]),
        Token::FixedBytes(vec![0x22; 32]),
        Token::Address([0xaa; 20].into()),
        Token::Address([0xbb; 20].into()),
        Token::Uint(500u64.into()),
        Token::Uint(7u64.into()),
    ];
    let mut input = DIRECT_WITHDRAW_SELECTOR.to_vec();
    input.extend(encode(&tokens));
    input
}

fn router_withdraw_input() -> Vec<u8> {
    let tokens = vec![
        Token::Address([0xcc; 20].into()),
        Token::Bytes(vec![9, 9]),
        Token::FixedBytes(vec![0x33; 32]),
        Token::FixedBytes(vec![0x44; 32]),
        Token::Address([0xaa; 20].into()),
        Token::Address([0xbb; 20].into()),
        Token::Uint(12u64.into()),
        Token::Uint(0u64.into()),
    ];
    let mut input = ROUTER_WITHDRAW_SELECTOR.to_vec();
    input.extend(encode(&tokens));
    input
}

#[test]
fn direct_withdraw_decodes() {
    let input = direct_withdraw_input();
    match parse_pool_call(&input) {
        PoolCall::Withdraw(w) => {
            assert_eq!(w.proof_data, vec![1, 2, 3]);
            assert_eq!(w.root, vec![0x11; 32]);
            assert_eq!(w.nullifier_hash, vec![0x22; 32]);
            assert_eq!(w.recipient, Address::new([0xaa; 20]));
            assert_eq!(w.relayer, Address::new([0xbb; 20]));
            assert_eq!(w.fee, Uint256 { limbs: [500, 0, 0, 0] });
            assert_eq!(w.refund, Uint256 { limbs: [7, 0, 0, 0] });
        }
        other => panic!("expected a withdraw, got {:?}", other),
    }
}

#[test]
fn direct_deposit_decodes() {
    let tokens = vec![Token::FixedBytes(vec![0x55; 32])];
    let mut input = DIRECT_DEPOSIT_SELECTOR.to_vec();
    input.extend(encode(&tokens));
    match parse_pool_call(&input) {
        PoolCall::Deposit(d) => assert_eq!(d.commitment, vec![0x55; 32]),
        other => panic!("expected a deposit, got {:?}", other),
    }
}

#[test]
fn router_withdraw_decodes() {
    let input = router_withdraw_input();
    match parse_router_call(&input) {
        RouterCall::Withdraw(w) => {
            assert_eq!(w.tornado, Address::new([0xcc; 20]));
            assert_eq!(w.proof_data, vec![9, 9]);
            assert_eq!(w.root, vec![0x33; 32]);
            assert_eq!(w.nullifier_hash, vec![0x44; 32]);
            assert_eq!(w.recipient, Address::new([0xaa; 20]));
            assert_eq!(w.relayer, Address::new([0xbb; 20]));
            assert_eq!(w.fee, Uint256 { limbs: [12, 0, 0, 0] });
        }
        other => panic!("expected a withdraw, got {:?}", other),
    }
}

#[test]
fn router_deposit_decodes() {
    let tokens = vec![
        Token::Address([0xdd; 20].into()),
        Token::FixedBytes(vec![0x66; 32]),
        Token::Bytes(vec![7, 8, 9, 10]),
    ];
    let mut input = ROUTER_DEPOSIT_SELECTOR.to_vec();
    input.extend(encode(&tokens));
    match parse_router_call(&input) {
        RouterCall::Deposit(d) => {
            assert_eq!(d.tornado, Address::new([0xdd; 20]));
            assert_eq!(d.commitment, vec![0x66; 32]);
            assert_eq!(d.encrypted_note, vec![7, 8, 9, 10]);
        }
        other => panic!("expected a deposit, got {:?}", other),
    }
}

#[test]
fn decode_dispatches_on_target() {
    let input = router_withdraw_input();
    match decode(&router_address(), &input) {
        DecodedCall::RouterWithdraw(w) => assert_eq!(w.tornado, Address::new([0xcc; 20])),
        other => panic!("expected a router withdraw, got {:?}", other),
    }
    // the same payload sent to a non-router target reads as a pool call,
    // and the router selector is no pool selector
    match decode(&Address::new([9; 20]), &input) {
        DecodedCall::Unrecognized => {}
        other => panic!("expected unrecognized, got {:?}", other),
    }
    let direct = direct_withdraw_input();
    match decode(&Address::new([9; 20]), &direct) {
        DecodedCall::PoolWithdraw(w) => assert_eq!(w.recipient, Address::new([0xaa; 20])),
        other => panic!("expected a pool withdraw, got {:?}", other),
    }
}

#[test]
fn decode_is_idempotent() {
    let input = router_withdraw_input();
    let target = router_address();
    let first = decode(&target, &input);
    let second = decode(&target, &input);
    assert_eq!(first, second);
    let direct = direct_withdraw_input();
    let pool_target = Address::new([3; 20]);
    assert_eq!(decode(&pool_target, &direct), decode(&pool_target, &direct));
}

#[test]
fn unknown_selector_is_unrecognized() {
    let input = vec![0xde, 0xad, 0xbe, 0xef, 0, 0, 0, 0];
    assert_eq!(parse_pool_call(&input), PoolCall::Other);
    assert_eq!(parse_router_call(&input), RouterCall::Other);
    assert_eq!(decode(&Address::new([1; 20]), &input), DecodedCall::Unrecognized);
}

#[test]
fn short_input_is_unrecognized() {
    assert_eq!(parse_pool_call(&[0xb2, 0x14]), PoolCall::Other);
    assert_eq!(parse_router_call(&[]), RouterCall::Other);
}

#[test]
fn undecodable_payload_is_unrecognized() {
    let mut input = DIRECT_WITHDRAW_SELECTOR.to_vec();
    input.extend([0u8; 10]);
    assert_eq!(parse_pool_call(&input), PoolCall::Other);
    let mut rinput = ROUTER_WITHDRAW_SELECTOR.to_vec();
    rinput.extend([1u8; 5]);
    assert_eq!(parse_router_call(&rinput), RouterCall::Other);
}
