//! The four hard-coded function selectors must equal what ethabi computes
//! from the canonical signatures.

use ethabi::short_signature;
use ethabi::ParamType;
use tornado_cash_heuristics::DIRECT_DEPOSIT_SELECTOR;
use tornado_cash_heuristics::DIRECT_WITHDRAW_SELECTOR;
use tornado_cash_heuristics::ROUTER_DEPOSIT_SELECTOR;
use tornado_cash_heuristics::ROUTER_WITHDRAW_SELECTOR;

#[test]
fn direct_withdraw_selector_matches_abi() {
    let sig = short_signature(
        "withdraw",
        &[
            ParamType::Bytes,
            ParamType::FixedBytes(32),
            ParamType::FixedBytes(32),
            ParamType::Address,
            ParamType::Address,
            ParamType::Uint(256),
            ParamType::Uint(256),
        ],
    );
    assert_eq!(sig, DIRECT_WITHDRAW_SELECTOR);
}

#[test]
fn direct_deposit_selector_matches_abi() {
    let sig = short_signature("deposit", &[ParamType::FixedBytes(32)]);
    assert_eq!(sig, DIRECT_DEPOSIT_SELECTOR);
}

#[test]
fn router_withdraw_selector_matches_abi() {
    let sig = short_signature(
        "withdraw",
        &[
            ParamType::Address,
            ParamType::Bytes,
            ParamType::FixedBytes(32),
            ParamType::FixedBytes(32),
            ParamType::Address,
            ParamType::Address,
            ParamType::Uint(256),
            ParamType::Uint(256),
        ],
    );
    assert_eq!(sig, ROUTER_WITHDRAW_SELECTOR);
}

#[test]
fn router_deposit_selector_matches_abi() {
    let sig = short_signature(
        "deposit",
        &[ParamType::Address, ParamType::FixedBytes(32), ParamType::Bytes],
    );
    assert_eq!(sig, ROUTER_DEPOSIT_SELECTOR);
}
