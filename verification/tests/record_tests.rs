//! Parsing exported string records into typed records.

use tornado_cash_heuristics::hex_decode_bytes;
use tornado_cash_heuristics::parse_address;
use tornado_cash_heuristics::parse_txhash;
use tornado_cash_heuristics::parse_u128;
use tornado_cash_heuristics::Address;
use tornado_cash_heuristics::ESNormalTransactionStrings;
use tornado_cash_heuristics::TxHash;

fn valid_record() -> ESNormalTransactionStrings {
    ESNormalTransactionStrings {
        blockNumber: "123".to_string(),
        timeStamp: "456".to_string(),
        hash: format!("0x{}", "ab".repeat(32)),
        nonce: "1".to_string(),
        blockHash: format!("0x{}", "cd".repeat(32)),
        transactionIndex: "0".to_string(),
        from: format!("0x{}", "11".repeat(20)),
        to: format!("0x{}", "22".repeat(20)),
        value: "1000000000000000000".to_string(),
        gas: "21000".to_string(),
        gasPrice: "2".to_string(),
        isError: "0".to_string(),
        txreceipt_status: "1".to_string(),
        input: "0xb214faa5".to_string(),
        contractAddress: "".to_string(),
        cumulativeGasUsed: "5".to_string(),
        gasUsed: "3".to_string(),
        confirmations: "10".to_string(),
    }
}

#[test]
fn valid_record_parses() {
    let t = valid_record().to_transaction().expect("record parses");
    assert_eq!(t.blockNumber, 123);
    assert_eq!(t.timeStamp, 456);
    assert_eq!(t.hash, TxHash::new([0xab; 32]));
    assert_eq!(t.blockHash, TxHash::new([0xcd; 32]));
    assert_eq!(t.from, Address::new([0x11; 20]));
    assert_eq!(t.to, Some(Address::new([0x22; 20])));
    assert_eq!(t.value, 1_000_000_000_000_000_000);
    assert_eq!(t.isError, 0);
    assert_eq!(t.input, Some(vec![0xb2, 0x14, 0xfa, 0xa5]));
    assert_eq!(t.contractAddress, None);
    assert_eq!(t.confirmations, 10);
}

#[test]
fn empty_to_parses_to_none() {
    let mut r = valid_record();
    r.to = "".to_string();
    let t = r.to_transaction().expect("record parses");
    assert_eq!(t.to, None);
}

#[test]
fn empty_input_parses_to_none() {
    let mut r = valid_record();
    r.input = "".to_string();
    let t = r.to_transaction().expect("record parses");
    assert_eq!(t.input, None);
}

#[test]
fn non_digit_number_is_rejected() {
    let mut r = valid_record();
    r.blockNumber = "12a".to_string();
    assert!(r.to_transaction().is_none());
}

#[test]
fn plus_sign_is_rejected() {
    let mut r = valid_record();
    r.value = "+5".to_string();
    assert!(r.to_transaction().is_none());
}

#[test]
fn out_of_range_number_is_rejected() {
    let mut r = valid_record();
    // one past the largest 128-bit value
    r.value = "340282366920938463463374607431768211456".to_string();
    assert!(r.to_transaction().is_none());
}

#[test]
fn wrong_hash_width_is_rejected() {
    let mut r = valid_record();
    r.hash = "0xabcd".to_string();
    assert!(r.to_transaction().is_none());
}

#[test]
fn block_hash_without_prefix_parses() {
    let mut r = valid_record();
    r.blockHash = "cd".repeat(32);
    let t = r.to_transaction().expect("record parses");
    assert_eq!(t.blockHash, TxHash::new([0xcd; 32]));
}

#[test]
fn odd_length_input_is_rejected() {
    let mut r = valid_record();
    r.input = "0xabc".to_string();
    assert!(r.to_transaction().is_none());
}

#[test]
fn parse_u128_reads_decimal() {
    assert_eq!(parse_u128(b"0"), Some(0));
    assert_eq!(parse_u128(b"340282366920938463463374607431768211455"), Some(u128::MAX));
    assert_eq!(parse_u128(b"340282366920938463463374607431768211456"), None);
    assert_eq!(parse_u128(b""), None);
    assert_eq!(parse_u128(b" 1"), None);
}

#[test]
fn hex_decode_reads_both_cases() {
    assert_eq!(hex_decode_bytes(b"0aFf"), Some(vec![0x0a, 0xff]));
    assert_eq!(hex_decode_bytes(b""), Some(vec![]));
    assert_eq!(hex_decode_bytes(b"abc"), None);
    assert_eq!(hex_decode_bytes(b"zz"), None);
}

#[test]
fn fixed_width_parsers_check_length() {
    assert_eq!(parse_address(&[0x31; 40]), Some(Address::new([0x11; 20])));
    assert_eq!(parse_address(&[0x31; 39]), None);
    assert_eq!(parse_txhash(&[0x31; 64]), Some(TxHash::new([0x11; 32])));
    assert_eq!(parse_txhash(&[0x31; 63]), None);
}
