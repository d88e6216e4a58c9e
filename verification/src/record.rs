//! Exported transaction records: the string-typed shape the export format
//! delivers, and its verified conversion into the typed record the decoder
//! works on.

use vstd::prelude::*;
use vstd::slice::slice_subrange;
use vstd::utf8::encode_utf8;
use crate::data::ESTransaction;
use crate::parsing::all_hex;
use crate::parsing::dec_parses;
use crate::parsing::dec_value;
use crate::parsing::hex_decoded;
use crate::parsing::hex_parses;
use crate::parsing::hex_decode_bytes;
use crate::parsing::parse_address;
use crate::parsing::parse_txhash;
use crate::parsing::parse_u128;
use crate::types::Address;
use crate::types::TxHash;

verus! {

/// One exported record, every field still the decimal or hex string the
/// export format delivers.
#[allow(non_snake_case)]
#[derive(Clone, Debug, PartialEq, Eq)]
pub struct ESNormalTransactionStrings {
    pub blockNumber: String,
    pub timeStamp: String,
    pub hash: String,
    pub nonce: String,
    pub blockHash: String,
    pub transactionIndex: String,
    pub from: String,
    pub to: String,
    pub value: String,
    pub gas: String,
    pub gasPrice: String,
    pub isError: String,
    pub txreceipt_status: String,
    pub input: String,
    pub contractAddress: String,
    pub cumulativeGasUsed: String,
    pub gasUsed: String,
    pub confirmations: String,
}

/// One exported record with its fields parsed into plain values.
#[allow(non_snake_case)]
#[derive(Clone, Debug, PartialEq, Eq)]
pub struct ESNormalTransaction {
    pub blockNumber: u128,
    pub timeStamp: u128,
    pub hash: TxHash,
    pub nonce: u128,
    pub blockHash: TxHash,
    pub transactionIndex: u128,
    pub from: Address,
    pub to: Option<Address>,
    pub value: u128,
    pub gas: u128,
    pub gasPrice: u128,
    pub isError: u128,
    pub txreceipt_status: u128,
    pub input: Option<Vec<u8>>,
    pub contractAddress: Option<Address>,
    pub cumulativeGasUsed: u128,
    pub gasUsed: u128,
    pub confirmations: u128,
}

/// A field that leads with a two-character prefix (`0x`) and then holds a
/// 64-digit transaction hash.
pub open spec fn hash_field_ok(b: Seq<u8>) -> bool {
    b.len() == 66 && all_hex(b.skip(2))
}

/// The hash bytes of such a field.
pub open spec fn hash_field_val(b: Seq<u8>) -> Seq<u8> {
    hex_decoded(b.skip(2))
}

/// A field that leads with a two-character prefix (`0x`) and then holds a
/// 40-digit address.
pub open spec fn addr_field_ok(b: Seq<u8>) -> bool {
    b.len() == 42 && all_hex(b.skip(2))
}

/// The address bytes of such a field.
pub open spec fn addr_field_val(b: Seq<u8>) -> Seq<u8> {
    hex_decoded(b.skip(2))
}

/// A leading `0x`, removed if present.
pub open spec fn strip0x(b: Seq<u8>) -> Seq<u8> {
    if b.len() >= 2 && b[0] == 0x30 && b[1] == 0x78 {
        b.skip(2)
    } else {
        b
    }
}

/// A block-hash field: an optional `0x`, then a 64-digit hash.
pub open spec fn blockhash_field_ok(b: Seq<u8>) -> bool {
    strip0x(b).len() == 64 && all_hex(strip0x(b))
}

/// A call-input field: a two-character prefix (`0x`), then an even number
/// of hex digits.
pub open spec fn input_field_ok(b: Seq<u8>) -> bool {
    b.len() >= 2 && hex_parses(b.skip(2))
}

/// The payload bytes of such a field.
pub open spec fn input_field_val(b: Seq<u8>) -> Seq<u8> {
    hex_decoded(b.skip(2))
}

/// Every field of the record parses: numeric fields as decimal `u128`,
/// hash and address fields as prefixed hex of fixed width, and the
/// optional fields (`to`, `input`, `contractAddress`) either empty or well
/// formed.
pub open spec fn spec_record_parses(r: ESNormalTransactionStrings) -> bool {
    &&& dec_parses(encode_utf8(r.blockNumber@))
    &&& dec_parses(encode_utf8(r.timeStamp@))
    &&& hash_field_ok(encode_utf8(r.hash@))
    &&& dec_parses(encode_utf8(r.nonce@))
    &&& blockhash_field_ok(encode_utf8(r.blockHash@))
    &&& dec_parses(encode_utf8(r.transactionIndex@))
    &&& addr_field_ok(encode_utf8(r.from@))
    &&& (r.to@.len() == 0 || addr_field_ok(encode_utf8(r.to@)))
    &&& dec_parses(encode_utf8(r.value@))
    &&& dec_parses(encode_utf8(r.gas@))
    &&& dec_parses(encode_utf8(r.gasPrice@))
    &&& dec_parses(encode_utf8(r.isError@))
    &&& dec_parses(encode_utf8(r.txreceipt_status@))
    &&& (r.input@.len() == 0 || input_field_ok(encode_utf8(r.input@)))
    &&& (r.contractAddress@.len() == 0 || addr_field_ok(encode_utf8(r.contractAddress@)))
    &&& dec_parses(encode_utf8(r.cumulativeGasUsed@))
    &&& dec_parses(encode_utf8(r.gasUsed@))
    &&& dec_parses(encode_utf8(r.confirmations@))
}

/// Parse one numeric field.
fn field_u128(s: &String) -> (r: Option<u128>)
    ensures
        match r {
            Some(v) => dec_parses(encode_utf8(s@)) && v == dec_value(encode_utf8(s@)),
            None => !dec_parses(encode_utf8(s@)),
        },
{
    parse_u128(s.as_str().as_bytes())
}

/// Parse one prefixed hash field.
fn field_hash(s: &String) -> (r: Option<TxHash>)
    ensures
        match r {
            Some(h) => hash_field_ok(encode_utf8(s@)) && h@ == hash_field_val(encode_utf8(s@)),
            None => !hash_field_ok(encode_utf8(s@)),
        },
{
    let b = s.as_str().as_bytes();
    if b.len() < 2 {
        return None;
    }
    let rest = slice_subrange(b, 2, b.len());
    proof {
        assert(rest@ =~= encode_utf8(s@).skip(2));
    }
    parse_txhash(rest)
}

/// Parse one block-hash field, its `0x` optional.
fn field_blockhash(s: &String) -> (r: Option<TxHash>)
    ensures
        match r {
            Some(h) => blockhash_field_ok(encode_utf8(s@)) && h@ == hex_decoded(
                strip0x(encode_utf8(s@)),
            ),
            None => !blockhash_field_ok(encode_utf8(s@)),
        },
{
    let b = s.as_str().as_bytes();
    let stripped = if b.len() >= 2 && *vstd::slice::slice_index_get(b, 0) == 0x30
        && *vstd::slice::slice_index_get(b, 1) == 0x78 {
        let r = slice_subrange(b, 2, b.len());
        proof {
            assert(r@ =~= strip0x(encode_utf8(s@)));
        }
        r
    } else {
        proof {
            assert(b@ =~= strip0x(encode_utf8(s@)));
        }
        b
    };
    parse_txhash(stripped)
}

/// Parse one prefixed address field.
fn field_addr(s: &String) -> (r: Option<Address>)
    ensures
        match r {
            Some(a) => addr_field_ok(encode_utf8(s@)) && a@ == addr_field_val(encode_utf8(s@)),
            None => !addr_field_ok(encode_utf8(s@)),
        },
{
    let b = s.as_str().as_bytes();
    if b.len() < 2 {
        return None;
    }
    let rest = slice_subrange(b, 2, b.len());
    proof {
        assert(rest@ =~= encode_utf8(s@).skip(2));
    }
    parse_address(rest)
}

/// Parse one prefixed call-input field.
fn field_input(s: &String) -> (r: Option<Vec<u8>>)
    ensures
        match r {
            Some(v) => input_field_ok(encode_utf8(s@)) && v@ == input_field_val(encode_utf8(s@)),
            None => !input_field_ok(encode_utf8(s@)),
        },
{
    let b = s.as_str().as_bytes();
    if b.len() < 2 {
        return None;
    }
    let rest = slice_subrange(b, 2, b.len());
    proof {
        assert(rest@ =~= encode_utf8(s@).skip(2));
    }
    hex_decode_bytes(rest)
}

impl ESNormalTransactionStrings {
    /// Parse every field of the record; nothing unless all of them parse.
    /// Empty `to`, `input` and `contractAddress` fields parse to nothing.
    pub fn to_transaction(&self) -> (r: Option<ESNormalTransaction>)
        ensures
            match r {
                Some(t) => {
                    &&& spec_record_parses(*self)
                    &&& t.blockNumber == dec_value(encode_utf8(self.blockNumber@))
                    &&& t.timeStamp == dec_value(encode_utf8(self.timeStamp@))
                    &&& t.hash@ == hash_field_val(encode_utf8(self.hash@))
                    &&& t.nonce == dec_value(encode_utf8(self.nonce@))
                    &&& t.blockHash@ == hex_decoded(strip0x(encode_utf8(self.blockHash@)))
                    &&& t.transactionIndex == dec_value(encode_utf8(self.transactionIndex@))
                    &&& t.from@ == addr_field_val(encode_utf8(self.from@))
                    &&& match t.to {
                        Some(a) => self.to@.len() > 0 && a@ == addr_field_val(
                            encode_utf8(self.to@),
                        ),
                        None => self.to@.len() == 0,
                    }
                    &&& t.value == dec_value(encode_utf8(self.value@))
                    &&& t.gas == dec_value(encode_utf8(self.gas@))
                    &&& t.gasPrice == dec_value(encode_utf8(self.gasPrice@))
                    &&& t.isError == dec_value(encode_utf8(self.isError@))
                    &&& t.txreceipt_status == dec_value(encode_utf8(self.txreceipt_status@))
                    &&& match t.input {
                        Some(v) => self.input@.len() > 0 && v@ == input_field_val(
                            encode_utf8(self.input@),
                        ),
                        None => self.input@.len() == 0,
                    }
                    &&& match t.contractAddress {
                        Some(a) => self.contractAddress@.len() > 0 && a@ == addr_field_val(
                            encode_utf8(self.contractAddress@),
                        ),
                        None => self.contractAddress@.len() == 0,
                    }
                    &&& t.cumulativeGasUsed == dec_value(encode_utf8(self.cumulativeGasUsed@))
                    &&& t.gasUsed == dec_value(encode_utf8(self.gasUsed@))
                    &&& t.confirmations == dec_value(encode_utf8(self.confirmations@))
                },
                None => !spec_record_parses(*self),
            },
    {
        let block_number = match field_u128(&self.blockNumber) {
            Some(v) => v,
            None => {
                return None;
            },
        };
        let time_stamp = match field_u128(&self.timeStamp) {
            Some(v) => v,
            None => {
                return None;
            },
        };
        let hash = match field_hash(&self.hash) {
            Some(v) => v,
            None => {
                return None;
            },
        };
        let nonce = match field_u128(&self.nonce) {
            Some(v) => v,
            None => {
                return None;
            },
        };
        let block_hash = match field_blockhash(&self.blockHash) {
            Some(v) => v,
            None => {
                return None;
            },
        };
        let transaction_index = match field_u128(&self.transactionIndex) {
            Some(v) => v,
            None => {
                return None;
            },
        };
        let from = match field_addr(&self.from) {
            Some(v) => v,
            None => {
                return None;
            },
        };
        let to = if self.to.as_str().is_empty() {
            None
        } else {
            match field_addr(&self.to) {
                Some(v) => Some(v),
                None => {
                    return None;
                },
            }
        };
        let value = match field_u128(&self.value) {
            Some(v) => v,
            None => {
                return None;
            },
        };
        let gas = match field_u128(&self.gas) {
            Some(v) => v,
            None => {
                return None;
            },
        };
        let gas_price = match field_u128(&self.gasPrice) {
            Some(v) => v,
            None => {
                return None;
            },
        };
        let is_error = match field_u128(&self.isError) {
            Some(v) => v,
            None => {
                return None;
            },
        };
        let txreceipt_status = match field_u128(&self.txreceipt_status) {
            Some(v) => v,
            None => {
                return None;
            },
        };
        let input = if self.input.as_str().is_empty() {
            None
        } else {
            match field_input(&self.input) {
                Some(v) => Some(v),
                None => {
                    return None;
                },
            }
        };
        let contract_address = if self.contractAddress.as_str().is_empty() {
            None
        } else {
            match field_addr(&self.contractAddress) {
                Some(v) => Some(v),
                None => {
                    return None;
                },
            }
        };
        let cumulative_gas_used = match field_u128(&self.cumulativeGasUsed) {
            Some(v) => v,
            None => {
                return None;
            },
        };
        let gas_used = match field_u128(&self.gasUsed) {
            Some(v) => v,
            None => {
                return None;
            },
        };
        let confirmations = match field_u128(&self.confirmations) {
            Some(v) => v,
            None => {
                return None;
            },
        };
        Some(
            ESNormalTransaction {
                blockNumber: block_number,
                timeStamp: time_stamp,
                hash,
                nonce,
                blockHash: block_hash,
                transactionIndex: transaction_index,
                from,
                to,
                value,
                gas,
                gasPrice: gas_price,
                isError: is_error,
                txreceipt_status,
                input,
                contractAddress: contract_address,
                cumulativeGasUsed: cumulative_gas_used,
                gasUsed: gas_used,
                confirmations,
            },
        )
    }
}

impl ESTransaction for ESNormalTransaction {
    open spec fn spec_hash(&self) -> Seq<u8> {
        self.hash@
    }

    open spec fn spec_value(&self) -> u128 {
        self.value
    }

    open spec fn spec_from(&self) -> Seq<u8> {
        self.from@
    }

    open spec fn spec_to(&self) -> Option<Seq<u8>> {
        match self.to {
            Some(a) => Some(a@),
            None => None,
        }
    }

    open spec fn spec_blocknumber(&self) -> u128 {
        self.blockNumber
    }

    open spec fn spec_is_error(&self) -> u128 {
        self.isError
    }

    fn transaction_hash(&self) -> (h: TxHash) {
        self.hash
    }

    fn transaction_value(&self) -> (v: u128) {
        self.value
    }

    fn transaction_from(&self) -> (a: Address) {
        self.from
    }

    fn transaction_to(&self) -> (t: Option<Address>) {
        self.to
    }

    fn transaction_blocknumber(&self) -> (b: u128) {
        self.blockNumber
    }

    fn transaction_is_error(&self) -> (e: u128) {
        self.isError
    }
}

} // verus!
