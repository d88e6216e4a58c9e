//! The canonical event model: pool classification, deposits, withdraws, and
//! the traits the heuristic engine reads them through.

use vstd::prelude::*;
use crate::types::Address;
use crate::types::TxHash;
use crate::types::Uint256;

verus! {

/// Contract address of the 0.1 ETH pool.
pub const TORNADO_CASH_0_1ETH: [u8; 20] = [
    0x12, 0xd6, 0x6f, 0x87, 0xa0, 0x4a, 0x9e, 0x22, 0x07, 0x43, 0x71, 0x2c, 0xe6, 0xd9, 0xbb,
    0x1b, 0x56, 0x16, 0xb8, 0xfc,
];

/// Contract address of the 1 ETH pool.
pub const TORNADO_CASH_1ETH: [u8; 20] = [
    0x47, 0xce, 0x0c, 0x6e, 0xd5, 0xb0, 0xce, 0x3d, 0x3a, 0x51, 0xfd, 0xb1, 0xc5, 0x2d, 0xc6,
    0x6a, 0x7c, 0x3c, 0x29, 0x36,
];

/// Contract address of the 10 ETH pool.
pub const TORNADO_CASH_10ETH: [u8; 20] = [
    0x91, 0x0c, 0xbd, 0x52, 0x3d, 0x97, 0x2e, 0xb0, 0xa6, 0xf4, 0xca, 0xe4, 0x61, 0x8a, 0xd6,
    0x26, 0x22, 0xb3, 0x9d, 0xbf,
];

/// Contract address of the 100 ETH pool.
pub const TORNADO_CASH_100ETH: [u8; 20] = [
    0xa1, 0x60, 0xcd, 0xab, 0x22, 0x56, 0x85, 0xda, 0x1d, 0x56, 0xaa, 0x34, 0x2a, 0xd8, 0x84,
    0x1c, 0x3b, 0x53, 0xf2, 0x91,
];

/// Contract address of the router that forwards deposit/withdraw calls to a pool.
pub const TORNADO_CASH_ROUTER: [u8; 20] = [
    0xd9, 0x0e, 0x2f, 0x92, 0x5d, 0xa7, 0x26, 0xb5, 0x0c, 0x4e, 0xd8, 0xd0, 0xfb, 0x90, 0xad,
    0x05, 0x33, 0x24, 0xf3, 0x1b,
];

/// One of the four fixed-denomination mixing pools, or `Unknown` for any
/// contract that is not one of them.
#[derive(Clone, Copy, Debug, PartialEq, Eq, Structural)]
#[allow(non_camel_case_types)]
pub enum Pool {
    _0_1ETH,
    _1ETH,
    _10ETH,
    _100ETH,
    Unknown,
}

/// Which pool a 20-byte contract address stands for; `Unknown` for any
/// address other than the four fixed pool contracts.
pub open spec fn spec_pool_by_addr(addr: Seq<u8>) -> Pool {
    if addr == TORNADO_CASH_0_1ETH@ {
        Pool::_0_1ETH
    } else if addr == TORNADO_CASH_1ETH@ {
        Pool::_1ETH
    } else if addr == TORNADO_CASH_10ETH@ {
        Pool::_10ETH
    } else if addr == TORNADO_CASH_100ETH@ {
        Pool::_100ETH
    } else {
        Pool::Unknown
    }
}

/// Classify a contract address into its pool denomination.
pub fn pool_by_addr(addr: &Address) -> (p: Pool)
    ensures
        p == spec_pool_by_addr(addr@),
{
    if addr.same(&Address::new(TORNADO_CASH_0_1ETH)) {
        Pool::_0_1ETH
    } else if addr.same(&Address::new(TORNADO_CASH_1ETH)) {
        Pool::_1ETH
    } else if addr.same(&Address::new(TORNADO_CASH_10ETH)) {
        Pool::_10ETH
    } else if addr.same(&Address::new(TORNADO_CASH_100ETH)) {
        Pool::_100ETH
    } else {
        Pool::Unknown
    }
}

/// The router's address as a value.
pub fn router_address() -> (a: Address)
    ensures
        a@ == TORNADO_CASH_ROUTER@,
{
    Address::new(TORNADO_CASH_ROUTER)
}

/// A canonical deposit event: one successfully decoded deposit call.
#[derive(Clone, Copy, Debug)]
pub struct Deposit {
    pub transaction_hash: TxHash,
    pub block_number: u128,
    pub pool: Pool,
    pub from: Address,
}

/// A canonical withdraw event. When no relayer was used,
/// `relayer == receiver` and `fee` is zero.
#[derive(Clone, Copy, Debug)]
pub struct Withdraw {
    pub transaction_hash: TxHash,
    pub block_number: u128,
    pub pool: Pool,
    pub receiver: Address,
    pub relayer: Address,
    pub fee: Uint256,
}

impl Deposit {
    /// Build a deposit event, classifying the pool from the contract address.
    pub fn new(transaction_hash: TxHash, block_number: u128, pool_address: Address, from: Address) -> (d: Deposit)
        ensures
            d.transaction_hash == transaction_hash,
            d.block_number == block_number,
            d.pool == spec_pool_by_addr(pool_address@),
            d.from == from,
    {
        Deposit { transaction_hash, block_number, pool: pool_by_addr(&pool_address), from }
    }
}

impl Withdraw {
    /// Build a withdraw event, classifying the pool from the contract address.
    pub fn new(
        transaction_hash: TxHash,
        block_number: u128,
        pool_address: Address,
        receiver: Address,
        relayer: Address,
        fee: Uint256,
    ) -> (w: Withdraw)
        ensures
            w.transaction_hash == transaction_hash,
            w.block_number == block_number,
            w.pool == spec_pool_by_addr(pool_address@),
            w.receiver == receiver,
            w.relayer == relayer,
            w.fee == fee,
    {
        Withdraw {
            transaction_hash,
            block_number,
            pool: pool_by_addr(&pool_address),
            receiver,
            relayer,
            fee,
        }
    }
}

/// The fields of an exported transaction record that the pipeline reads.
pub trait ESTransaction {
    /// The transaction hash, at the specification level.
    spec fn spec_hash(&self) -> Seq<u8>;

    /// The transferred value, at the specification level.
    spec fn spec_value(&self) -> u128;

    /// The sending address, at the specification level.
    spec fn spec_from(&self) -> Seq<u8>;

    /// The receiving address, if any, at the specification level.
    spec fn spec_to(&self) -> Option<Seq<u8>>;

    /// The block number, at the specification level.
    spec fn spec_blocknumber(&self) -> u128;

    /// The error flag, at the specification level.
    spec fn spec_is_error(&self) -> u128;

    /// The transaction hash.
    fn transaction_hash(&self) -> (h: TxHash)
        ensures
            h@ == self.spec_hash(),
    ;

    /// The transferred value.
    fn transaction_value(&self) -> (v: u128)
        ensures
            v == self.spec_value(),
    ;

    /// The sending address.
    fn transaction_from(&self) -> (a: Address)
        ensures
            a@ == self.spec_from(),
    ;

    /// The receiving address, if any.
    fn transaction_to(&self) -> (t: Option<Address>)
        ensures
            match t {
                Some(a) => self.spec_to() == Some(a@),
                None => self.spec_to() is None,
            },
    ;

    /// The block number.
    fn transaction_blocknumber(&self) -> (b: u128)
        ensures
            b == self.spec_blocknumber(),
    ;

    /// The error flag: non-zero when the record is marked failed.
    fn transaction_is_error(&self) -> (e: u128)
        ensures
            e == self.spec_is_error(),
    ;
}

/// Events that belong to a pool.
pub trait InPool {
    /// The pool the event belongs to, at the specification level.
    spec fn spec_pool(&self) -> Pool;

    /// The pool the event belongs to.
    fn pool(&self) -> (p: Pool)
        ensures
            p == self.spec_pool(),
    ;
}

/// Events that sit in a block.
pub trait InBlock {
    /// The block number, at the specification level.
    spec fn spec_block(&self) -> u128;

    /// The number of the block holding the event.
    fn block(&self) -> (b: u128)
        ensures
            b == self.spec_block(),
    ;
}

impl InPool for Deposit {
    open spec fn spec_pool(&self) -> Pool {
        self.pool
    }

    fn pool(&self) -> (p: Pool) {
        self.pool
    }
}

impl InPool for Withdraw {
    open spec fn spec_pool(&self) -> Pool {
        self.pool
    }

    fn pool(&self) -> (p: Pool) {
        self.pool
    }
}

impl InBlock for Deposit {
    open spec fn spec_block(&self) -> u128 {
        self.block_number
    }

    fn block(&self) -> (b: u128) {
        self.block_number
    }
}

impl InBlock for Withdraw {
    open spec fn spec_block(&self) -> u128 {
        self.block_number
    }

    fn block(&self) -> (b: u128) {
        self.block_number
    }
}

} // verus!
