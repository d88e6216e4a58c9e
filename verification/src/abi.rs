//! The payload decoder: classify a raw call by its 4-byte function selector
//! and ABI-decode its parameters into one of a closed set of call shapes.
//! The ABI decoding itself is done by the ethabi crate behind trusted
//! wrappers; selecting the table, matching the selector, and everything
//! after the decode is verified.

use vstd::prelude::*;
use vstd::slice::slice_subrange;
use ethabi::ParamType as Ty;
use crate::data::TORNADO_CASH_ROUTER;
use crate::types::Address;
use crate::types::Uint256;

verus! {

/// First four bytes of the canonical hash of the direct-pool withdraw
/// signature `withdraw(bytes,bytes32,bytes32,address,address,uint256,uint256)`,
/// fixed by the deployed contract ABI.
pub const DIRECT_WITHDRAW_SELECTOR: [u8; 4] = [0x21, 0xa0, 0xad, 0xb6];

/// First four bytes of the canonical hash of the direct-pool deposit
/// signature `deposit(bytes32)`, fixed by the deployed contract ABI.
pub const DIRECT_DEPOSIT_SELECTOR: [u8; 4] = [0xb2, 0x14, 0xfa, 0xa5];

/// First four bytes of the canonical hash of the router withdraw signature
/// `withdraw(address,bytes,bytes32,bytes32,address,address,uint256,uint256)`,
/// fixed by the deployed contract ABI.
pub const ROUTER_WITHDRAW_SELECTOR: [u8; 4] = [0xb4, 0x38, 0x68, 0x9f];

/// First four bytes of the canonical hash of the router deposit signature
/// `deposit(address,bytes32,bytes)`, fixed by the deployed contract ABI.
pub const ROUTER_DEPOSIT_SELECTOR: [u8; 4] = [0x13, 0xd9, 0x8d, 0x13];

/// The parameters of a withdraw call sent directly to a pool contract.
#[derive(Clone, Debug, PartialEq, Eq)]
pub struct DirectWithdraw {
    pub proof_data: Vec<u8>,
    pub root: Vec<u8>,
    pub nullifier_hash: Vec<u8>,
    pub recipient: Address,
    pub relayer: Address,
    pub fee: Uint256,
    pub refund: Uint256,
}

/// The parameters of a withdraw call forwarded through the router, which
/// carries the pool address as its first parameter.
#[derive(Clone, Debug, PartialEq, Eq)]
pub struct RouterWithdraw {
    pub tornado: Address,
    pub proof_data: Vec<u8>,
    pub root: Vec<u8>,
    pub nullifier_hash: Vec<u8>,
    pub recipient: Address,
    pub relayer: Address,
    pub fee: Uint256,
    pub refund: Uint256,
}

/// The parameters of a deposit call sent directly to a pool contract.
#[derive(Clone, Debug, PartialEq, Eq)]
pub struct DirectDeposit {
    pub commitment: Vec<u8>,
}

/// The parameters of a deposit call forwarded through the router.
#[derive(Clone, Debug, PartialEq, Eq)]
pub struct RouterDeposit {
    pub tornado: Address,
    pub commitment: Vec<u8>,
    pub encrypted_note: Vec<u8>,
}

/// A raw call addressed to the router, classified by selector.
#[derive(Clone, Debug, PartialEq, Eq)]
pub enum RouterCall {
    Withdraw(RouterWithdraw),
    Deposit(RouterDeposit),
    Other,
}

/// A raw call addressed to a pool contract, classified by selector.
#[derive(Clone, Debug, PartialEq, Eq)]
pub enum PoolCall {
    Withdraw(DirectWithdraw),
    Deposit(DirectDeposit),
    Other,
}

/// A raw call classified under both calling conventions.
#[derive(Clone, Debug, PartialEq, Eq)]
pub enum DecodedCall {
    RouterDeposit(RouterDeposit),
    RouterWithdraw(RouterWithdraw),
    PoolDeposit(DirectDeposit),
    PoolWithdraw(DirectWithdraw),
    Unrecognized,
}

/// What ethabi decodes a direct-pool withdraw parameter buffer into, if
/// anything, as plain values in parameter order: a function of the buffer
/// alone.
pub uninterp spec fn decoded_direct_withdraw(data: Seq<u8>) -> Option<
    (Vec<u8>, Vec<u8>, Vec<u8>, [u8; 20], [u8; 20], [u64; 4], [u64; 4]),
>;

/// What ethabi decodes a direct-pool deposit parameter buffer into, if
/// anything: the commitment bytes, a function of the buffer alone.
pub uninterp spec fn decoded_direct_deposit(data: Seq<u8>) -> Option<Vec<u8>>;

/// What ethabi decodes a router withdraw parameter buffer into, if
/// anything, as plain values in parameter order: a function of the buffer
/// alone.
pub uninterp spec fn decoded_router_withdraw(data: Seq<u8>) -> Option<
    ([u8; 20], Vec<u8>, Vec<u8>, Vec<u8>, [u8; 20], [u8; 20], [u64; 4], [u64; 4]),
>;

/// What ethabi decodes a router deposit parameter buffer into, if
/// anything, as plain values in parameter order: a function of the buffer
/// alone.
pub uninterp spec fn decoded_router_deposit(data: Seq<u8>) -> Option<
    ([u8; 20], Vec<u8>, Vec<u8>),
>;

/// Relies on ethabi::decode over the direct-pool withdraw parameter types:
/// the result depends on the buffer alone, and on success the tokens match
/// the requested types, so the conversions cannot fail.
#[verifier::external_body]
fn decode_direct_withdraw(data: &[u8]) -> (r: Option<
    (Vec<u8>, Vec<u8>, Vec<u8>, [u8; 20], [u8; 20], [u64; 4], [u64; 4]),
>)
    ensures
        r == decoded_direct_withdraw(data@),
{
    let t = [Ty::Bytes, Ty::FixedBytes(32), Ty::FixedBytes(32), Ty::Address, Ty::Address,
        Ty::Uint(256), Ty::Uint(256)];
    let mut v = ethabi::decode(&t, data).ok()?;
    Some((
        v.remove(0).into_bytes()?, v.remove(0).into_fixed_bytes()?,
        v.remove(0).into_fixed_bytes()?, v.remove(0).into_address()?.0,
        v.remove(0).into_address()?.0, v.remove(0).into_uint()?.0,
        v.remove(0).into_uint()?.0,
    ))
}

/// Relies on ethabi::decode over the direct-pool deposit parameter types:
/// the result depends on the buffer alone, and on success the token matches
/// the requested type, so the conversion cannot fail.
#[verifier::external_body]
fn decode_direct_deposit(data: &[u8]) -> (r: Option<Vec<u8>>)
    ensures
        r == decoded_direct_deposit(data@),
{
    let mut v = ethabi::decode(&[Ty::FixedBytes(32)], data).ok()?;
    v.remove(0).into_fixed_bytes()
}

/// Relies on ethabi::decode over the router withdraw parameter types: the
/// result depends on the buffer alone, and on success the tokens match the
/// requested types, so the conversions cannot fail.
#[verifier::external_body]
fn decode_router_withdraw(data: &[u8]) -> (r: Option<
    ([u8; 20], Vec<u8>, Vec<u8>, Vec<u8>, [u8; 20], [u8; 20], [u64; 4], [u64; 4]),
>)
    ensures
        r == decoded_router_withdraw(data@),
{
    let t = [Ty::Address, Ty::Bytes, Ty::FixedBytes(32), Ty::FixedBytes(32), Ty::Address,
        Ty::Address, Ty::Uint(256), Ty::Uint(256)];
    let mut v = ethabi::decode(&t, data).ok()?;
    Some((
        v.remove(0).into_address()?.0, v.remove(0).into_bytes()?,
        v.remove(0).into_fixed_bytes()?, v.remove(0).into_fixed_bytes()?,
        v.remove(0).into_address()?.0, v.remove(0).into_address()?.0,
        v.remove(0).into_uint()?.0, v.remove(0).into_uint()?.0,
    ))
}

/// Relies on ethabi::decode over the router deposit parameter types: the
/// result depends on the buffer alone, and on success the tokens match the
/// requested types, so the conversions cannot fail.
#[verifier::external_body]
fn decode_router_deposit(data: &[u8]) -> (r: Option<([u8; 20], Vec<u8>, Vec<u8>)>)
    ensures
        r == decoded_router_deposit(data@),
{
    let mut v = ethabi::decode(&[Ty::Address, Ty::FixedBytes(32), Ty::Bytes], data).ok()?;
    Some((
        v.remove(0).into_address()?.0, v.remove(0).into_fixed_bytes()?,
        v.remove(0).into_bytes()?,
    ))
}

/// The withdraw shape the decoded direct-pool parameters stand for.
pub open spec fn direct_withdraw_of(
    t: (Vec<u8>, Vec<u8>, Vec<u8>, [u8; 20], [u8; 20], [u64; 4], [u64; 4]),
) -> DirectWithdraw {
    DirectWithdraw {
        proof_data: t.0,
        root: t.1,
        nullifier_hash: t.2,
        recipient: Address { bytes: t.3 },
        relayer: Address { bytes: t.4 },
        fee: Uint256 { limbs: t.5 },
        refund: Uint256 { limbs: t.6 },
    }
}

/// The withdraw shape the decoded router parameters stand for.
pub open spec fn router_withdraw_of(
    t: ([u8; 20], Vec<u8>, Vec<u8>, Vec<u8>, [u8; 20], [u8; 20], [u64; 4], [u64; 4]),
) -> RouterWithdraw {
    RouterWithdraw {
        tornado: Address { bytes: t.0 },
        proof_data: t.1,
        root: t.2,
        nullifier_hash: t.3,
        recipient: Address { bytes: t.4 },
        relayer: Address { bytes: t.5 },
        fee: Uint256 { limbs: t.6 },
        refund: Uint256 { limbs: t.7 },
    }
}

/// The deposit shape the decoded router parameters stand for.
pub open spec fn router_deposit_of(t: ([u8; 20], Vec<u8>, Vec<u8>)) -> RouterDeposit {
    RouterDeposit { tornado: Address { bytes: t.0 }, commitment: t.1, encrypted_note: t.2 }
}

/// How a raw call to a pool contract classifies: by selector, then by
/// whether its parameters decode.
pub open spec fn spec_parse_pool_call(input: Seq<u8>) -> PoolCall {
    if input.len() >= 4 && input.subrange(0, 4) == DIRECT_WITHDRAW_SELECTOR@ {
        match decoded_direct_withdraw(input.skip(4)) {
            Some(t) => PoolCall::Withdraw(direct_withdraw_of(t)),
            None => PoolCall::Other,
        }
    } else if input.len() >= 4 && input.subrange(0, 4) == DIRECT_DEPOSIT_SELECTOR@ {
        match decoded_direct_deposit(input.skip(4)) {
            Some(c) => PoolCall::Deposit(DirectDeposit { commitment: c }),
            None => PoolCall::Other,
        }
    } else {
        PoolCall::Other
    }
}

/// How a raw call to the router classifies: by selector, then by whether
/// its parameters decode.
pub open spec fn spec_parse_router_call(input: Seq<u8>) -> RouterCall {
    if input.len() >= 4 && input.subrange(0, 4) == ROUTER_WITHDRAW_SELECTOR@ {
        match decoded_router_withdraw(input.skip(4)) {
            Some(t) => RouterCall::Withdraw(router_withdraw_of(t)),
            None => RouterCall::Other,
        }
    } else if input.len() >= 4 && input.subrange(0, 4) == ROUTER_DEPOSIT_SELECTOR@ {
        match decoded_router_deposit(input.skip(4)) {
            Some(t) => RouterCall::Deposit(router_deposit_of(t)),
            None => RouterCall::Other,
        }
    } else {
        RouterCall::Other
    }
}

/// Does the input start with the given 4-byte selector?
fn has_selector(input: &[u8], sel: &[u8; 4]) -> (r: bool)
    requires
        input@.len() >= 4,
    ensures
        r == (input@.subrange(0, 4) == sel@),
{
    let b0 = *vstd::slice::slice_index_get(input, 0);
    let b1 = *vstd::slice::slice_index_get(input, 1);
    let b2 = *vstd::slice::slice_index_get(input, 2);
    let b3 = *vstd::slice::slice_index_get(input, 3);
    let eq = b0 == sel[0] && b1 == sel[1] && b2 == sel[2] && b3 == sel[3];
    proof {
        if eq {
            assert(input@.subrange(0, 4) =~= sel@);
        } else {
            assert(input@.subrange(0, 4) != sel@) by {
                if input@.subrange(0, 4) == sel@ {
                    assert(input@.subrange(0, 4)[0] == sel@[0]);
                    assert(input@.subrange(0, 4)[1] == sel@[1]);
                    assert(input@.subrange(0, 4)[2] == sel@[2]);
                    assert(input@.subrange(0, 4)[3] == sel@[3]);
                }
            }
        }
    }
    eq
}

/// Classify and decode a raw call under the direct-pool convention.
pub fn parse_pool_call(input: &[u8]) -> (r: PoolCall)
    ensures
        r == spec_parse_pool_call(input@),
{
    if input.len() < 4 {
        return PoolCall::Other;
    }
    let rest = slice_subrange(input, 4, input.len());
    proof {
        assert(rest@ =~= input@.skip(4));
    }
    if has_selector(input, &DIRECT_WITHDRAW_SELECTOR) {
        match decode_direct_withdraw(rest) {
            Some(t) => PoolCall::Withdraw(
                DirectWithdraw {
                    proof_data: t.0,
                    root: t.1,
                    nullifier_hash: t.2,
                    recipient: Address { bytes: t.3 },
                    relayer: Address { bytes: t.4 },
                    fee: Uint256 { limbs: t.5 },
                    refund: Uint256 { limbs: t.6 },
                },
            ),
            None => PoolCall::Other,
        }
    } else if has_selector(input, &DIRECT_DEPOSIT_SELECTOR) {
        match decode_direct_deposit(rest) {
            Some(c) => PoolCall::Deposit(DirectDeposit { commitment: c }),
            None => PoolCall::Other,
        }
    } else {
        PoolCall::Other
    }
}

/// Classify and decode a raw call under the router convention.
pub fn parse_router_call(input: &[u8]) -> (r: RouterCall)
    ensures
        r == spec_parse_router_call(input@),
{
    if input.len() < 4 {
        return RouterCall::Other;
    }
    let rest = slice_subrange(input, 4, input.len());
    proof {
        assert(rest@ =~= input@.skip(4));
    }
    if has_selector(input, &ROUTER_WITHDRAW_SELECTOR) {
        match decode_router_withdraw(rest) {
            Some(t) => RouterCall::Withdraw(
                RouterWithdraw {
                    tornado: Address { bytes: t.0 },
                    proof_data: t.1,
                    root: t.2,
                    nullifier_hash: t.3,
                    recipient: Address { bytes: t.4 },
                    relayer: Address { bytes: t.5 },
                    fee: Uint256 { limbs: t.6 },
                    refund: Uint256 { limbs: t.7 },
                },
            ),
            None => RouterCall::Other,
        }
    } else if has_selector(input, &ROUTER_DEPOSIT_SELECTOR) {
        match decode_router_deposit(rest) {
            Some(t) => RouterCall::Deposit(
                RouterDeposit { tornado: Address { bytes: t.0 }, commitment: t.1, encrypted_note: t.2 },
            ),
            None => RouterCall::Other,
        }
    } else {
        RouterCall::Other
    }
}

/// How a raw call classifies given its target: calls to the router go
/// through the router selector table, calls to any other contract through
/// the direct-pool table.
pub open spec fn spec_decode(target: Seq<u8>, input: Seq<u8>) -> DecodedCall {
    if target == TORNADO_CASH_ROUTER@ {
        match spec_parse_router_call(input) {
            RouterCall::Withdraw(w) => DecodedCall::RouterWithdraw(w),
            RouterCall::Deposit(d) => DecodedCall::RouterDeposit(d),
            RouterCall::Other => DecodedCall::Unrecognized,
        }
    } else {
        match spec_parse_pool_call(input) {
            PoolCall::Withdraw(w) => DecodedCall::PoolWithdraw(w),
            PoolCall::Deposit(d) => DecodedCall::PoolDeposit(d),
            PoolCall::Other => DecodedCall::Unrecognized,
        }
    }
}

/// Classify and decode a raw call: the selector table is chosen by whether
/// the call's target is the router, and a call that matches no selector or
/// fails to decode is `Unrecognized`, never an error.
pub fn decode(target: &Address, input: &[u8]) -> (r: DecodedCall)
    ensures
        r == spec_decode(target@, input@),
{
    if target.same(&Address::new(TORNADO_CASH_ROUTER)) {
        match parse_router_call(input) {
            RouterCall::Withdraw(w) => DecodedCall::RouterWithdraw(w),
            RouterCall::Deposit(d) => DecodedCall::RouterDeposit(d),
            RouterCall::Other => DecodedCall::Unrecognized,
        }
    } else {
        match parse_pool_call(input) {
            PoolCall::Withdraw(w) => DecodedCall::PoolWithdraw(w),
            PoolCall::Deposit(d) => DecodedCall::PoolDeposit(d),
            PoolCall::Other => DecodedCall::Unrecognized,
        }
    }
}

/// Decoding is a function of the target address and payload bytes alone:
/// decoding the same pair twice yields identical results.
pub proof fn lemma_decode_idempotent(
    target: Seq<u8>,
    input: Seq<u8>,
    r1: DecodedCall,
    r2: DecodedCall,
)
    requires
        r1 == spec_decode(target, input),
        r2 == spec_decode(target, input),
    ensures
        r1 == r2,
{
}

} // verus!
