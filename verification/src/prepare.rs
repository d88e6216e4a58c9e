//! Turning a batch of raw call records into canonical deposit and withdraw
//! events: each record is decoded under the convention its target selects,
//! and unrecognized or incomplete records are skipped.

use vstd::prelude::*;
use crate::abi::PoolCall;
use crate::abi::RouterCall;
use crate::abi::parse_pool_call;
use crate::abi::parse_router_call;
use crate::abi::spec_parse_pool_call;
use crate::abi::spec_parse_router_call;
use crate::data::Deposit;
use crate::data::TORNADO_CASH_ROUTER;
use crate::data::Withdraw;
use crate::data::spec_pool_by_addr;
use crate::record::ESNormalTransaction;
use crate::types::Address;

verus! {

/// The events one router-addressed record contributes: a withdraw names the
/// pool by the decoded pool parameter; a deposit is credited to the record's
/// sender.
pub open spec fn spec_router_events(c: ESNormalTransaction, input: Seq<u8>) -> (
    Option<Deposit>,
    Option<Withdraw>,
) {
    match spec_parse_router_call(input) {
        RouterCall::Withdraw(w) => (
            None,
            Some(
                Withdraw {
                    transaction_hash: c.hash,
                    block_number: c.blockNumber,
                    pool: spec_pool_by_addr(w.tornado@),
                    receiver: w.recipient,
                    relayer: w.relayer,
                    fee: w.fee,
                },
            ),
        ),
        RouterCall::Deposit(d) => (
            Some(
                Deposit {
                    transaction_hash: c.hash,
                    block_number: c.blockNumber,
                    pool: spec_pool_by_addr(d.tornado@),
                    from: c.from,
                },
            ),
            None,
        ),
        RouterCall::Other => (None, None),
    }
}

/// The events one pool-addressed record contributes: the pool is the
/// record's target, since a pool does not echo its own address in its
/// parameters.
pub open spec fn spec_pool_events(c: ESNormalTransaction, to: Address, input: Seq<u8>) -> (
    Option<Deposit>,
    Option<Withdraw>,
) {
    match spec_parse_pool_call(input) {
        PoolCall::Withdraw(w) => (
            None,
            Some(
                Withdraw {
                    transaction_hash: c.hash,
                    block_number: c.blockNumber,
                    pool: spec_pool_by_addr(to@),
                    receiver: w.recipient,
                    relayer: w.relayer,
                    fee: w.fee,
                },
            ),
        ),
        PoolCall::Deposit(_) => (
            Some(
                Deposit {
                    transaction_hash: c.hash,
                    block_number: c.blockNumber,
                    pool: spec_pool_by_addr(to@),
                    from: c.from,
                },
            ),
            None,
        ),
        PoolCall::Other => (None, None),
    }
}

/// The events one record contributes, whatever its target; a record with
/// no target or no payload contributes nothing.
pub open spec fn spec_split_one(c: ESNormalTransaction) -> (Option<Deposit>, Option<Withdraw>) {
    match c.to {
        Some(to) => match c.input {
            Some(input) => if to@ == TORNADO_CASH_ROUTER@ {
                spec_router_events(c, input@)
            } else {
                spec_pool_events(c, to, input@)
            },
            None => (None, None),
        },
        None => (None, None),
    }
}

/// The deposits and withdraws a batch of records contributes, in record
/// order.
pub open spec fn spec_split(calls: Seq<ESNormalTransaction>) -> (Seq<Deposit>, Seq<Withdraw>)
    decreases calls.len(),
{
    if calls.len() == 0 {
        (Seq::empty(), Seq::empty())
    } else {
        let (ds, ws) = spec_split(calls.drop_last());
        match spec_split_one(calls.last()) {
            (Some(d), _) => (ds.push(d), ws),
            (None, Some(w)) => (ds, ws.push(w)),
            (None, None) => (ds, ws),
        }
    }
}

/// No record is counted twice: a batch of records never yields more events
/// than it has records, since each record becomes one deposit, one
/// withdraw, or nothing.
pub proof fn lemma_split_event_count(calls: Seq<ESNormalTransaction>)
    ensures
        spec_split(calls).0.len() + spec_split(calls).1.len() <= calls.len(),
    decreases calls.len(),
{
    if calls.len() > 0 {
        lemma_split_event_count(calls.drop_last());
    }
}

/// Decode one record under the router convention.
pub fn router_call(call: &ESNormalTransaction) -> (r: (Option<Deposit>, Option<Withdraw>))
    ensures
        match call.input {
            Some(input) => r == spec_router_events(*call, input@),
            None => r == (None::<Deposit>, None::<Withdraw>),
        },
{
    match &call.input {
        Some(input) => match parse_router_call(input.as_slice()) {
            RouterCall::Withdraw(w) => (
                None,
                Some(
                    Withdraw::new(
                        call.hash,
                        call.blockNumber,
                        w.tornado,
                        w.recipient,
                        w.relayer,
                        w.fee,
                    ),
                ),
            ),
            RouterCall::Deposit(d) => (
                Some(Deposit::new(call.hash, call.blockNumber, d.tornado, call.from)),
                None,
            ),
            RouterCall::Other => (None, None),
        },
        None => (None, None),
    }
}

/// Decode one record under the direct-pool convention; `to` is the
/// record's target, which names the pool.
pub fn pool_call(call: &ESNormalTransaction, to: Address) -> (r: (Option<Deposit>, Option<Withdraw>))
    ensures
        match call.input {
            Some(input) => r == spec_pool_events(*call, to, input@),
            None => r == (None::<Deposit>, None::<Withdraw>),
        },
{
    match &call.input {
        Some(input) => match parse_pool_call(input.as_slice()) {
            PoolCall::Withdraw(w) => (
                None,
                Some(
                    Withdraw::new(call.hash, call.blockNumber, to, w.recipient, w.relayer, w.fee),
                ),
            ),
            PoolCall::Deposit(_) => (
                Some(Deposit::new(call.hash, call.blockNumber, to, call.from)),
                None,
            ),
            PoolCall::Other => (None, None),
        },
        None => (None, None),
    }
}

/// Split a batch of records into the deposits and withdraws they encode.
/// Whether a record is decoded as a router call or as a direct pool call
/// is decided by whether its target is the router's address.
pub fn split_deposit_withdraw(calls: &Vec<ESNormalTransaction>) -> (r: (Vec<Deposit>, Vec<Withdraw>))
    ensures
        r.0@ == spec_split(calls@).0,
        r.1@ == spec_split(calls@).1,
{
    let mut deposits: Vec<Deposit> = Vec::new();
    let mut withdraws: Vec<Withdraw> = Vec::new();
    let mut i: usize = 0;
    proof {
        assert(calls@.take(0) =~= Seq::<ESNormalTransaction>::empty());
    }
    while i < calls.len()
        invariant
            i <= calls.len(),
            deposits@ == spec_split(calls@.take(i as int)).0,
            withdraws@ == spec_split(calls@.take(i as int)).1,
        decreases calls.len() - i,
    {
        proof {
            assert(calls@.take(i + 1).drop_last() =~= calls@.take(i as int));
            assert(calls@.take(i + 1).last() == calls@[i as int]);
        }
        let c = &calls[i];
        let events = match &c.to {
            Some(to) => {
                let to_copy = *to;
                if to_copy.same(&Address::new(TORNADO_CASH_ROUTER)) {
                    router_call(c)
                } else {
                    pool_call(c, to_copy)
                }
            },
            None => (None, None),
        };
        match events {
            (Some(d), _) => deposits.push(d),
            (None, Some(w)) => withdraws.push(w),
            (None, None) => (),
        }
        i += 1;
    }
    proof {
        assert(calls@.take(calls@.len() as int) =~= calls@);
    }
    (deposits, withdraws)
}

} // verus!
