//! The fee-grouping reconciler: rebuild one logical withdrawal from the one
//! or two raw value transfers that share its transaction hash, and reject
//! any other group size.

use vstd::prelude::*;
use vstd::seq_lib::*;
use crate::data::ESTransaction;
use crate::helpers::lemma_filter_push;
use crate::data::Withdraw;
use crate::data::spec_pool_by_addr;
use crate::types::Address;
use crate::types::TxHash;
use crate::types::Uint256;

verus! {

/// One raw native-value transfer record.
#[derive(Clone, Copy, Debug, PartialEq, Eq)]
pub struct Transfer {
    pub hash: TxHash,
    pub block_number: u128,
    pub from: Address,
    pub to: Address,
    pub value: u128,
    pub is_error: u128,
}

impl ESTransaction for Transfer {
    open spec fn spec_hash(&self) -> Seq<u8> {
        self.hash@
    }

    open spec fn spec_value(&self) -> u128 {
        self.value
    }

    open spec fn spec_from(&self) -> Seq<u8> {
        self.from@
    }

    open spec fn spec_to(&self) -> Option<Seq<u8>> {
        Some(self.to@)
    }

    open spec fn spec_blocknumber(&self) -> u128 {
        self.block_number
    }

    open spec fn spec_is_error(&self) -> u128 {
        self.is_error
    }

    fn transaction_hash(&self) -> (h: TxHash) {
        self.hash
    }

    fn transaction_value(&self) -> (v: u128) {
        self.value
    }

    fn transaction_from(&self) -> (a: Address) {
        self.from
    }

    fn transaction_to(&self) -> (t: Option<Address>) {
        Some(self.to)
    }

    fn transaction_blocknumber(&self) -> (b: u128) {
        self.block_number
    }

    fn transaction_is_error(&self) -> (e: u128) {
        self.is_error
    }
}

/// One reconstructed withdrawal: either a single payout, or a payout plus
/// the smaller fee transfer to the relayer.
#[derive(Clone, Copy, Debug, PartialEq, Eq)]
pub enum GroupedWithdraw {
    WithoutRelayer(Transfer),
    WithRelayer(Transfer, Transfer),
}

/// A withdrawal transaction whose transfer group had neither one nor two
/// records: its hash and the destination addresses involved.
#[derive(Clone, Debug)]
pub struct GroupingError {
    pub transaction_hash: TxHash,
    pub destinations: Vec<Address>,
}

/// The distinct transaction hashes of `ts`, first occurrences in order.
pub open spec fn tx_hashes(ts: Seq<Transfer>) -> Seq<Seq<u8>> {
    ts.map_values(|t: Transfer| t.hash@).remove_duplicates(Seq::empty())
}

/// Transfers that belong to transaction hash `h`.
pub open spec fn by_hash(h: Seq<u8>) -> spec_fn(Transfer) -> bool {
    |t: Transfer| t.hash@ == h
}

/// The transfer group of one transaction hash.
pub open spec fn group_of(ts: Seq<Transfer>, h: Seq<u8>) -> Seq<Transfer> {
    ts.filter(by_hash(h))
}

/// The grouping rule: a single transfer is a withdrawal without a relayer;
/// of two transfers, the larger is the payout and the smaller the relayer
/// fee, the first of equal ones counting as the payout; any other group
/// size is rejected.
pub open spec fn spec_reconcile_group(g: Seq<Transfer>) -> Option<GroupedWithdraw> {
    if g.len() == 1 {
        Some(GroupedWithdraw::WithoutRelayer(g[0]))
    } else if g.len() == 2 {
        if g[1].value > g[0].value {
            Some(GroupedWithdraw::WithRelayer(g[1], g[0]))
        } else {
            Some(GroupedWithdraw::WithRelayer(g[0], g[1]))
        }
    } else {
        None
    }
}

/// How a reconstructed withdrawal reads as a canonical withdraw event: the
/// payout transfer names hash, block, pool (from the pool contract that
/// sent it) and recipient; the fee transfer, if any, names the relayer and
/// the fee, which the payout's value never falls below by construction.
pub open spec fn spec_withdraw_fields_ok(gw: GroupedWithdraw, w: Withdraw) -> bool {
    match gw {
        GroupedWithdraw::WithoutRelayer(t) => {
            &&& w.transaction_hash == t.hash
            &&& w.block_number == t.block_number
            &&& w.pool == spec_pool_by_addr(t.from@)
            &&& w.receiver == t.to
            &&& w.relayer == t.to
            &&& w.fee.spec_value() == 0
        },
        GroupedWithdraw::WithRelayer(p, f) => {
            &&& w.transaction_hash == p.hash
            &&& w.block_number == p.block_number
            &&& w.pool == spec_pool_by_addr(p.from@)
            &&& w.receiver == p.to
            &&& w.relayer == f.to
            &&& w.fee.spec_value() == f.value
        },
    }
}

impl GroupedWithdraw {
    /// Which transfer groups this withdrawal is well formed for: the fee
    /// transfer, when present, is the one with the smaller value.
    pub open spec fn well_formed(&self) -> bool {
        match *self {
            GroupedWithdraw::WithoutRelayer(_) => true,
            GroupedWithdraw::WithRelayer(p, f) => f.value <= p.value,
        }
    }

    /// The canonical withdraw event this reconstructed withdrawal stands for.
    pub fn to_withdraw(&self) -> (w: Withdraw)
        ensures
            spec_withdraw_fields_ok(*self, w),
    {
        match self {
            GroupedWithdraw::WithoutRelayer(t) => Withdraw::new(
                t.hash,
                t.block_number,
                t.from,
                t.to,
                t.to,
                Uint256::from_u128(0),
            ),
            GroupedWithdraw::WithRelayer(p, f) => Withdraw::new(
                p.hash,
                p.block_number,
                p.from,
                p.to,
                f.to,
                Uint256::from_u128(f.value),
            ),
        }
    }
}

/// Does `v` hold a hash whose bytes are `h`'s?
fn contains_hash(v: &Vec<TxHash>, h: &TxHash) -> (r: bool)
    ensures
        r == v@.map_values(|x: TxHash| x@).contains(h@),
{
    let ghost mapped = v@.map_values(|x: TxHash| x@);
    let mut i: usize = 0;
    while i < v.len()
        invariant
            i <= v.len(),
            mapped == v@.map_values(|x: TxHash| x@),
            forall|j: int| 0 <= j < i ==> mapped[j] != h@,
        decreases v.len() - i,
    {
        if v[i].same(h) {
            assert(mapped[i as int] == h@);
            return true;
        }
        i += 1;
    }
    false
}

/// The distinct transaction hashes of `ts`, first occurrences in order.
fn distinct_hashes(ts: &Vec<Transfer>) -> (r: Vec<TxHash>)
    ensures
        r@.map_values(|x: TxHash| x@) == tx_hashes(ts@),
{
    let ghost f = |x: TxHash| x@;
    let mut out: Vec<TxHash> = Vec::new();
    let mut i: usize = 0;
    proof {
        assert(ts@.take(0).map_values(|t: Transfer| t.hash@) =~= Seq::<Seq<u8>>::empty());
        reveal_with_fuel(Seq::remove_duplicates, 2);
        assert(out@.map_values(f) =~= ts@.take(0).map_values(
            |t: Transfer| t.hash@,
        ).remove_duplicates(Seq::empty()));
    }
    while i < ts.len()
        invariant
            i <= ts.len(),
            f == (|x: TxHash| x@),
            out@.map_values(f) == ts@.take(i as int).map_values(
                |t: Transfer| t.hash@,
            ).remove_duplicates(Seq::empty()),
        decreases ts.len() - i,
    {
        let ghost prefix = ts@.take(i as int).map_values(|t: Transfer| t.hash@);
        let h = ts[i].hash;
        let dup = contains_hash(&out, &h);
        proof {
            Seq::lemma_take_succ(ts@, i as int);
            assert(ts@.take(i + 1).map_values(|t: Transfer| t.hash@) =~= prefix + seq![h@]);
            prefix.lemma_remove_duplicates_append(h@, Seq::empty());
            assert(prefix + Seq::<Seq<u8>>::empty() =~= prefix);
            prefix.lemma_remove_duplicates_properties(Seq::empty());
        }
        if !dup {
            proof {
                assert(out@.push(h).map_values(f) =~= out@.map_values(f) + seq![h@]);
            }
            out.push(h);
        }
        i += 1;
    }
    proof {
        assert(ts@.take(ts@.len() as int) =~= ts@);
    }
    out
}

/// The transfers of `ts` that carry hash `h`, in order.
fn filter_by_hash(ts: &Vec<Transfer>, h: &TxHash) -> (r: Vec<Transfer>)
    ensures
        r@ == group_of(ts@, h@),
{
    let mut out: Vec<Transfer> = Vec::new();
    let mut i: usize = 0;
    proof {
        reveal(Seq::filter);
        assert(ts@.take(0).filter(by_hash(h@)) =~= Seq::<Transfer>::empty());
    }
    while i < ts.len()
        invariant
            i <= ts.len(),
            out@ == ts@.take(i as int).filter(by_hash(h@)),
        decreases ts.len() - i,
    {
        proof {
            Seq::lemma_take_succ(ts@, i as int);
            assert(ts@.take(i + 1) =~= ts@.take(i as int).push(ts@[i as int]));
            lemma_filter_push(ts@.take(i as int), ts@[i as int], by_hash(h@));
        }
        let t = ts[i];
        if t.hash.same(h) {
            out.push(t);
        }
        i += 1;
    }
    proof {
        assert(ts@.take(ts@.len() as int) =~= ts@);
    }
    out
}

/// The destination addresses of a group, in order.
fn destinations_of(g: &Vec<Transfer>) -> (r: Vec<Address>)
    ensures
        r@.map_values(|a: Address| a@) == g@.map_values(|t: Transfer| t.to@),
{
    let mut out: Vec<Address> = Vec::new();
    let mut i: usize = 0;
    while i < g.len()
        invariant
            i <= g.len(),
            out@.map_values(|a: Address| a@) == g@.take(i as int).map_values(
                |t: Transfer| t.to@,
            ),
        decreases g.len() - i,
    {
        proof {
            Seq::lemma_take_succ(g@, i as int);
            assert(g@.take(i + 1).map_values(|t: Transfer| t.to@) =~= g@.take(
                i as int,
            ).map_values(|t: Transfer| t.to@) + seq![g@[i as int].to@]);
            assert(out@.push(g@[i as int].to).map_values(|a: Address| a@) =~= out@.map_values(
                |a: Address| a@,
            ) + seq![g@[i as int].to@]);
        }
        let t = g[i];
        out.push(t.to);
        i += 1;
    }
    proof {
        assert(g@.take(g@.len() as int) =~= g@);
    }
    out
}

/// Group raw transfers by transaction hash and reconstruct one withdrawal
/// per group. A group of one transfer is a withdrawal without a relayer; of
/// two, the larger transfer pays the recipient and the smaller pays the
/// relayer's fee; any other group size stops the run with an error naming
/// the first offending transaction hash and its destination addresses.
pub fn group_fee_withdraws(transfers: &Vec<Transfer>) -> (r: Result<
    Vec<GroupedWithdraw>,
    GroupingError,
>)
    ensures
        ({
            let hs = tx_hashes(transfers@);
            match r {
                Ok(gs) => {
                    &&& gs@.len() == hs.len()
                    &&& forall|k: int|
                        0 <= k < hs.len() ==> spec_reconcile_group(group_of(transfers@, hs[k]))
                            == Some(#[trigger] gs@[k])
                },
                Err(e) => exists|k: int|
                    {
                        &&& 0 <= k < hs.len()
                        &&& spec_reconcile_group(group_of(transfers@, #[trigger] hs[k])) is None
                        &&& forall|l: int|
                            0 <= l < k ==> spec_reconcile_group(
                                group_of(transfers@, #[trigger] hs[l]),
                            ) is Some
                        &&& e.transaction_hash@ == hs[k]
                        &&& e.destinations@.map_values(|a: Address| a@) == group_of(
                            transfers@,
                            hs[k],
                        ).map_values(|t: Transfer| t.to@)
                    },
            }
        }),
{
    let hashes = distinct_hashes(transfers);
    let ghost hs = tx_hashes(transfers@);
    let mut out: Vec<GroupedWithdraw> = Vec::new();
    let mut k: usize = 0;
    while k < hashes.len()
        invariant
            k <= hashes.len(),
            hashes@.map_values(|x: TxHash| x@) == hs,
            hs == tx_hashes(transfers@),
            out@.len() == k,
            forall|l: int|
                0 <= l < k ==> spec_reconcile_group(group_of(transfers@, hs[l])) == Some(
                    #[trigger] out@[l],
                ),
        decreases hashes.len() - k,
    {
        let h = hashes[k];
        proof {
            assert(hs[k as int] == h@);
        }
        let g = filter_by_hash(transfers, &h);
        if g.len() == 1 {
            out.push(GroupedWithdraw::WithoutRelayer(g[0]));
        } else if g.len() == 2 {
            if g[1].value > g[0].value {
                out.push(GroupedWithdraw::WithRelayer(g[1], g[0]));
            } else {
                out.push(GroupedWithdraw::WithRelayer(g[0], g[1]));
            }
        } else {
            let dests = destinations_of(&g);
            let err = GroupingError { transaction_hash: h, destinations: dests };
            proof {
                let kk = k as int;
                assert(g@ == group_of(transfers@, hs[kk]));
                assert(spec_reconcile_group(group_of(transfers@, hs[kk])) is None);
                assert forall|l: int| 0 <= l < kk implies spec_reconcile_group(
                    group_of(transfers@, #[trigger] hs[l]),
                ) is Some by {
                    assert(spec_reconcile_group(group_of(transfers@, hs[l])) == Some(out@[l]));
                }
                assert({
                    &&& 0 <= kk < hs.len()
                    &&& spec_reconcile_group(group_of(transfers@, hs[kk])) is None
                    &&& forall|l: int|
                        0 <= l < kk ==> spec_reconcile_group(
                            group_of(transfers@, #[trigger] hs[l]),
                        ) is Some
                    &&& err.transaction_hash@ == hs[kk]
                    &&& err.destinations@.map_values(|a: Address| a@) == group_of(
                        transfers@,
                        hs[kk],
                    ).map_values(|t: Transfer| t.to@)
                });
            }
            return Err(err);
        }
        k += 1;
    }
    Ok(out)
}

/// Turn every reconstructed withdrawal into its canonical withdraw event.
pub fn canonical_withdraws(gs: &Vec<GroupedWithdraw>) -> (r: Vec<Withdraw>)
    ensures
        r@.len() == gs@.len(),
        forall|k: int| 0 <= k < gs@.len() ==> spec_withdraw_fields_ok(gs@[k], #[trigger] r@[k]),
{
    let mut out: Vec<Withdraw> = Vec::new();
    let mut k: usize = 0;
    while k < gs.len()
        invariant
            k <= gs.len(),
            out@.len() == k,
            forall|l: int| 0 <= l < k ==> spec_withdraw_fields_ok(gs@[l], #[trigger] out@[l]),
        decreases gs.len() - k,
    {
        let w = gs[k].to_withdraw();
        out.push(w);
        k += 1;
    }
    out
}

/// A withdrawal reconstructed by the grouping rule is well formed: its fee
/// transfer, if any, never exceeds the payout transfer.
pub proof fn lemma_reconcile_well_formed(g: Seq<Transfer>, gw: GroupedWithdraw)
    requires
        spec_reconcile_group(g) == Some(gw),
    ensures
        gw.well_formed(),
{
}

/// A group of a single transfer yields a withdrawal without a relayer: the
/// transfer's destination is both recipient and relayer, and the fee is
/// zero.
pub proof fn lemma_group_single_transfer(t: Transfer, w: Withdraw)
    requires
        spec_withdraw_fields_ok(GroupedWithdraw::WithoutRelayer(t), w),
    ensures
        spec_reconcile_group(seq![t]) == Some(GroupedWithdraw::WithoutRelayer(t)),
        w.fee.spec_value() == 0,
        w.receiver == t.to,
        w.relayer == t.to,
        w.transaction_hash == t.hash,
        w.block_number == t.block_number,
        w.pool == spec_pool_by_addr(t.from@),
{
    assert(seq![t].len() == 1);
    assert(seq![t][0] == t);
}

/// A group of two transfers with fee value strictly below payout value
/// yields a withdrawal paying the payout's destination, with the fee
/// transfer's value as fee and its destination as relayer, whichever order
/// the two records came in.
pub proof fn lemma_group_pair(p: Transfer, f: Transfer, g: Seq<Transfer>, w: Withdraw)
    requires
        f.value < p.value,
        g == seq![p, f] || g == seq![f, p],
        spec_reconcile_group(g) is Some,
        spec_withdraw_fields_ok(spec_reconcile_group(g)->Some_0, w),
    ensures
        spec_reconcile_group(g) == Some(GroupedWithdraw::WithRelayer(p, f)),
        w.fee.spec_value() == f.value,
        w.receiver == p.to,
        w.relayer == f.to,
        w.transaction_hash == p.hash,
        w.block_number == p.block_number,
        w.pool == spec_pool_by_addr(p.from@),
{
    assert(g.len() == 2);
    if g == seq![p, f] {
        assert(g[0] == p && g[1] == f);
    } else {
        assert(g[0] == f && g[1] == p);
    }
}

} // verus!
