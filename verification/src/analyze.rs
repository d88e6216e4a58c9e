//! The heuristic engine: the address-reuse matcher and the
//! denomination-pattern matcher, with the laws that hold of their results.

use vstd::prelude::*;
use vstd::seq_lib::*;
use vstd::relations::total_ordering;
use vstd::relations::sorted_by;
use crate::data::Deposit;
use crate::data::InBlock;
use crate::data::InPool;
use crate::data::Pool;
use crate::data::Withdraw;
use crate::helpers::blocks_of;
use crate::helpers::collect_pools;
use crate::helpers::in_pool;
use crate::helpers::le_u128;
use crate::helpers::lemma_filter_push;
use crate::helpers::pool_slice_ok;
use crate::helpers::sorted_pool_blocks;
use crate::patterns::DepositWithdrawPattern;
use crate::patterns::pattern_is_interesting;
use crate::patterns::pattern_of;
use crate::patterns::spec_interesting;
use crate::patterns::spec_pattern_of;
use crate::types::Address;

verus! {

/// The depositor addresses of `ds`, first occurrences in order.
pub open spec fn depositor_addrs(ds: Seq<Deposit>) -> Seq<Seq<u8>> {
    ds.map_values(|d: Deposit| d.from@).remove_duplicates(Seq::empty())
}

/// The withdraw-recipient addresses of `ws`, first occurrences in order.
pub open spec fn withdrawer_addrs(ws: Seq<Withdraw>) -> Seq<Seq<u8>> {
    ws.map_values(|w: Withdraw| w.receiver@).remove_duplicates(Seq::empty())
}

/// Deposits made from address `a`.
pub open spec fn from_addr(a: Seq<u8>) -> spec_fn(Deposit) -> bool {
    |d: Deposit| d.from@ == a
}

/// Withdraws paid out to address `a`.
pub open spec fn to_addr(a: Seq<u8>) -> spec_fn(Withdraw) -> bool {
    |w: Withdraw| w.receiver@ == a
}

/// The deposits of `ds` made from `a`, in order.
pub open spec fn deposits_of(ds: Seq<Deposit>, a: Seq<u8>) -> Seq<Deposit> {
    ds.filter(from_addr(a))
}

/// The withdraws of `ws` paid out to `a`, in order.
pub open spec fn withdraws_to(ws: Seq<Withdraw>, a: Seq<u8>) -> Seq<Withdraw> {
    ws.filter(to_addr(a))
}

/// The smallest block number among `ds`; 0 when `ds` is empty.
pub open spec fn spec_min_block(ds: Seq<Deposit>) -> u128
    decreases ds.len(),
{
    if ds.len() == 0 {
        0u128
    } else if ds.len() == 1 {
        ds[0].block_number
    } else {
        let m = spec_min_block(ds.drop_last());
        if ds.last().block_number < m {
            ds.last().block_number
        } else {
            m
        }
    }
}

/// Withdraws to `a` strictly later than block `m`.
pub open spec fn late_pred(a: Seq<u8>, m: u128) -> spec_fn(Withdraw) -> bool {
    |w: Withdraw| w.receiver@ == a && w.block_number > m
}

/// What the address-reuse matcher reports for one depositor address, if
/// anything: the address's deposits, and its withdraws later than its
/// earliest deposit; nothing unless both lists are non-empty.
pub open spec fn spec_address_match(ds: Seq<Deposit>, ws: Seq<Withdraw>, a: Seq<u8>) -> Option<
    (Seq<Deposit>, Seq<Withdraw>),
> {
    let myds = deposits_of(ds, a);
    let late = ws.filter(late_pred(a, spec_min_block(myds)));
    if myds.len() > 0 && late.len() > 0 {
        Some((myds, late))
    } else {
        None
    }
}

/// The reported entry for one depositor address, keyed by the address.
pub open spec fn match_entry_fn(ds: Seq<Deposit>, ws: Seq<Withdraw>) -> spec_fn(Seq<u8>) -> Option<
    (Seq<u8>, Seq<Deposit>, Seq<Withdraw>),
> {
    |a: Seq<u8>|
        match spec_address_match(ds, ws, a) {
            Some(p) => Some((a, p.0, p.1)),
            None => None,
        }
}

/// Everything the address-reuse matcher reports, one entry per depositor
/// address that both deposited and withdrew late enough, in order of the
/// address's first deposit.
pub open spec fn spec_get_address_matches(ds: Seq<Deposit>, ws: Seq<Withdraw>) -> Seq<
    (Seq<u8>, Seq<Deposit>, Seq<Withdraw>),
> {
    depositor_addrs(ds).filter_map(match_entry_fn(ds, ws))
}

/// One entry of the address-reuse matcher's report.
#[derive(Clone, Debug)]
pub struct AddressMatch {
    pub address: Address,
    pub deposits: Vec<Deposit>,
    pub withdraws: Vec<Withdraw>,
}

impl View for AddressMatch {
    type V = (Seq<u8>, Seq<Deposit>, Seq<Withdraw>);

    open spec fn view(&self) -> (Seq<u8>, Seq<Deposit>, Seq<Withdraw>) {
        (self.address@, self.deposits@, self.withdraws@)
    }
}

/// Does `v` hold an address whose bytes are `a`'s?
fn contains_addr(v: &Vec<Address>, a: &Address) -> (r: bool)
    ensures
        r == v@.map_values(|x: Address| x@).contains(a@),
{
    let ghost mapped = v@.map_values(|x: Address| x@);
    let mut i: usize = 0;
    while i < v.len()
        invariant
            i <= v.len(),
            mapped == v@.map_values(|x: Address| x@),
            forall|j: int| 0 <= j < i ==> mapped[j] != a@,
        decreases v.len() - i,
    {
        if v[i].same(a) {
            assert(mapped[i as int] == a@);
            return true;
        }
        i += 1;
    }
    false
}

/// The distinct values of `addrs`, first occurrences in order.
fn dedup_addrs(addrs: &Vec<Address>) -> (r: Vec<Address>)
    ensures
        r@.map_values(|x: Address| x@) == addrs@.map_values(|x: Address| x@).remove_duplicates(
            Seq::empty(),
        ),
{
    let ghost f = |x: Address| x@;
    let mut out: Vec<Address> = Vec::new();
    let mut i: usize = 0;
    proof {
        assert(addrs@.take(0).map_values(f) =~= Seq::<Seq<u8>>::empty());
        reveal_with_fuel(Seq::remove_duplicates, 2);
        assert(out@.map_values(f) =~= addrs@.take(0).map_values(f).remove_duplicates(
            Seq::empty(),
        ));
    }
    while i < addrs.len()
        invariant
            i <= addrs.len(),
            f == (|x: Address| x@),
            out@.map_values(f) == addrs@.take(i as int).map_values(f).remove_duplicates(
                Seq::empty(),
            ),
        decreases addrs.len() - i,
    {
        let ghost prefix = addrs@.take(i as int).map_values(f);
        let a = addrs[i];
        let dup = contains_addr(&out, &a);
        proof {
            Seq::lemma_take_succ(addrs@, i as int);
            assert(addrs@.take(i + 1).map_values(f) =~= prefix + seq![a@]);
            prefix.lemma_remove_duplicates_append(a@, Seq::empty());
            assert(prefix + Seq::<Seq<u8>>::empty() =~= prefix);
            prefix.lemma_remove_duplicates_properties(Seq::empty());
        }
        if !dup {
            proof {
                assert(out@.push(a).map_values(f) =~= out@.map_values(f) + seq![a@]);
            }
            out.push(a);
        }
        i += 1;
    }
    proof {
        assert(addrs@.take(addrs@.len() as int) =~= addrs@);
    }
    out
}

/// The depositor addresses of `ds`, first occurrences in order.
fn distinct_depositors(ds: &Vec<Deposit>) -> (r: Vec<Address>)
    ensures
        r@.map_values(|x: Address| x@) == depositor_addrs(ds@),
{
    let mut froms: Vec<Address> = Vec::new();
    let mut i: usize = 0;
    while i < ds.len()
        invariant
            i <= ds.len(),
            froms@.map_values(|x: Address| x@) == ds@.take(i as int).map_values(
                |d: Deposit| d.from@,
            ),
        decreases ds.len() - i,
    {
        proof {
            Seq::lemma_take_succ(ds@, i as int);
            assert(ds@.take(i + 1).map_values(|d: Deposit| d.from@) =~= ds@.take(
                i as int,
            ).map_values(|d: Deposit| d.from@) + seq![ds@[i as int].from@]);
            assert(froms@.push(ds@[i as int].from).map_values(|x: Address| x@)
                =~= froms@.map_values(|x: Address| x@) + seq![ds@[i as int].from@]);
        }
        let d = ds[i];
        froms.push(d.from);
        i += 1;
    }
    proof {
        assert(ds@.take(ds@.len() as int) =~= ds@);
    }
    dedup_addrs(&froms)
}

/// The withdraw-recipient addresses of `ws`, first occurrences in order.
fn distinct_withdrawers(ws: &Vec<Withdraw>) -> (r: Vec<Address>)
    ensures
        r@.map_values(|x: Address| x@) == withdrawer_addrs(ws@),
{
    let mut tos: Vec<Address> = Vec::new();
    let mut i: usize = 0;
    while i < ws.len()
        invariant
            i <= ws.len(),
            tos@.map_values(|x: Address| x@) == ws@.take(i as int).map_values(
                |w: Withdraw| w.receiver@,
            ),
        decreases ws.len() - i,
    {
        proof {
            Seq::lemma_take_succ(ws@, i as int);
            assert(ws@.take(i + 1).map_values(|w: Withdraw| w.receiver@) =~= ws@.take(
                i as int,
            ).map_values(|w: Withdraw| w.receiver@) + seq![ws@[i as int].receiver@]);
            assert(tos@.push(ws@[i as int].receiver).map_values(|x: Address| x@)
                =~= tos@.map_values(|x: Address| x@) + seq![ws@[i as int].receiver@]);
        }
        let w = ws[i];
        tos.push(w.receiver);
        i += 1;
    }
    proof {
        assert(ws@.take(ws@.len() as int) =~= ws@);
    }
    dedup_addrs(&tos)
}

/// The deposits of `ds` made from `a`, in order.
fn filter_deposits(ds: &Vec<Deposit>, a: &Address) -> (r: Vec<Deposit>)
    ensures
        r@ == deposits_of(ds@, a@),
{
    let mut out: Vec<Deposit> = Vec::new();
    let mut i: usize = 0;
    proof {
        reveal(Seq::filter);
        assert(ds@.take(0).filter(from_addr(a@)) =~= Seq::<Deposit>::empty());
    }
    while i < ds.len()
        invariant
            i <= ds.len(),
            out@ == ds@.take(i as int).filter(from_addr(a@)),
        decreases ds.len() - i,
    {
        proof {
            Seq::lemma_take_succ(ds@, i as int);
            assert(ds@.take(i + 1) =~= ds@.take(i as int).push(ds@[i as int]));
            lemma_filter_push(ds@.take(i as int), ds@[i as int], from_addr(a@));
        }
        let d = ds[i];
        if d.from.same(a) {
            out.push(d);
        }
        i += 1;
    }
    proof {
        assert(ds@.take(ds@.len() as int) =~= ds@);
    }
    out
}

/// The withdraws of `ws` paid out to `a`, in order.
fn filter_withdraws_to(ws: &Vec<Withdraw>, a: &Address) -> (r: Vec<Withdraw>)
    ensures
        r@ == withdraws_to(ws@, a@),
{
    let mut out: Vec<Withdraw> = Vec::new();
    let mut i: usize = 0;
    proof {
        reveal(Seq::filter);
        assert(ws@.take(0).filter(to_addr(a@)) =~= Seq::<Withdraw>::empty());
    }
    while i < ws.len()
        invariant
            i <= ws.len(),
            out@ == ws@.take(i as int).filter(to_addr(a@)),
        decreases ws.len() - i,
    {
        proof {
            Seq::lemma_take_succ(ws@, i as int);
            assert(ws@.take(i + 1) =~= ws@.take(i as int).push(ws@[i as int]));
            lemma_filter_push(ws@.take(i as int), ws@[i as int], to_addr(a@));
        }
        let w = ws[i];
        if w.receiver.same(a) {
            out.push(w);
        }
        i += 1;
    }
    proof {
        assert(ws@.take(ws@.len() as int) =~= ws@);
    }
    out
}

/// The withdraws of `ws` paid out to `a` strictly later than block `m`.
fn filter_late_withdraws(ws: &Vec<Withdraw>, a: &Address, m: u128) -> (r: Vec<Withdraw>)
    ensures
        r@ == ws@.filter(late_pred(a@, m)),
{
    let mut out: Vec<Withdraw> = Vec::new();
    let mut i: usize = 0;
    proof {
        reveal(Seq::filter);
        assert(ws@.take(0).filter(late_pred(a@, m)) =~= Seq::<Withdraw>::empty());
    }
    while i < ws.len()
        invariant
            i <= ws.len(),
            out@ == ws@.take(i as int).filter(late_pred(a@, m)),
        decreases ws.len() - i,
    {
        proof {
            Seq::lemma_take_succ(ws@, i as int);
            assert(ws@.take(i + 1) =~= ws@.take(i as int).push(ws@[i as int]));
            lemma_filter_push(ws@.take(i as int), ws@[i as int], late_pred(a@, m));
        }
        let w = ws[i];
        if w.receiver.same(a) && w.block_number > m {
            out.push(w);
        }
        i += 1;
    }
    proof {
        assert(ws@.take(ws@.len() as int) =~= ws@);
    }
    out
}

/// The smallest block number among `ds`; 0 when `ds` is empty.
fn min_block(ds: &Vec<Deposit>) -> (m: u128)
    ensures
        m == spec_min_block(ds@),
{
    if ds.len() == 0 {
        return 0;
    }
    let mut m: u128 = ds[0].block_number;
    let mut i: usize = 1;
    proof {
        assert(ds@.take(1).len() == 1);
        assert(ds@.take(1)[0] == ds@[0]);
    }
    while i < ds.len()
        invariant
            1 <= i <= ds.len(),
            ds.len() > 0,
            m == spec_min_block(ds@.take(i as int)),
        decreases ds.len() - i,
    {
        proof {
            assert(ds@.take(i + 1).drop_last() =~= ds@.take(i as int));
            assert(ds@.take(i + 1).last() == ds@[i as int]);
        }
        if ds[i].block_number < m {
            m = ds[i].block_number;
        }
        i += 1;
    }
    proof {
        assert(ds@.take(ds@.len() as int) =~= ds@);
    }
    m
}

/// The address-reuse matcher: for every distinct depositor address, report
/// its deposits together with its withdraws that came strictly after its
/// earliest deposit, keeping only addresses where both lists are non-empty.
pub fn get_address_matches(deposits: &Vec<Deposit>, withdraws: &Vec<Withdraw>) -> (r: Vec<
    AddressMatch,
>)
    ensures
        r@.map_values(|m: AddressMatch| m@) == spec_get_address_matches(deposits@, withdraws@),
{
    let ghost f = match_entry_fn(deposits@, withdraws@);
    let addrs = distinct_depositors(deposits);
    let ghost mapped = addrs@.map_values(|x: Address| x@);
    let mut out: Vec<AddressMatch> = Vec::new();
    let mut k: usize = 0;
    proof {
        assert(out@.map_values(|m: AddressMatch| m@) =~= mapped.take(0).filter_map(f));
    }
    while k < addrs.len()
        invariant
            k <= addrs.len(),
            mapped == addrs@.map_values(|x: Address| x@),
            mapped == depositor_addrs(deposits@),
            f == match_entry_fn(deposits@, withdraws@),
            out@.map_values(|m: AddressMatch| m@) == mapped.take(k as int).filter_map(f),
        decreases addrs.len() - k,
    {
        let a = addrs[k];
        proof {
            assert(mapped[k as int] == a@);
            mapped.lemma_filter_map_take_succ(f, k as int);
        }
        let ds_a = filter_deposits(deposits, &a);
        let m = min_block(&ds_a);
        let late = filter_late_withdraws(withdraws, &a, m);
        if ds_a.len() > 0 && late.len() > 0 {
            proof {
                assert(f(a@) == Some((a@, ds_a@, late@)));
            }
            let entry = AddressMatch { address: a, deposits: ds_a, withdraws: late };
            proof {
                assert(out@.push(entry).map_values(|m: AddressMatch| m@) =~= out@.map_values(
                    |m: AddressMatch| m@,
                ).push(entry@));
            }
            out.push(entry);
        } else {
            proof {
                assert(f(a@) is None);
            }
        }
        k += 1;
    }
    proof {
        assert(mapped.take(mapped.len() as int) =~= mapped);
    }
    out
}

/// Pairwise comparison of two ascending block lists, up to the shorter one.
pub open spec fn zip_le(a: Seq<u128>, b: Seq<u128>) -> bool {
    forall|i: int| 0 <= i < a.len() && i < b.len() ==> a[i] <= b[i]
}

/// For every pool, the rank-`i` deposit into it came at or before the
/// rank-`i` withdraw from it, ranking each side by block number.
pub open spec fn spec_earlier(ds: Seq<Deposit>, ws: Seq<Withdraw>) -> bool {
    &&& zip_le(sorted_pool_blocks(ds, Pool::_0_1ETH), sorted_pool_blocks(ws, Pool::_0_1ETH))
    &&& zip_le(sorted_pool_blocks(ds, Pool::_1ETH), sorted_pool_blocks(ws, Pool::_1ETH))
    &&& zip_le(sorted_pool_blocks(ds, Pool::_10ETH), sorted_pool_blocks(ws, Pool::_10ETH))
    &&& zip_le(sorted_pool_blocks(ds, Pool::_100ETH), sorted_pool_blocks(ws, Pool::_100ETH))
}

proof fn lemma_pool_slice_blocks<T: InPool + InBlock>(ts: Seq<T>, p: Pool, out: Seq<T>)
    requires
        pool_slice_ok(ts, p, out),
    ensures
        blocks_of(out) == sorted_pool_blocks(ts, p),
{
    let le = le_u128();
    assert(total_ordering(le));
    let target = blocks_of(ts.filter(in_pool(p)));
    target.lemma_sort_by_ensures(le);
    assert(sorted_by(blocks_of(out), le)) by {
        assert(forall|i: int, j: int|
            0 <= i < j < out.len() ==> out[i].spec_block() <= out[j].spec_block());
    }
    lemma_sorted_unique(blocks_of(out), target.sort_by(le), le);
}

/// Compare the block lists of two per-pool collections rank by rank.
fn blocks_le(dv: &Vec<Deposit>, wv: &Vec<Withdraw>) -> (r: bool)
    ensures
        r == zip_le(blocks_of(dv@), blocks_of(wv@)),
{
    let n = if dv.len() < wv.len() {
        dv.len()
    } else {
        wv.len()
    };
    let mut i: usize = 0;
    while i < n
        invariant
            i <= n,
            n == if dv@.len() < wv@.len() {
                dv@.len()
            } else {
                wv@.len()
            },
            forall|j: int|
                0 <= j < i ==> blocks_of(dv@)[j] <= blocks_of(wv@)[j],
        decreases n - i,
    {
        if dv[i].block_number > wv[i].block_number {
            assert(blocks_of(dv@)[i as int] > blocks_of(wv@)[i as int]);
            return false;
        }
        i += 1;
    }
    true
}

/// Whether each of an address pair's pool-wise deposit ranks precedes the
/// matching withdraw rank: the temporal constraint of the pattern matcher.
pub fn earlier(deposits: &Vec<Deposit>, withdraws: &Vec<Withdraw>) -> (r: bool)
    ensures
        r == spec_earlier(deposits@, withdraws@),
{
    let (d0, d1, d2, d3) = collect_pools(deposits);
    let (w0, w1, w2, w3) = collect_pools(withdraws);
    proof {
        lemma_pool_slice_blocks(deposits@, Pool::_0_1ETH, d0@);
        lemma_pool_slice_blocks(deposits@, Pool::_1ETH, d1@);
        lemma_pool_slice_blocks(deposits@, Pool::_10ETH, d2@);
        lemma_pool_slice_blocks(deposits@, Pool::_100ETH, d3@);
        lemma_pool_slice_blocks(withdraws@, Pool::_0_1ETH, w0@);
        lemma_pool_slice_blocks(withdraws@, Pool::_1ETH, w1@);
        lemma_pool_slice_blocks(withdraws@, Pool::_10ETH, w2@);
        lemma_pool_slice_blocks(withdraws@, Pool::_100ETH, w3@);
    }
    blocks_le(&d0, &w0) && blocks_le(&d1, &w1) && blocks_le(&d2, &w2) && blocks_le(&d3, &w3)
}

/// The candidate triple for one withdrawer address, if the deposit pattern
/// is interesting and the withdraw pattern equals it.
pub open spec fn cand_fn(ds: Seq<Deposit>, ws: Seq<Withdraw>, da: Seq<u8>) -> spec_fn(Seq<u8>) -> Option<
    (Seq<u8>, Seq<u8>, (nat, nat, nat, nat)),
> {
    |wa: Seq<u8>|
        {
            let dpat = spec_pattern_of(deposits_of(ds, da));
            if spec_interesting(dpat) && spec_pattern_of(withdraws_to(ws, wa)) == dpat {
                Some((da, wa, dpat))
            } else {
                None
            }
        }
}

/// All candidate triples for one depositor address.
pub open spec fn inner_cands(ds: Seq<Deposit>, ws: Seq<Withdraw>, da: Seq<u8>) -> Seq<
    (Seq<u8>, Seq<u8>, (nat, nat, nat, nat)),
> {
    withdrawer_addrs(ws).filter_map(cand_fn(ds, ws, da))
}

/// The candidate triples for a prefix of the depositor addresses, in order.
pub open spec fn spec_candidates_of(das: Seq<Seq<u8>>, ds: Seq<Deposit>, ws: Seq<Withdraw>) -> Seq<
    (Seq<u8>, Seq<u8>, (nat, nat, nat, nat)),
>
    decreases das.len(),
{
    if das.len() == 0 {
        Seq::empty()
    } else {
        spec_candidates_of(das.drop_last(), ds, ws) + inner_cands(ds, ws, das.last())
    }
}

/// Every (depositor, withdrawer, pattern) candidate triple.
pub open spec fn spec_candidates(ds: Seq<Deposit>, ws: Seq<Withdraw>) -> Seq<
    (Seq<u8>, Seq<u8>, (nat, nat, nat, nat)),
> {
    spec_candidates_of(depositor_addrs(ds), ds, ws)
}

/// Triples carrying pattern `p`.
pub open spec fn pat_eq(p: (nat, nat, nat, nat)) -> spec_fn((Seq<u8>, Seq<u8>, (nat, nat, nat, nat))) -> bool {
    |u: (Seq<u8>, Seq<u8>, (nat, nat, nat, nat))| u.2 == p
}

/// A triple's pattern is carried by no other candidate triple.
pub open spec fn uniq_pred(cands: Seq<(Seq<u8>, Seq<u8>, (nat, nat, nat, nat))>) -> spec_fn(
    (Seq<u8>, Seq<u8>, (nat, nat, nat, nat)),
) -> bool {
    |t: (Seq<u8>, Seq<u8>, (nat, nat, nat, nat))| cands.filter(pat_eq(t.2)).len() == 1
}

/// The pair behind a triple passes the temporal constraint.
pub open spec fn earlier_pred(ds: Seq<Deposit>, ws: Seq<Withdraw>) -> spec_fn(
    (Seq<u8>, Seq<u8>, (nat, nat, nat, nat)),
) -> bool {
    |t: (Seq<u8>, Seq<u8>, (nat, nat, nat, nat))|
        spec_earlier(deposits_of(ds, t.0), withdraws_to(ws, t.1))
}

/// What the denomination-pattern matcher returns: the candidate triples
/// whose pattern is unique among all candidates and whose pair passes the
/// temporal constraint.
pub open spec fn spec_match_patterns(ds: Seq<Deposit>, ws: Seq<Withdraw>) -> Seq<
    (Seq<u8>, Seq<u8>, (nat, nat, nat, nat)),
> {
    let cands = spec_candidates(ds, ws);
    cands.filter(uniq_pred(cands)).filter(earlier_pred(ds, ws))
}

proof fn lemma_filter_map_none<A, B>(s: Seq<A>, f: spec_fn(A) -> Option<B>)
    requires
        forall|i: int| 0 <= i < s.len() ==> #[trigger] f(s[i]) is None,
    ensures
        s.filter_map(f) == Seq::<B>::empty(),
    decreases s.len(),
{
    if s.len() > 0 {
        lemma_filter_map_none(s.drop_last(), f);
        assert(f(s.last()) is None);
    }
    assert(s.filter_map(f) =~= Seq::<B>::empty());
}

/// How many candidate triples carry pattern `p`.
fn count_pattern(
    cands: &Vec<(Address, Address, DepositWithdrawPattern)>,
    p: &DepositWithdrawPattern,
) -> (c: usize)
    ensures
        c == cands@.map_values(
            |t: (Address, Address, DepositWithdrawPattern)| (t.0@, t.1@, t.2@),
        ).filter(pat_eq(p@)).len(),
{
    broadcast use Seq::lemma_filter_len;

    let ghost mapped = cands@.map_values(
        |t: (Address, Address, DepositWithdrawPattern)| (t.0@, t.1@, t.2@),
    );
    let mut c: usize = 0;
    let mut i: usize = 0;
    proof {
        reveal(Seq::filter);
        assert(mapped.take(0).filter(pat_eq(p@)) =~= Seq::<
            (Seq<u8>, Seq<u8>, (nat, nat, nat, nat)),
        >::empty());
    }
    while i < cands.len()
        invariant
            i <= cands.len(),
            mapped == cands@.map_values(
                |t: (Address, Address, DepositWithdrawPattern)| (t.0@, t.1@, t.2@),
            ),
            c == mapped.take(i as int).filter(pat_eq(p@)).len(),
        decreases cands.len() - i,
    {
        proof {
            broadcast use Seq::lemma_filter_len;

            Seq::lemma_take_succ(mapped, i as int);
            assert(mapped.take(i + 1) =~= mapped.take(i as int).push(mapped[i as int]));
            lemma_filter_push(mapped.take(i as int), mapped[i as int], pat_eq(p@));
            assert(mapped.take(i as int).len() == i);
        }
        if cands[i].2 == *p {
            assert(pat_eq(p@)(mapped[i as int]));
            c += 1;
        } else {
            assert(!pat_eq(p@)(mapped[i as int]));
        }
        i += 1;
    }
    proof {
        assert(mapped.take(mapped.len() as int) =~= mapped);
    }
    c
}

/// The denomination-pattern matcher: correlate depositor and withdrawer
/// addresses whose per-pool usage patterns match exactly, keeping only
/// patterns that single out one pair and pairs whose pool-wise deposit
/// ranks precede their withdraw ranks.
pub fn match_patterns(deposits: &Vec<Deposit>, withdraws: &Vec<Withdraw>) -> (r: Vec<
    (Address, Address, DepositWithdrawPattern),
>)
    ensures
        r@.map_values(|t: (Address, Address, DepositWithdrawPattern)| (t.0@, t.1@, t.2@))
            == spec_match_patterns(deposits@, withdraws@),
{
    let ghost view_fn = |t: (Address, Address, DepositWithdrawPattern)| (t.0@, t.1@, t.2@);
    let das = distinct_depositors(deposits);
    let was = distinct_withdrawers(withdraws);
    let ghost dasm = das@.map_values(|x: Address| x@);
    let ghost wasm = was@.map_values(|x: Address| x@);
    let mut cands: Vec<(Address, Address, DepositWithdrawPattern)> = Vec::new();
    let mut k: usize = 0;
    proof {
        assert(dasm.take(0).len() == 0);
        assert(cands@.map_values(view_fn) =~= spec_candidates_of(
            dasm.take(0),
            deposits@,
            withdraws@,
        ));
    }
    while k < das.len()
        invariant
            k <= das.len(),
            dasm == das@.map_values(|x: Address| x@),
            wasm == was@.map_values(|x: Address| x@),
            dasm == depositor_addrs(deposits@),
            wasm == withdrawer_addrs(withdraws@),
            view_fn == (|t: (Address, Address, DepositWithdrawPattern)| (t.0@, t.1@, t.2@)),
            cands@.map_values(view_fn) == spec_candidates_of(
                dasm.take(k as int),
                deposits@,
                withdraws@,
            ),
        decreases das.len() - k,
    {
        let da = das[k];
        proof {
            assert(dasm[k as int] == da@);
        }
        let ghost g = cand_fn(deposits@, withdraws@, da@);
        let ds_a = filter_deposits(deposits, &da);
        let dpat = pattern_of(&ds_a);
        if pattern_is_interesting(&dpat) {
            let mut j: usize = 0;
            proof {
                assert(cands@.map_values(view_fn) + wasm.take(0).filter_map(g)
                    =~= cands@.map_values(view_fn));
            }
            while j < was.len()
                invariant
                    j <= was.len(),
                    k < das.len(),
                    da == das@[k as int],
                    dasm == das@.map_values(|x: Address| x@),
                    wasm == was@.map_values(|x: Address| x@),
                    dasm == depositor_addrs(deposits@),
                    wasm == withdrawer_addrs(withdraws@),
                    g == cand_fn(deposits@, withdraws@, da@),
                    dpat@ == spec_pattern_of(deposits_of(deposits@, da@)),
                    spec_interesting(dpat@),
                    view_fn == (|t: (Address, Address, DepositWithdrawPattern)| (t.0@, t.1@, t.2@)),
                    cands@.map_values(view_fn) == spec_candidates_of(
                        dasm.take(k as int),
                        deposits@,
                        withdraws@,
                    ) + wasm.take(j as int).filter_map(g),
                decreases was.len() - j,
            {
                let wa = was[j];
                proof {
                    assert(wasm[j as int] == wa@);
                    wasm.lemma_filter_map_take_succ(g, j as int);
                }
                let ws_a = filter_withdraws_to(withdraws, &wa);
                let wpat = pattern_of(&ws_a);
                if wpat == dpat {
                    proof {
                        assert(g(wa@) == Some((da@, wa@, dpat@)));
                        assert(cands@.push((da, wa, dpat)).map_values(view_fn)
                            =~= cands@.map_values(view_fn) + seq![(da@, wa@, dpat@)]);
                        assert(wasm.take(j + 1).filter_map(g) =~= wasm.take(
                            j as int,
                        ).filter_map(g) + seq![(da@, wa@, dpat@)]);
                    }
                    cands.push((da, wa, dpat));
                } else {
                    proof {
                        assert(g(wa@) is None);
                    }
                }
                j += 1;
            }
            proof {
                assert(wasm.take(wasm.len() as int) =~= wasm);
                assert(dasm.take(k + 1).drop_last() =~= dasm.take(k as int));
                assert(dasm.take(k + 1).last() == da@);
            }
        } else {
            proof {
                assert forall|i: int| 0 <= i < wasm.len() implies #[trigger] g(wasm[i]) is None by {
                    assert(!spec_interesting(spec_pattern_of(deposits_of(deposits@, da@))));
                }
                lemma_filter_map_none(wasm, g);
                assert(dasm.take(k + 1).drop_last() =~= dasm.take(k as int));
                assert(dasm.take(k + 1).last() == da@);
                assert(cands@.map_values(view_fn) + inner_cands(deposits@, withdraws@, da@)
                    =~= cands@.map_values(view_fn));
            }
        }
        k += 1;
    }
    proof {
        assert(dasm.take(dasm.len() as int) =~= dasm);
    }
    // keep only triples whose pattern no other candidate triple carries
    let ghost candsm = cands@.map_values(view_fn);
    let ghost up = uniq_pred(candsm);
    let mut kept: Vec<(Address, Address, DepositWithdrawPattern)> = Vec::new();
    let mut i: usize = 0;
    proof {
        reveal(Seq::filter);
        assert(kept@.map_values(view_fn) =~= candsm.take(0).filter(up));
    }
    while i < cands.len()
        invariant
            i <= cands.len(),
            candsm == cands@.map_values(view_fn),
            candsm == spec_candidates(deposits@, withdraws@),
            up == uniq_pred(candsm),
            view_fn == (|t: (Address, Address, DepositWithdrawPattern)| (t.0@, t.1@, t.2@)),
            kept@.map_values(view_fn) == candsm.take(i as int).filter(up),
        decreases cands.len() - i,
    {
        let t = cands[i];
        proof {
            Seq::lemma_take_succ(candsm, i as int);
            assert(candsm.take(i + 1) =~= candsm.take(i as int).push(candsm[i as int]));
            lemma_filter_push(candsm.take(i as int), candsm[i as int], up);
            assert(candsm[i as int] == view_fn(t));
        }
        let c = count_pattern(&cands, &t.2);
        if c == 1 {
            proof {
                assert(up(candsm[i as int]));
                assert(kept@.push(t).map_values(view_fn) =~= kept@.map_values(view_fn).push(
                    view_fn(t),
                ));
            }
            kept.push(t);
        } else {
            proof {
                assert(!up(candsm[i as int]));
            }
        }
        i += 1;
    }
    proof {
        assert(candsm.take(candsm.len() as int) =~= candsm);
    }
    // keep only pairs that pass the temporal constraint
    let ghost keptm = kept@.map_values(view_fn);
    let ghost ep = earlier_pred(deposits@, withdraws@);
    let mut out: Vec<(Address, Address, DepositWithdrawPattern)> = Vec::new();
    let mut i2: usize = 0;
    proof {
        reveal(Seq::filter);
        assert(out@.map_values(view_fn) =~= keptm.take(0).filter(ep));
    }
    while i2 < kept.len()
        invariant
            i2 <= kept.len(),
            keptm == kept@.map_values(view_fn),
            keptm == spec_candidates(deposits@, withdraws@).filter(
                uniq_pred(spec_candidates(deposits@, withdraws@)),
            ),
            ep == earlier_pred(deposits@, withdraws@),
            view_fn == (|t: (Address, Address, DepositWithdrawPattern)| (t.0@, t.1@, t.2@)),
            out@.map_values(view_fn) == keptm.take(i2 as int).filter(ep),
        decreases kept.len() - i2,
    {
        let t = kept[i2];
        proof {
            Seq::lemma_take_succ(keptm, i2 as int);
            assert(keptm.take(i2 + 1) =~= keptm.take(i2 as int).push(keptm[i2 as int]));
            lemma_filter_push(keptm.take(i2 as int), keptm[i2 as int], ep);
            assert(keptm[i2 as int] == view_fn(t));
        }
        let ds_a = filter_deposits(deposits, &t.0);
        let ws_a = filter_withdraws_to(withdraws, &t.1);
        let e = earlier(&ds_a, &ws_a);
        if e {
            proof {
                assert(ep(keptm[i2 as int]));
                assert(out@.push(t).map_values(view_fn) =~= out@.map_values(view_fn).push(
                    view_fn(t),
                ));
            }
            out.push(t);
        } else {
            proof {
                assert(!ep(keptm[i2 as int]));
            }
        }
        i2 += 1;
    }
    proof {
        assert(keptm.take(keptm.len() as int) =~= keptm);
    }
    out
}

/// Whatever the address-reuse matcher reports for an address is backed by
/// evidence: the address has at least one deposit, its reported deposits are
/// exactly its deposits, and every reported withdraw pays it strictly later
/// than its earliest deposit.
pub proof fn lemma_address_match_reported(ds: Seq<Deposit>, ws: Seq<Withdraw>, i: int)
    requires
        0 <= i < spec_get_address_matches(ds, ws).len(),
    ensures
        ({
            let e = spec_get_address_matches(ds, ws)[i];
            &&& e.1.len() > 0
            &&& e.2.len() > 0
            &&& e.1 == deposits_of(ds, e.0)
            &&& forall|j: int| 0 <= j < e.1.len() ==> (#[trigger] e.1[j]).from@ == e.0
            &&& forall|j: int|
                0 <= j < e.2.len() ==> (#[trigger] e.2[j]).receiver@ == e.0 && e.2[j].block_number
                    > spec_min_block(deposits_of(ds, e.0))
        }),
{
    broadcast use Seq::lemma_filter_pred;

    let addrs = depositor_addrs(ds);
    let f = match_entry_fn(ds, ws);
    let r = spec_get_address_matches(ds, ws);
    let e = r[i];
    assert(r.contains(e));
    addrs.lemma_filter_map_contains(f, e);
    let a = choose|a: Seq<u8>| #[trigger] addrs.contains(a) && f(a) == Some(e);
    assert(spec_address_match(ds, ws, a) is Some);
    assert(e.0 == a);
    assert(e.1 == deposits_of(ds, a));
    assert(e.2 == ws.filter(late_pred(a, spec_min_block(deposits_of(ds, a)))));
}

proof fn lemma_candidates_membership(
    das: Seq<Seq<u8>>,
    ds: Seq<Deposit>,
    ws: Seq<Withdraw>,
    i: int,
)
    requires
        0 <= i < spec_candidates_of(das, ds, ws).len(),
    ensures
        exists|k: int|
            0 <= k < das.len() && #[trigger] inner_cands(ds, ws, das[k]).contains(
                spec_candidates_of(das, ds, ws)[i],
            ),
    decreases das.len(),
{
    let r = spec_candidates_of(das, ds, ws);
    let prefix = spec_candidates_of(das.drop_last(), ds, ws);
    let inner = inner_cands(ds, ws, das.last());
    if i < prefix.len() {
        lemma_candidates_membership(das.drop_last(), ds, ws, i);
        let k = choose|k: int|
            0 <= k < das.drop_last().len() && #[trigger] inner_cands(
                ds,
                ws,
                das.drop_last()[k],
            ).contains(prefix[i]);
        assert(das[k] == das.drop_last()[k]);
        assert(inner_cands(ds, ws, das[k]).contains(r[i]));
    } else {
        assert(r[i] == inner[i - prefix.len()]);
        assert(inner.contains(r[i]));
        let k = das.len() - 1;
        assert(das[k] == das.last());
        assert(inner_cands(ds, ws, das[k]).contains(r[i]));
    }
}

/// Whatever the pattern matcher reports is backed by evidence: the
/// depositor's per-pool pattern is interesting, the withdrawer's pattern
/// equals it exactly, and the pair passes the pool-wise temporal ordering.
pub proof fn lemma_match_patterns_reported(ds: Seq<Deposit>, ws: Seq<Withdraw>, i: int)
    requires
        0 <= i < spec_match_patterns(ds, ws).len(),
    ensures
        ({
            let t = spec_match_patterns(ds, ws)[i];
            &&& t.2 == spec_pattern_of(deposits_of(ds, t.0))
            &&& t.2 == spec_pattern_of(withdraws_to(ws, t.1))
            &&& spec_interesting(t.2)
            &&& depositor_addrs(ds).contains(t.0)
            &&& withdrawer_addrs(ws).contains(t.1)
            &&& spec_earlier(deposits_of(ds, t.0), withdraws_to(ws, t.1))
        }),
{
    broadcast use Seq::lemma_filter_pred;
    broadcast use Seq::lemma_filter_contains_rev;

    let cands = spec_candidates(ds, ws);
    let up = uniq_pred(cands);
    let ep = earlier_pred(ds, ws);
    let r1 = cands.filter(up);
    let r = r1.filter(ep);
    let t = r[i];
    assert(ep(t));
    assert(r.contains(t));
    assert(r1.contains(t));
    assert(cands.contains(t));
    let ci = choose|ci: int| 0 <= ci < cands.len() && cands[ci] == t;
    lemma_candidates_membership(depositor_addrs(ds), ds, ws, ci);
    let k = choose|k: int|
        0 <= k < depositor_addrs(ds).len() && #[trigger] inner_cands(
            ds,
            ws,
            depositor_addrs(ds)[k],
        ).contains(t);
    let da = depositor_addrs(ds)[k];
    assert(depositor_addrs(ds).contains(da));
    withdrawer_addrs(ws).lemma_filter_map_contains(cand_fn(ds, ws, da), t);
    let wa = choose|wa: Seq<u8>|
        #[trigger] withdrawer_addrs(ws).contains(wa) && cand_fn(ds, ws, da)(wa) == Some(t);
    assert(t.0 == da && t.1 == wa);
}

proof fn lemma_filter_preserves_count<A>(s: Seq<A>, p: spec_fn(A) -> bool, v: A)
    requires
        p(v),
    ensures
        s.filter(p).to_multiset().count(v) == s.to_multiset().count(v),
    decreases s.len(),
{
    broadcast use vstd::seq_lib::group_to_multiset_ensures;
    broadcast use vstd::multiset::group_multiset_axioms;

    reveal(Seq::filter);
    if s.len() > 0 {
        let dl = s.drop_last();
        let last = s.last();
        lemma_filter_preserves_count(dl, p, v);
        assert(s =~= dl.push(last));
        assert(s.to_multiset() =~= dl.to_multiset().insert(last));
        if p(last) {
            assert(s.filter(p) == dl.filter(p).push(last));
            assert(s.filter(p).to_multiset() =~= dl.filter(p).to_multiset().insert(last));
        } else {
            assert(last != v);
        }
    }
}

proof fn lemma_two_positions_count<A>(s: Seq<A>, i: int, j: int)
    requires
        0 <= i < s.len(),
        0 <= j < s.len(),
        i != j,
        s[i] == s[j],
    ensures
        s.to_multiset().count(s[i]) >= 2,
{
    broadcast use vstd::seq_lib::group_to_multiset_ensures;
    broadcast use vstd::multiset::group_multiset_axioms;

    let v = s[i];
    let removed = s.remove(j);
    assert(removed.to_multiset() =~= s.to_multiset().remove(v));
    let i2 = if i < j {
        i
    } else {
        i - 1
    };
    assert(removed[i2] == v);
    assert(removed.contains(v));
    assert(removed.to_multiset().count(v) > 0);
}

/// The pattern matcher's uniqueness invariant: no two reported triples carry
/// the same pattern tuple.
pub proof fn lemma_match_patterns_unique(ds: Seq<Deposit>, ws: Seq<Withdraw>, i: int, j: int)
    requires
        0 <= i < spec_match_patterns(ds, ws).len(),
        0 <= j < spec_match_patterns(ds, ws).len(),
        i != j,
    ensures
        spec_match_patterns(ds, ws)[i].2 != spec_match_patterns(ds, ws)[j].2,
{
    broadcast use Seq::lemma_filter_pred;
    broadcast use Seq::lemma_filter_contains;
    broadcast use Seq::lemma_filter_contains_rev;
    broadcast use vstd::seq_lib::group_to_multiset_ensures;
    broadcast use vstd::multiset::group_multiset_axioms;

    let cands = spec_candidates(ds, ws);
    let up = uniq_pred(cands);
    let ep = earlier_pred(ds, ws);
    let r1 = cands.filter(up);
    let r = r1.filter(ep);
    let v = r[i];
    let w = r[j];
    if v.2 == w.2 {
        // every reported triple is a candidate whose pattern count is one
        assert(r.contains(v) && r.contains(w));
        assert(r1.contains(v) && r1.contains(w));
        assert(up(v)) by {
            let iv = choose|iv: int| 0 <= iv < r1.len() && r1[iv] == v;
            assert(up(r1[iv]));
        }
        assert(up(w)) by {
            let iw = choose|iw: int| 0 <= iw < r1.len() && r1[iw] == w;
            assert(up(r1[iw]));
        }
        assert(cands.contains(v) && cands.contains(w));
        let pe = pat_eq(v.2);
        assert(pe(v) && pe(w));
        if v != w {
            // two different triples with the same pattern: the pattern's
            // candidate count is at least two
            let iv = choose|iv: int| 0 <= iv < cands.len() && cands[iv] == v;
            let iw = choose|iw: int| 0 <= iw < cands.len() && cands[iw] == w;
            assert(cands.filter(pe).contains(v));
            assert(cands.filter(pe).contains(w));
            let fv = choose|fv: int| 0 <= fv < cands.filter(pe).len() && cands.filter(pe)[fv] == v;
            let fw = choose|fw: int| 0 <= fw < cands.filter(pe).len() && cands.filter(pe)[fw] == w;
            assert(fv != fw);
            assert(cands.filter(pe).len() >= 2);
            assert(false);
        } else {
            // the same triple reported twice: it occurs twice among the
            // candidates, so its pattern's candidate count is at least two
            lemma_two_positions_count(r, i, j);
            lemma_filter_preserves_count(r1, ep, v);
            lemma_filter_preserves_count(cands, up, v);
            assert(cands.to_multiset().count(v) >= 2);
            lemma_filter_preserves_count(cands, pe, v);
            assert(cands.filter(pe).to_multiset().count(v) >= 2);
            assert(cands.filter(pe).to_multiset().len() == cands.filter(pe).len());
            assert(cands.filter(pe).len() >= 2);
            assert(false);
        }
    }
}

} // verus!
