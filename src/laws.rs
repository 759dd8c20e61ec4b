//! Properties of the protocol that relate several values or several calls.

use vstd::prelude::*;
use crate::types::{AccountId, Balance, BlockNumber, Channel, Dispatched, Error, LedgerOp, Organization, Service};
use crate::encoding::{channel_id_of, name_id};
use crate::settlement::{
    claim_amount_of, claim_step_of, counter_or_zero, remaining_of, sat_mul,
    version_changed, ClaimStep,
};
use crate::pallet::{
    channel_key, first_index, lemma_push_new, org_key, updated_service,
};

verus! {

/// The funds that the open Channels `s` hold in escrow.
pub open spec fn escrow_total(s: Seq<Channel>) -> int
    decreases s.len(),
{
    if s.len() == 0 {
        0
    } else {
        escrow_total(s.drop_last()) + remaining_of(s.last())
    }
}

/// What the movements `ops` add to the balance of `escrow`.
pub open spec fn escrow_inflow(ops: Seq<LedgerOp>, escrow: AccountId) -> int
    decreases ops.len(),
{
    if ops.len() == 0 {
        0
    } else {
        escrow_inflow(ops.drop_last(), escrow) + match ops.last() {
            LedgerOp::Transfer { from, to, amount } =>
                (if to == escrow { amount as int } else { 0 }) - (if from == escrow { amount as int } else { 0 }),
            _ => 0,
        }
    }
}

/// No movement transfers from an account to itself.
pub open spec fn no_self_transfer(ops: Seq<LedgerOp>) -> bool {
    forall|i: int| 0 <= i < ops.len() ==> !(#[trigger] ops[i] matches LedgerOp::Transfer { from, to, .. } && from == to)
}

/// Every Channel's full escrow `price * calls` is a representable balance.
pub open spec fn escrow_fits(s: Seq<Channel>) -> bool {
    forall|i: int| 0 <= i < s.len() ==> (#[trigger] s[i]).price * s[i].calls <= u128::MAX
}

/// Fund conservation for one operation: a success moves into the escrow
/// account exactly what the open Channels' escrow grew by.
pub open spec fn conserves_escrow(r: Result<Dispatched, Error>, before: Seq<Channel>, after: Seq<Channel>, escrow: AccountId) -> bool {
    match r {
        Ok(d) => no_self_transfer(d.ops@) ==> escrow_total(after) == escrow_total(before) + escrow_inflow(d.ops@, escrow),
        Err(_) => true,
    }
}

pub proof fn lemma_escrow_total_push(s: Seq<Channel>, c: Channel)
    ensures
        escrow_total(s.push(c)) == escrow_total(s) + remaining_of(c),
{
    assert(s.push(c).drop_last() =~= s);
}

pub proof fn lemma_escrow_total_update(s: Seq<Channel>, i: int, c: Channel)
    requires
        0 <= i < s.len(),
    ensures
        escrow_total(s.update(i, c)) == escrow_total(s) - remaining_of(s[i]) + remaining_of(c),
    decreases s.len(),
{
    let t = s.update(i, c);
    if i == s.len() - 1 {
        assert(t.drop_last() =~= s.drop_last());
    } else {
        assert(t.drop_last() =~= s.drop_last().update(i, c));
        lemma_escrow_total_update(s.drop_last(), i, c);
    }
}

pub proof fn lemma_escrow_total_remove(s: Seq<Channel>, i: int)
    requires
        0 <= i < s.len(),
    ensures
        escrow_total(s.remove(i)) == escrow_total(s) - remaining_of(s[i]),
    decreases s.len(),
{
    let t = s.remove(i);
    if i == s.len() - 1 {
        assert(t =~= s.drop_last());
    } else {
        assert(t.drop_last() =~= s.drop_last().remove(i));
        lemma_escrow_total_remove(s.drop_last(), i);
    }
}

/// Redeeming `k` calls on a Channel whose full escrow is representable takes
/// from its escrow exactly the amount paid out.
pub proof fn lemma_redeem_conserves(c: Channel, k: u32)
    requires
        c.price * c.calls <= u128::MAX,
        k > c.counter,
        remaining_of(c) != 0,
        claim_amount_of(c, k) <= remaining_of(c),
    ensures
        remaining_of(c) - remaining_of(Channel { counter: k, ..c }) == claim_amount_of(c, k),
{
    let p = c.price as int;
    let n = c.calls as int;
    let m = c.counter as int;
    assert(m <= n);
    assert(p * (n - m) <= p * n) by (nonlinear_arith)
        requires 0 <= p, 0 <= m <= n;
    if k <= c.calls {
        assert(p * (k - m) <= p * n) by (nonlinear_arith)
            requires 0 <= p, 0 <= m, m < k <= n;
        assert(p * (n - k) <= p * n) by (nonlinear_arith)
            requires 0 <= p, k <= n;
        assert(p * (n - m) - p * (n - k) == p * (k - m)) by (nonlinear_arith);
    } else {
        assert(p * (n - m) <= p * (k - m)) by (nonlinear_arith)
            requires 0 <= p, n < k, m <= n;
    }
}

/// A claim that goes on to be redeemed raises the counter; a claim that is
/// neither a close nor an owner's refund fails with `ClaimLowCounter` when
/// its counter does not exceed the stored one.
pub proof fn lemma_counter_monotonic(c: Channel, s: Service, caller: AccountId, now: BlockNumber, counter: Option<u32>)
    ensures
        claim_step_of(c, s, caller, now, counter) matches Ok(ClaimStep::Redeem { counter: k }) ==> k > c.counter,
        remaining_of(c) != 0 && caller != c.owner && counter_or_zero(counter) <= c.counter
            ==> claim_step_of(c, s, caller, now, counter) == Err::<ClaimStep, Error>(Error::ClaimLowCounter),
{
}

/// Ids are functions of their inputs: equal inputs give equal ids.
pub proof fn lemma_ids_deterministic(
    owner1: AccountId, name1: Seq<u8>, owner2: AccountId, name2: Seq<u8>,
    org1: Seq<u8>, svc1: Seq<u8>, org2: Seq<u8>, svc2: Seq<u8>,
)
    ensures
        owner1 == owner2 && name1 == name2 ==> name_id(owner1@, name1) == name_id(owner2@, name2),
        owner1 == owner2 && org1 == org2 && svc1 == svc2 ==> channel_id_of(owner1@, org1, svc1) == channel_id_of(owner2@, org2, svc2),
{
}

/// Once an Organization is stored under `(owner, id)`, the key is taken: a
/// second creation from the same inputs finds it and fails.
pub proof fn lemma_organization_key_taken(s: Seq<Organization>, o: Organization, owner: AccountId, id: Seq<u8>)
    requires
        first_index(s, org_key(owner, id)) is None,
        o.owner == owner,
        o.id@ == id,
    ensures
        first_index(s.push(o), org_key(owner, id)) is Some,
{
    lemma_push_new(s, org_key(owner, id), o);
}

/// Once a Channel is stored under `(owner, id)`, opening it again fails.
pub proof fn lemma_channel_key_taken(s: Seq<Channel>, c: Channel, owner: AccountId, id: Seq<u8>)
    requires
        first_index(s, channel_key(owner, id)) is None,
        c.owner == owner,
        c.id@ == id,
    ensures
        first_index(s.push(c), channel_key(owner, id)) is Some,
{
    lemma_push_new(s, channel_key(owner, id), c);
}

/// After an update of its Service, a Channel opened at an earlier or equal
/// version is outdated, and its owner closes it with any counter and no
/// signature, taking back what is left.
pub proof fn lemma_update_invalidates(
    s: Service,
    c: Channel,
    name: Option<Vec<u8>>,
    price: Option<Balance>,
    minimum_calls: Option<u32>,
    expiration_threshold: Option<BlockNumber>,
    trials: Option<u32>,
    metadata: Option<Vec<u8>>,
    now: BlockNumber,
    counter: Option<u32>,
)
    requires
        c.version <= s.version < u32::MAX,
    ensures
        ({
            let u = updated_service(s, name, price, minimum_calls, expiration_threshold, trials, metadata);
            &&& version_changed(c, u)
            &&& claim_step_of(c, u, c.owner, now, counter) == if remaining_of(c) == 0 {
                Ok::<ClaimStep, Error>(ClaimStep::Close)
            } else {
                Ok::<ClaimStep, Error>(ClaimStep::Refund { funds: remaining_of(c) })
            }
        }),
{
}

/// The sum of `amounts`.
pub open spec fn total(amounts: Seq<Balance>) -> int
    decreases amounts.len(),
{
    if amounts.len() == 0 {
        0
    } else {
        total(amounts.drop_last()) + amounts.last()
    }
}

/// Successive redemptions on one Channel: `chain[t + 1]` is `chain[t]` with
/// the counter raised to `counters[t]`, which paid out `amounts[t]`.
pub open spec fn redemption_chain(chain: Seq<Channel>, counters: Seq<u32>, amounts: Seq<Balance>) -> bool {
    &&& chain.len() == counters.len() + 1
    &&& amounts.len() == counters.len()
    &&& forall|t: int| 0 <= t < counters.len() ==> {
        &&& counters[t] > (#[trigger] chain[t]).counter
        &&& remaining_of(chain[t]) != 0
        &&& amounts[t] == claim_amount_of(chain[t], counters[t])
        &&& amounts[t] <= remaining_of(chain[t])
        &&& chain[t + 1] == Channel { counter: counters[t], ..chain[t] }
    }
}

proof fn lemma_chain_prefix(chain: Seq<Channel>, counters: Seq<u32>, amounts: Seq<Balance>)
    requires
        redemption_chain(chain, counters, amounts),
        counters.len() > 0,
    ensures
        redemption_chain(chain.drop_last(), counters.drop_last(), amounts.drop_last()),
{
    let pc = chain.drop_last();
    let pk = counters.drop_last();
    let pa = amounts.drop_last();
    assert forall|t: int| 0 <= t < pk.len() implies {
        &&& pk[t] > (#[trigger] pc[t]).counter
        &&& remaining_of(pc[t]) != 0
        &&& pa[t] == claim_amount_of(pc[t], pk[t])
        &&& pa[t] <= remaining_of(pc[t])
        &&& pc[t + 1] == Channel { counter: pk[t], ..pc[t] }
    } by {
        assert(pc[t] == chain[t] && pc[t + 1] == chain[t + 1] && pk[t] == counters[t] && pa[t] == amounts[t]);
    }
}

proof fn lemma_chain_terms(chain: Seq<Channel>, counters: Seq<u32>, amounts: Seq<Balance>, t: int)
    requires
        redemption_chain(chain, counters, amounts),
        0 <= t < chain.len(),
    ensures
        chain[t].price == chain[0].price,
        chain[t].calls == chain[0].calls,
    decreases t,
{
    if t > 0 {
        lemma_chain_terms(chain, counters, amounts, t - 1);
        assert(chain[t] == Channel { counter: counters[t - 1], ..chain[t - 1] });
    }
}

/// Over its lifetime a Channel pays out what its escrow lost, and so at most
/// `price * calls`, whatever the counters claimed.
pub proof fn lemma_claims_capped(chain: Seq<Channel>, counters: Seq<u32>, amounts: Seq<Balance>)
    requires
        redemption_chain(chain, counters, amounts),
        chain[0].price * chain[0].calls <= u128::MAX,
    ensures
        total(amounts) == remaining_of(chain[0]) - remaining_of(chain.last()),
        total(amounts) <= sat_mul(chain[0].price, chain[0].calls),
    decreases counters.len(),
{
    let n = counters.len();
    if n > 0 {
        lemma_chain_prefix(chain, counters, amounts);
        lemma_claims_capped(chain.drop_last(), counters.drop_last(), amounts.drop_last());
        let last = chain[n - 1];
        lemma_chain_terms(chain, counters, amounts, n - 1);
        assert(counters[n - 1] > last.counter);
        assert(chain.last() == Channel { counter: counters[n - 1], ..last });
        lemma_redeem_conserves(last, counters[n - 1]);
    }
    let p = chain[0].price as int;
    let m = chain[0].counter as int;
    let k = chain[0].calls as int;
    if m <= k {
        assert(p * (k - m) <= p * k) by (nonlinear_arith)
            requires 0 <= p, 0 <= m <= k;
    }
}

} // verus!
