//! The arithmetic of escrow and the claim decision.

use vstd::prelude::*;
use crate::types::{AccountId, Balance, BlockNumber, Channel, Error, Service};

verus! {

/// `price * n`, clamped at the largest balance.
pub open spec fn sat_mul(price: Balance, n: u32) -> Balance {
    if price * n <= u128::MAX {
        (price * n) as Balance
    } else {
        u128::MAX
    }
}

/// The funds still escrowed for `c`: `price * (calls - counter)`, or zero once
/// the counter has passed the calls.
pub open spec fn remaining_of(c: Channel) -> Balance {
    if c.counter <= c.calls {
        sat_mul(c.price, (c.calls - c.counter) as u32)
    } else {
        0
    }
}

pub open spec fn is_expired(c: Channel, now: BlockNumber) -> bool {
    c.expiration <= now
}

pub open spec fn version_changed(c: Channel, s: Service) -> bool {
    c.version != s.version
}

/// What a claim settles for `counter`: `price * (counter - stored)`, capped
/// at `price * calls`.
pub open spec fn claim_amount_of(c: Channel, counter: u32) -> Balance {
    let claim = sat_mul(c.price, (counter - c.counter) as u32);
    let cap = sat_mul(c.price, c.calls);
    if claim > cap {
        cap
    } else {
        claim
    }
}

pub open spec fn counter_or_zero(counter: Option<u32>) -> u32 {
    match counter {
        Some(k) => k,
        None => 0,
    }
}

/// `price * n` with saturation.
pub fn saturating_mul(price: Balance, n: u32) -> (r: Balance)
    ensures
        r == sat_mul(price, n),
{
    match price.checked_mul(n as u128) {
        Some(v) => v,
        None => u128::MAX,
    }
}

/// The funds still escrowed for `channel`.
pub fn remaining_funds(channel: &Channel) -> (r: Balance)
    ensures
        r == remaining_of(*channel),
{
    if channel.counter <= channel.calls {
        saturating_mul(channel.price, channel.calls - channel.counter)
    } else {
        0
    }
}

/// How a claim on a Channel proceeds before any signature is looked at.
#[derive(Clone, Copy, PartialEq, Eq, Structural, Debug)]
pub enum ClaimStep {
    /// No funds are left: the Channel is removed, nothing moves.
    Close,
    /// Its owner closes an expired or outdated Channel and gets `funds` back.
    Refund { funds: Balance },
    /// A claim of `counter` calls, to be checked against the payer's signature.
    Redeem { counter: u32 },
}

/// How a claim of `counter` by `caller` at height `now` proceeds on channel
/// `c` of service `s`: a Channel without funds is closed; its owner gets the
/// funds back once it has expired or the Service has changed version; the
/// owner may not close it early without a counter; any other claim must
/// raise the counter.
pub open spec fn claim_step_of(c: Channel, s: Service, caller: AccountId, now: BlockNumber, counter: Option<u32>) -> Result<ClaimStep, Error> {
    let rem = remaining_of(c);
    let k = counter_or_zero(counter);
    let by_owner = caller == c.owner;
    if rem == 0 {
        Ok(ClaimStep::Close)
    } else if by_owner && (is_expired(c, now) || version_changed(c, s)) {
        Ok(ClaimStep::Refund { funds: rem })
    } else if by_owner && k == 0 {
        Err(Error::ClaimNotExpired)
    } else if k <= c.counter {
        Err(Error::ClaimLowCounter)
    } else {
        Ok(ClaimStep::Redeem { counter: k })
    }
}

/// Steps 2 to 6a of a claim on `channel` of `service` by `caller` at height
/// `now`: close, refund, or go on to redeem `counter` calls.
pub fn decide_claim(channel: &Channel, service: &Service, caller: &AccountId, now: BlockNumber, counter: Option<u32>) -> (r: Result<ClaimStep, Error>)
    ensures
        r == claim_step_of(*channel, *service, *caller, now, counter),
{
    let rem = remaining_funds(channel);
    let k: u32 = match counter {
        Some(k) => k,
        None => 0,
    };
    if rem == 0 {
        return Ok(ClaimStep::Close);
    }
    if crate::types::same_id(caller, &channel.owner) {
        if channel.expiration <= now || channel.version != service.version {
            return Ok(ClaimStep::Refund { funds: rem });
        } else if k == 0 {
            return Err(Error::ClaimNotExpired);
        }
    }
    if k <= channel.counter {
        return Err(Error::ClaimLowCounter);
    }
    Ok(ClaimStep::Redeem { counter: k })
}

/// Steps 6e and 6f of a claim: the amount that redeeming `counter` calls
/// moves to the Service owner, if the escrow holds it.
pub fn claim_funds(channel: &Channel, counter: u32) -> (r: Result<Balance, Error>)
    requires
        counter > channel.counter,
    ensures
        claim_amount_of(*channel, counter) <= remaining_of(*channel) ==> r == Ok::<Balance, Error>(claim_amount_of(*channel, counter)),
        claim_amount_of(*channel, counter) > remaining_of(*channel) ==> r == Err::<Balance, Error>(Error::ClaimNotEnoughFunds),
{
    let remaining = remaining_funds(channel);
    let mut claim = saturating_mul(channel.price, counter - channel.counter);
    let max_claim = saturating_mul(channel.price, channel.calls);
    if claim > max_claim {
        claim = max_claim;
    }
    if claim <= remaining {
        Ok(claim)
    } else {
        Err(Error::ClaimNotEnoughFunds)
    }
}

} // verus!
