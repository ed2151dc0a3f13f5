//! The fee engine: rates in basis points, bounded by `MAX_FEE_RATE`.

use vstd::prelude::*;
use crate::error::Error;
use crate::pause::{apply_change, updated};
use crate::types::{Address, BASIS_POINTS, MAX_FEE_RATE};

verus! {

/// Whether `rate` may be configured.
pub open spec fn rate_in_bounds(rate: i128) -> bool {
    0 <= rate <= MAX_FEE_RATE
}

/// The fee on `amount` at `rate` basis points: the product of the two over
/// `BASIS_POINTS`, rounded towards zero, and 0 where that would be negative.
/// A rate of 0 gives a fee of 0.
pub open spec fn fee_of(amount: int, rate: int) -> int {
    if amount * rate <= 0 {
        0
    } else {
        (amount * rate) / (BASIS_POINTS as int)
    }
}

/// Whether the product of `amount` and `rate` leaves the 128-bit range, so
/// that the fee cannot be computed.
pub open spec fn fee_overflow(amount: int, rate: int) -> bool {
    amount * rate > i128::MAX || amount * rate < i128::MIN
}

/// The fee on `amount` at `fee_rate`, by checked arithmetic: `Overflow`
/// exactly where the product of the two leaves the 128-bit range, and
/// `fee_of` everywhere else.
pub fn calculate_fee(amount: i128, fee_rate: i128) -> (r: Result<i128, Error>)
    ensures
        fee_overflow(amount as int, fee_rate as int) ==> r == Err::<i128, Error>(Error::Overflow),
        !fee_overflow(amount as int, fee_rate as int) ==> r == Ok::<i128, Error>(
            fee_of(amount as int, fee_rate as int) as i128,
        ) && 0 <= fee_of(amount as int, fee_rate as int) <= i128::MAX,
{
    match amount.checked_mul(fee_rate) {
        Some(product) => {
            if product <= 0 {
                Ok(0)
            } else {
                Ok(product / BASIS_POINTS)
            }
        },
        None => Err(Error::Overflow),
    }
}

/// With a positive amount and a rate within bounds the fee is at most half
/// of the amount, so what is left for the recipient is never negative.
pub proof fn lemma_fee_at_most_half(amount: int, rate: int)
    requires
        amount >= 0,
        0 <= rate <= MAX_FEE_RATE,
    ensures
        0 <= fee_of(amount, rate) <= amount,
        2 * fee_of(amount, rate) <= amount,
{
    assert(amount * rate >= 0) by (nonlinear_arith)
        requires
            amount >= 0,
            rate >= 0,
    ;
    assert(amount * rate <= amount * 5000) by (nonlinear_arith)
        requires
            amount >= 0,
            rate <= 5000,
    ;
}

/// The fee settings of one engine.
#[derive(Clone, Copy, Debug, PartialEq, Eq, Structural)]
pub struct FeeConfig {
    pub lock_fee_rate: i128,
    pub release_fee_rate: i128,
    pub payout_fee_rate: i128,
    pub fee_recipient: Address,
    pub fee_enabled: bool,
}

/// The fields of a fee configuration that an update may name.
#[derive(Clone, Copy, Debug, PartialEq, Eq, Structural)]
pub struct FeeUpdate {
    pub lock_fee_rate: Option<i128>,
    pub release_fee_rate: Option<i128>,
    pub payout_fee_rate: Option<i128>,
    pub fee_recipient: Option<Address>,
    pub fee_enabled: Option<bool>,
}

/// Whether an optional rate is absent or within bounds.
pub open spec fn rate_acceptable(rate: Option<i128>) -> bool {
    match rate {
        Some(r) => rate_in_bounds(r),
        None => true,
    }
}

fn rate_ok(rate: Option<i128>) -> (b: bool)
    ensures
        b == rate_acceptable(rate),
{
    match rate {
        Some(r) => 0 <= r && r <= MAX_FEE_RATE,
        None => true,
    }
}

impl FeeUpdate {
    /// Whether every rate that the update names is within bounds.
    pub open spec fn acceptable(self) -> bool {
        &&& rate_acceptable(self.lock_fee_rate)
        &&& rate_acceptable(self.release_fee_rate)
        &&& rate_acceptable(self.payout_fee_rate)
    }
}

impl FeeConfig {
    /// All rates are within bounds.
    pub open spec fn wf(self) -> bool {
        &&& rate_in_bounds(self.lock_fee_rate)
        &&& rate_in_bounds(self.release_fee_rate)
        &&& rate_in_bounds(self.payout_fee_rate)
    }

    /// Fees switched off, all rates 0, `recipient` as the fee recipient.
    pub fn disabled(recipient: Address) -> (c: FeeConfig)
        ensures
            c == (FeeConfig {
                lock_fee_rate: 0,
                release_fee_rate: 0,
                payout_fee_rate: 0,
                fee_recipient: recipient,
                fee_enabled: false,
            }),
            c.wf(),
    {
        FeeConfig {
            lock_fee_rate: 0,
            release_fee_rate: 0,
            payout_fee_rate: 0,
            fee_recipient: recipient,
            fee_enabled: false,
        }
    }

    /// The configuration after `change`, field by field.
    pub open spec fn with(self, change: FeeUpdate) -> FeeConfig {
        FeeConfig {
            lock_fee_rate: updated(self.lock_fee_rate, change.lock_fee_rate),
            release_fee_rate: updated(self.release_fee_rate, change.release_fee_rate),
            payout_fee_rate: updated(self.payout_fee_rate, change.payout_fee_rate),
            fee_recipient: updated(self.fee_recipient, change.fee_recipient),
            fee_enabled: updated(self.fee_enabled, change.fee_enabled),
        }
    }

    /// Applies `change` if every rate it names lies in `0 ..= MAX_FEE_RATE`;
    /// otherwise fails with `InvalidFeeRate` and changes nothing.
    pub fn update(&mut self, change: FeeUpdate) -> (r: Result<(), Error>)
        ensures
            old(self).wf() ==> final(self).wf(),
            change.acceptable() ==> r is Ok && *final(self) == old(self).with(change),
            !change.acceptable() ==> r == Err::<(), Error>(Error::InvalidFeeRate) && *final(self)
                == *old(self),
    {
        if !rate_ok(change.lock_fee_rate) || !rate_ok(change.release_fee_rate) || !rate_ok(
            change.payout_fee_rate,
        ) {
            return Err(Error::InvalidFeeRate);
        }
        self.lock_fee_rate = apply_change(self.lock_fee_rate, change.lock_fee_rate);
        self.release_fee_rate = apply_change(self.release_fee_rate, change.release_fee_rate);
        self.payout_fee_rate = apply_change(self.payout_fee_rate, change.payout_fee_rate);
        self.fee_recipient = apply_change(self.fee_recipient, change.fee_recipient);
        self.fee_enabled = apply_change(self.fee_enabled, change.fee_enabled);
        Ok(())
    }
}

/// Fee bounds: an update whose rates are all within bounds takes effect and
/// leaves every rate within bounds; any other update is refused, and
/// `FeeConfig::update` then leaves the configuration as it was.
pub proof fn lemma_fee_update_keeps_bounds(config: FeeConfig, change: FeeUpdate)
    requires
        config.wf(),
    ensures
        change.acceptable() ==> config.with(change).wf(),
        change.acceptable() ==> rate_in_bounds(config.with(change).lock_fee_rate) && rate_in_bounds(
            config.with(change).release_fee_rate,
        ) && rate_in_bounds(config.with(change).payout_fee_rate),
        !change.acceptable() ==> exists|rate: i128|
            (change.lock_fee_rate == Some(rate) || change.release_fee_rate == Some(rate)
                || change.payout_fee_rate == Some(rate)) && !(0 <= rate <= MAX_FEE_RATE),
{
    if !change.acceptable() {
        if !rate_acceptable(change.lock_fee_rate) {
            let rate = change.lock_fee_rate->0;
            assert(change.lock_fee_rate == Some(rate) && !(0 <= rate <= MAX_FEE_RATE));
        } else if !rate_acceptable(change.release_fee_rate) {
            let rate = change.release_fee_rate->0;
            assert(change.release_fee_rate == Some(rate) && !(0 <= rate <= MAX_FEE_RATE));
        } else {
            let rate = change.payout_fee_rate->0;
            assert(change.payout_fee_rate == Some(rate) && !(0 <= rate <= MAX_FEE_RATE));
        }
    }
}

} // verus!
