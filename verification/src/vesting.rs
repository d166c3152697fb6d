//! The vesting calculator: how much of a voucher's deposit is currently
//! claimable.

use vstd::prelude::*;

use vstd::arithmetic::div_mod::{lemma_fundamental_div_mod, lemma_mod_bound};
use vstd::arithmetic::mul::lemma_mul_inequality;

use crate::voucher::{PaymentType, Voucher, VoucherModel, NANOS_PER_SEC};

verus! {

/// Whole seconds elapsed since the voucher was created, never negative.
pub open spec fn elapsed_secs(v: VoucherModel, now: u64) -> int {
    if now <= v.create_date {
        0
    } else {
        (now - v.create_date) / (NANOS_PER_SEC as int)
    }
}

/// Elapsed seconds clamped to the vesting window, so the unlocked amount
/// caps at the deposit.
pub open spec fn effective_elapsed_secs(v: VoucherModel, now: u64) -> int {
    if elapsed_secs(v, now) > v.duration_secs() {
        v.duration_secs()
    } else {
        elapsed_secs(v, now)
    }
}

/// Units unlocked per whole second of the vesting window; floor division, so
/// a residue below one unit per second stays permanently unclaimable dust.
pub open spec fn rate_per_sec(v: VoucherModel) -> int {
    (v.deposit_amount as int) / v.duration_secs()
}

/// How much of a linear voucher's deposit has vested by `now`.
pub open spec fn unlocked_amount(v: VoucherModel, now: u64) -> int {
    effective_elapsed_secs(v, now) * rate_per_sec(v)
}

/// The amount currently claimable: for a static voucher everything still
/// unpaid; for a linear voucher the vested amount minus what was already
/// paid, never negative.
pub open spec fn spec_claimable(v: VoucherModel, now: u64) -> int {
    if v.payment_type == PaymentType::Static {
        v.deposit_amount - v.paid_amount
    } else {
        if unlocked_amount(v, now) >= v.paid_amount {
            unlocked_amount(v, now) - v.paid_amount
        } else {
            0
        }
    }
}

/// The claimable amount always lies between zero and what is still unpaid.
pub proof fn lemma_claimable_bounds(v: VoucherModel, now: u64)
    requires
        v.wf(),
    ensures
        0 <= spec_claimable(v, now) <= v.deposit_amount - v.paid_amount,
{
    if v.payment_type == PaymentType::Linear {
        lemma_unlocked_le_deposit(v, now);
    }
}

/// A linear voucher never unlocks more than its deposit: the clamped elapsed
/// time is at most the window, and window * floor(deposit / window) is at
/// most the deposit.
pub proof fn lemma_unlocked_le_deposit(v: VoucherModel, now: u64)
    requires
        v.wf(),
        v.payment_type == PaymentType::Linear,
    ensures
        0 <= unlocked_amount(v, now) <= v.deposit_amount,
{
    let dur = v.duration_secs();
    let rate = rate_per_sec(v);
    let elapsed = effective_elapsed_secs(v, now);
    assert(0 <= elapsed <= dur);
    assert(rate >= 0);
    lemma_mul_inequality(elapsed, dur, rate);
    lemma_fundamental_div_mod(v.deposit_amount as int, dur);
    lemma_mod_bound(v.deposit_amount as int, dur);
    assert(dur * rate == rate * dur) by (nonlinear_arith);
    assert(elapsed * rate >= 0) by (nonlinear_arith)
        requires
            elapsed >= 0,
            rate >= 0,
    ;
}

/// Compute the currently claimable amount for a voucher at time `now`.
pub fn claimable_amount(voucher: &Voucher, now: u64) -> (r: u128)
    requires
        voucher@.wf(),
    ensures
        r == spec_claimable(voucher@, now),
{
    match voucher.payment_type {
        PaymentType::Static => voucher.deposit_amount - voucher.paid_amount,
        PaymentType::Linear => {
            let expire = match voucher.expire_date {
                Option::Some(e) => e,
                Option::None => {
                    proof {
                        assert(false);
                    }
                    0
                },
            };
            let duration: u64 = (expire - voucher.create_date) / NANOS_PER_SEC;
            let rate: u128 = voucher.deposit_amount / (duration as u128);
            let elapsed_raw: u64 = if now <= voucher.create_date {
                0
            } else {
                (now - voucher.create_date) / NANOS_PER_SEC
            };
            let elapsed: u64 = if elapsed_raw > duration {
                duration
            } else {
                elapsed_raw
            };
            proof {
                lemma_unlocked_le_deposit(voucher@, now);
            }
            let unlocked: u128 = (elapsed as u128) * rate;
            if unlocked > voucher.paid_amount {
                unlocked - voucher.paid_amount
            } else {
                0
            }
        },
    }
}

} // verus!
