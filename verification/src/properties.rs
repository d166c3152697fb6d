//! The funds-accounting laws of the ledger, proved from the contracts of the
//! lifecycle engine.

use vstd::prelude::*;

use crate::engine::{cancel_allowed, redeem_outcome, VoucherContract};
use crate::errors::VoucherError;
use crate::store::{find_voucher, lemma_find_voucher_props};
use crate::vesting::lemma_claimable_bounds;
use crate::voucher::{PaymentType, VoucherModel};

verus! {

/// At any observable time every voucher's paid amount lies between zero and
/// its deposit.
pub proof fn lemma_paid_within_deposit(c: VoucherContract, owner: Seq<char>, i: int)
    requires
        c.wf(),
        0 <= i < c.vouchers_of(owner).len(),
    ensures
        c.vouchers_of(owner)[i].paid_amount <= c.vouchers_of(owner)[i].deposit_amount,
{
    c.lemma_vouchers_of_wf(owner);
}

/// A static voucher pays out at most once: after a successful redemption
/// every further attempt on the updated voucher fails, and with the matching
/// secret, the same claimant and an unexpired deadline it fails with
/// `AlreadyUsed`.
pub proof fn lemma_static_single_shot(
    v: VoucherModel,
    digest: Seq<char>,
    claimant: Seq<char>,
    now: u64,
    digest2: Seq<char>,
    claimant2: Seq<char>,
    now2: u64,
)
    requires
        v.wf(),
        v.payment_type == PaymentType::Static,
        v.deposit_amount >= 1,
        redeem_outcome(v, digest, claimant, now) is Ok,
    ensures
        ({
            let v2 = v.redeemed(redeem_outcome(v, digest, claimant, now)->Ok_0, claimant);
            &&& redeem_outcome(v2, digest2, claimant2, now2) is Err
            &&& (digest2 == v2.hash && claimant2 == claimant && (v2.expire_date is Some ==> now2
                <= v2.expire_date->Some_0) ==> redeem_outcome(v2, digest2, claimant2, now2)
                == Result::<u128, VoucherError>::Err(VoucherError::AlreadyUsed))
        }),
{
}

/// One successful redemption: the voucher stays well-formed, its deposit and
/// payment type are unchanged, and the paid total grows by the amount, which
/// never exceeds what was still unpaid.
pub proof fn lemma_redeem_ok_step(
    v: VoucherModel,
    digest: Seq<char>,
    claimant: Seq<char>,
    now: u64,
)
    requires
        v.wf(),
        redeem_outcome(v, digest, claimant, now) is Ok,
    ensures
        ({
            let amount = redeem_outcome(v, digest, claimant, now)->Ok_0;
            let v2 = v.redeemed(amount, claimant);
            &&& v2.wf()
            &&& v2.deposit_amount == v.deposit_amount
            &&& v2.payment_type == v.payment_type
            &&& v2.paid_amount == v.paid_amount + amount
            &&& amount <= v.deposit_amount - v.paid_amount
        }),
{
    if v.payment_type == PaymentType::Linear {
        lemma_claimable_bounds(v, now);
    }
}

/// The total of a sequence of claim amounts.
pub open spec fn sum_amounts(amounts: Seq<u128>) -> int
    decreases amounts.len(),
{
    if amounts.len() == 0 {
        0
    } else {
        amounts[0] + sum_amounts(amounts.drop_first())
    }
}

/// Over any chain of successful redemptions of one voucher, the amounts paid
/// out sum to at most what was still unpaid at the start.
#[verifier::rlimit(100)]
proof fn lemma_claim_chain(
    states: Seq<VoucherModel>,
    amounts: Seq<u128>,
    digests: Seq<Seq<char>>,
    claimants: Seq<Seq<char>>,
    times: Seq<u64>,
)
    requires
        states.len() == amounts.len() + 1,
        digests.len() == amounts.len(),
        claimants.len() == amounts.len(),
        times.len() == amounts.len(),
        states[0].wf(),
        forall|i: int|
            0 <= i < amounts.len() ==> redeem_outcome(
                #[trigger] states[i],
                digests[i],
                claimants[i],
                times[i],
            ) == Result::<u128, VoucherError>::Ok(amounts[i]) && states[i + 1] == states[
                i
            ].redeemed(amounts[i], claimants[i]),
    ensures
        sum_amounts(amounts) <= states[0].deposit_amount - states[0].paid_amount,
    decreases amounts.len(),
{
    if amounts.len() > 0 {
        lemma_redeem_ok_step(states[0], digests[0], claimants[0], times[0]);
        let states2 = states.drop_first();
        let amounts2 = amounts.drop_first();
        let digests2 = digests.drop_first();
        let claimants2 = claimants.drop_first();
        let times2 = times.drop_first();
        assert(states2[0] == states[1]);
        assert forall|i: int| 0 <= i < amounts2.len() implies redeem_outcome(
            #[trigger] states2[i],
            digests2[i],
            claimants2[i],
            times2[i],
        ) == Result::<u128, VoucherError>::Ok(amounts2[i]) && states2[i + 1] == states2[
            i
        ].redeemed(amounts2[i], claimants2[i]) by {
            assert(states2[i] == states[i + 1]);
            assert(states2[i + 1] == states[i + 2]);
            assert(digests2[i] == digests[i + 1]);
            assert(claimants2[i] == claimants[i + 1]);
            assert(times2[i] == times[i + 1]);
        }
        lemma_claim_chain(states2, amounts2, digests2, claimants2, times2);
    }
}

/// The sum of all successful claims on one voucher never exceeds its
/// deposit: starting from a voucher with nothing paid, any chain of
/// redemptions that the decision rule accepts pays out at most the deposit
/// in total.
pub proof fn lemma_claims_never_exceed_deposit(
    states: Seq<VoucherModel>,
    amounts: Seq<u128>,
    digests: Seq<Seq<char>>,
    claimants: Seq<Seq<char>>,
    times: Seq<u64>,
)
    requires
        states.len() == amounts.len() + 1,
        digests.len() == amounts.len(),
        claimants.len() == amounts.len(),
        times.len() == amounts.len(),
        states[0].wf(),
        states[0].paid_amount == 0,
        forall|i: int|
            0 <= i < amounts.len() ==> redeem_outcome(
                #[trigger] states[i],
                digests[i],
                claimants[i],
                times[i],
            ) == Result::<u128, VoucherError>::Ok(amounts[i]) && states[i + 1] == states[
                i
            ].redeemed(amounts[i], claimants[i]),
    ensures
        sum_amounts(amounts) <= states[0].deposit_amount,
{
    lemma_claim_chain(states, amounts, digests, claimants, times);
}

/// Cancelling a partially claimed voucher is always refused: a positive paid
/// amount records a claimant, and it is still below the deposit, so the
/// voucher is locked and `remove_voucher` answers `VoucherLocked`.
pub proof fn lemma_partial_claim_locks(c: VoucherContract, owner: Seq<char>, id: Seq<char>)
    requires
        c.wf(),
        find_voucher(c.vouchers_of(owner), id) >= 0,
        0 < c.vouchers_of(owner)[find_voucher(c.vouchers_of(owner), id)].paid_amount,
        c.vouchers_of(owner)[find_voucher(c.vouchers_of(owner), id)].paid_amount < c.vouchers_of(
            owner,
        )[find_voucher(c.vouchers_of(owner), id)].deposit_amount,
    ensures
        !cancel_allowed(c.vouchers_of(owner)[find_voucher(c.vouchers_of(owner), id)]),
{
    c.lemma_vouchers_of_wf(owner);
    lemma_find_voucher_props(c.vouchers_of(owner), id);
}

} // verus!

