//! The voucher record and its data-model invariants.

use vstd::prelude::*;

use crate::hashlock::spec_digest_shaped;

verus! {

/// Nanoseconds in one second: timestamps have nanosecond resolution, vesting
/// is computed in whole seconds.
pub const NANOS_PER_SEC: u64 = 1_000_000_000;

/// How a voucher pays out: all at once (single-shot), or linearly over a
/// vesting window.
#[derive(Clone, Copy, Debug, PartialEq, Eq, Structural)]
pub enum PaymentType {
    Static,
    Linear,
}

/// The mathematical content of a voucher: its string fields as character
/// sequences.
#[verifier::ext_equal]
pub ghost struct VoucherModel {
    pub id: Seq<char>,
    pub payment_type: PaymentType,
    pub deposit_amount: u128,
    pub paid_amount: u128,
    pub create_date: u64,
    pub expire_date: Option<u64>,
    pub hash: Seq<char>,
    pub used_by: Option<Seq<char>>,
}

/// An escrowed, hash-locked, optionally time-vested value claim.
#[derive(Debug)]
pub struct Voucher {
    /// Opaque public identifier, exactly 12 characters, unique within its
    /// owner's collection.
    pub id: String,
    /// Whether redemption is single-shot or linearly vested.
    pub payment_type: PaymentType,
    /// Total escrowed value, fixed at creation.
    pub deposit_amount: u128,
    /// Cumulative amount withdrawn so far.
    pub paid_amount: u128,
    /// Creation time, nanoseconds.
    pub create_date: u64,
    /// For linear vouchers the vesting end (mandatory); for static vouchers
    /// an optional redemption deadline.
    pub expire_date: Option<u64>,
    /// 64-character lowercase hex SHA-256 digest of the secret.
    pub hash: String,
    /// The claimant that first redeemed the voucher, once one has.
    pub used_by: Option<String>,
}

impl View for Voucher {
    type V = VoucherModel;

    open spec fn view(&self) -> VoucherModel {
        VoucherModel {
            id: self.id@,
            payment_type: self.payment_type,
            deposit_amount: self.deposit_amount,
            paid_amount: self.paid_amount,
            create_date: self.create_date,
            expire_date: self.expire_date,
            hash: self.hash@,
            used_by: match self.used_by {
                Option::Some(ref u) => Option::Some(u@),
                Option::None => Option::None,
            },
        }
    }
}

impl VoucherModel {
    /// Vesting length in whole seconds; meaningful when an expiry is set.
    pub open spec fn duration_secs(self) -> int {
        (self.expire_date->Some_0 - self.create_date) / (NANOS_PER_SEC as int)
    }

    /// The data-model invariants: creation establishes them and every
    /// mutation preserves them.
    pub open spec fn wf(self) -> bool {
        &&& self.paid_amount <= self.deposit_amount
        &&& self.id.len() == 12
        &&& spec_digest_shaped(self.hash)
        &&& (self.expire_date is Some ==> self.expire_date->Some_0 > self.create_date)
        &&& (self.payment_type == PaymentType::Linear ==> self.expire_date is Some
            && self.duration_secs() >= 1)
        &&& (self.paid_amount > 0 ==> self.used_by is Some)
    }

    /// The voucher after a successful redemption of `amount` by `claimant`.
    pub open spec fn redeemed(self, amount: u128, claimant: Seq<char>) -> VoucherModel {
        VoucherModel {
            paid_amount: (self.paid_amount + amount) as u128,
            used_by: Option::Some(claimant),
            ..self
        }
    }

    /// The voucher as queries report it: the commitment blanked out.
    pub open spec fn redacted(self) -> VoucherModel {
        VoucherModel { hash: Seq::empty(), ..self }
    }
}

impl Voucher {
    /// A field-for-field copy.
    pub fn duplicate(&self) -> (r: Voucher)
        ensures
            r@ == self@,
    {
        Voucher {
            id: self.id.clone(),
            payment_type: self.payment_type,
            deposit_amount: self.deposit_amount,
            paid_amount: self.paid_amount,
            create_date: self.create_date,
            expire_date: self.expire_date,
            hash: self.hash.clone(),
            used_by: match &self.used_by {
                Option::Some(u) => Option::Some(u.clone()),
                Option::None => Option::None,
            },
        }
    }
}

} // verus!
