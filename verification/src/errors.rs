use vstd::prelude::*;

verus! {

/// Why a voucher operation was refused.  Every error is terminal for the
/// call and leaves the store exactly as it was: all validation happens
/// before the first mutation.
#[derive(Clone, Copy, Debug, PartialEq, Eq, Structural)]
pub enum VoucherError {
    /// Malformed creation input: id, digest, deposit or expiry.
    ValidationError,
    /// The owner has no voucher with the requested id.
    NotFound,
    /// A voucher with the same id already exists for this owner.
    Conflict,
    /// The voucher is partially claimed and cannot be cancelled.
    VoucherLocked,
    /// The presented secret does not hash to the stored commitment.
    InvalidSecret,
    /// The voucher was first redeemed by a different claimant.
    NotAuthorized,
    /// A static voucher was redeemed after its deadline.
    Expired,
    /// A static voucher was already paid out.
    AlreadyUsed,
    /// A linear voucher has nothing vested beyond what was already paid.
    NothingToClaim,
}

} // verus!
