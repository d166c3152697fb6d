//! A deposit-escrow voucher ledger.
//!
//! An issuer locks funds under a voucher identified by a public id and
//! redeemable only by presenting a secret whose SHA-256 digest matches a
//! stored hex commitment.  A voucher either pays out all at once (static)
//! or drips linearly over a vesting window (linear).  The library holds the
//! whole lifecycle state machine — creation validation, hash-lock
//! verification, claim authorization, vesting math, cancellation and refund
//! accounting — and proves its funds-accounting rules.  Caller identity,
//! attached deposits, timestamps, persistent storage and the execution of
//! the emitted transfer intents are the host's business and enter only as
//! plain arguments and results.

mod engine;
mod errors;
mod hashlock;
mod properties;
mod store;
mod vesting;
mod voucher;

pub use engine::{
    cancel_allowed, create_ids_fresh, create_inputs_valid, created_vouchers, new_voucher_model,
    redeem_outcome, seqs_of, TransferIntent, TransferIntentModel, VoucherContract, MAX_DEPOSIT,
};
pub use errors::VoucherError;
pub use properties::{
    lemma_claims_never_exceed_deposit, lemma_paid_within_deposit, lemma_partial_claim_locks,
    lemma_redeem_ok_step, lemma_static_single_shot, sum_amounts,
};
pub use hashlock::{
    commit, commitment_of, digest_shaped, hex_digit, hex_encoding, is_hex_digit, sha256_of,
    spec_digest_shaped, verify,
};
pub use store::{
    find_voucher, lemma_find_voucher_props, models_of, seq_vouchers_wf, StorageKeys, VoucherStore,
};
pub use vesting::{
    claimable_amount, effective_elapsed_secs, elapsed_secs, lemma_claimable_bounds,
    lemma_unlocked_le_deposit, rate_per_sec, spec_claimable, unlocked_amount,
};
pub use voucher::{PaymentType, Voucher, VoucherModel, NANOS_PER_SEC};
