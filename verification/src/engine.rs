//! The voucher lifecycle engine: creation with all-or-nothing validation,
//! hash-locked redemption with static or linear payout, and cancellation
//! with refund of whatever is left.  Value never moves here: a successful
//! operation returns a transfer intent for the external dispatcher.

use vstd::prelude::*;

use crate::errors::VoucherError;
use crate::hashlock::{commitment_of, spec_digest_shaped, verify};
use crate::store::{find_voucher, lemma_find_voucher_props, models_of, seq_vouchers_wf, VoucherStore};
use crate::vesting::{claimable_amount, lemma_claimable_bounds, spec_claimable};
use crate::voucher::{PaymentType, Voucher, VoucherModel, NANOS_PER_SEC};

verus! {

/// Ceiling on the total deposit attached to one creation call.
pub const MAX_DEPOSIT: u128 = 1_000_000_000_000_000_000_000_000_000;

/// A payment the engine instructs the external dispatcher to execute.
#[derive(Debug)]
pub struct TransferIntent {
    /// Who receives the funds.
    pub account_id: String,
    /// How much to transfer.
    pub amount: u128,
}

/// The mathematical content of a transfer intent.
#[verifier::ext_equal]
pub ghost struct TransferIntentModel {
    pub account_id: Seq<char>,
    pub amount: u128,
}

impl View for TransferIntent {
    type V = TransferIntentModel;

    open spec fn view(&self) -> TransferIntentModel {
        TransferIntentModel { account_id: self.account_id@, amount: self.amount }
    }
}

/// The views of a sequence of strings.
pub open spec fn seqs_of(v: Seq<String>) -> Seq<Seq<char>> {
    v.map_values(|s: String| s@)
}

/// A voucher as creation writes it: nothing paid, nobody has redeemed.
pub open spec fn new_voucher_model(
    id: Seq<char>,
    digest: Seq<char>,
    expire: Option<u64>,
    ptype: PaymentType,
    deposit: u128,
    now: u64,
) -> VoucherModel {
    VoucherModel {
        id: id,
        payment_type: ptype,
        deposit_amount: deposit,
        paid_amount: 0,
        create_date: now,
        expire_date: expire,
        hash: digest,
        used_by: Option::None,
    }
}

/// Whether one creation call's inputs pass validation: a positive total
/// within the ceiling, matching non-empty id and digest lists, 12-character
/// ids, 64-hex-digit digests, and an expiry that lies in the future and, for
/// linear vesting, is mandatory and at least one whole second away.
pub open spec fn create_inputs_valid(
    ids: Seq<Seq<char>>,
    digests: Seq<Seq<char>>,
    expire: Option<u64>,
    ptype: PaymentType,
    total: u128,
    now: u64,
) -> bool {
    &&& total > 0
    &&& total <= MAX_DEPOSIT
    &&& ids.len() == digests.len()
    &&& ids.len() >= 1
    &&& (forall|i: int| 0 <= i < ids.len() ==> (#[trigger] ids[i]).len() == 12)
    &&& (forall|i: int| 0 <= i < digests.len() ==> spec_digest_shaped(#[trigger] digests[i]))
    &&& (ptype == PaymentType::Linear ==> expire is Some)
    &&& (expire is Some ==> expire->Some_0 > now)
    &&& (ptype == PaymentType::Linear ==> (expire->Some_0 - now) / (NANOS_PER_SEC as int) >= 1)
}

/// No id of the batch collides with an existing voucher of the owner or with
/// another id of the batch.
pub open spec fn create_ids_fresh(ids: Seq<Seq<char>>, existing: Seq<VoucherModel>) -> bool {
    &&& (forall|i: int, j: int| 0 <= i < j < ids.len() ==> ids[i] != ids[j])
    &&& (forall|i: int| 0 <= i < ids.len() ==> find_voucher(existing, #[trigger] ids[i]) == -1)
}

/// The batch of vouchers a successful creation call appends, in input order:
/// the total deposit split evenly by floor division.
pub open spec fn created_vouchers(
    ids: Seq<Seq<char>>,
    digests: Seq<Seq<char>>,
    expire: Option<u64>,
    ptype: PaymentType,
    total: u128,
    now: u64,
) -> Seq<VoucherModel> {
    Seq::new(
        ids.len(),
        |i: int|
            new_voucher_model(
                ids[i],
                digests[i],
                expire,
                ptype,
                ((total as int) / (ids.len() as int)) as u128,
                now,
            ),
    )
}

/// Whether a voucher may be cancelled: never claimed, or fully claimed with
/// nothing left to protect.
pub open spec fn cancel_allowed(v: VoucherModel) -> bool {
    v.used_by is None || v.paid_amount == v.deposit_amount
}

/// The decision rule for one redemption attempt on a found voucher: the
/// digest of the presented secret must match the stored commitment, the
/// claimant must be first or the same as before, a static voucher must be
/// within its deadline and untouched, a linear voucher must have something
/// vested; the amount paid out is the full deposit for a static voucher and
/// the currently claimable amount for a linear one.
pub open spec fn redeem_outcome(
    v: VoucherModel,
    digest: Seq<char>,
    claimant: Seq<char>,
    now: u64,
) -> Result<u128, VoucherError> {
    if v.hash != digest {
        Result::Err(VoucherError::InvalidSecret)
    } else if !(v.used_by is None || v.used_by == Option::Some(claimant)) {
        Result::Err(VoucherError::NotAuthorized)
    } else if v.payment_type == PaymentType::Static {
        if v.expire_date is Some && v.expire_date->Some_0 < now {
            Result::Err(VoucherError::Expired)
        } else if v.paid_amount >= 1 {
            Result::Err(VoucherError::AlreadyUsed)
        } else {
            Result::Ok(v.deposit_amount)
        }
    } else {
        if spec_claimable(v, now) <= 0 {
            Result::Err(VoucherError::NothingToClaim)
        } else {
            Result::Ok(spec_claimable(v, now) as u128)
        }
    }
}

/// The voucher ledger: every owner's collection of hash-locked vouchers.
pub struct VoucherContract {
    vouchers: VoucherStore,
}

impl Default for VoucherContract {
    /// An empty ledger.
    fn default() -> (r: Self)
        ensures
            r.wf(),
            forall|o: Seq<char>| r.vouchers_of(o) == Seq::<VoucherModel>::empty(),
    {
        VoucherContract { vouchers: VoucherStore::new() }
    }
}

impl VoucherContract {
    /// The ledger invariant.
    pub closed spec fn wf(self) -> bool {
        self.vouchers.wf()
    }

    /// The model: each owner's sequence of voucher models, empty when the
    /// owner is absent.
    pub closed spec fn vouchers_of(self, owner: Seq<char>) -> Seq<VoucherModel> {
        self.vouchers.vouchers_of(owner)
    }

    /// In a well-formed ledger every owner's collection is well-formed:
    /// every voucher satisfies its invariants and ids are pairwise distinct.
    pub proof fn lemma_vouchers_of_wf(self, owner: Seq<char>)
        requires
            self.wf(),
        ensures
            seq_vouchers_wf(self.vouchers_of(owner)),
    {
        self.vouchers.lemma_vouchers_of_wf(owner);
    }

    /// All payment vouchers of one owner; empty when the owner has none.
    pub fn user_vouchers(&self, account_id: String) -> (r: Vec<Voucher>)
        ensures
            models_of(r@) == self.vouchers_of(account_id@),
    {
        self.vouchers.list_by_owner(&account_id)
    }

    /// The amount currently claimable from a voucher; for a static voucher
    /// simply whatever is still unpaid.
    pub fn linear_claim_amount(&self, voucher: &Voucher, now: u64) -> (r: u128)
        requires
            voucher@.wf(),
        ensures
            r == spec_claimable(voucher@, now),
    {
        claimable_amount(voucher, now)
    }

    /// Add a batch of payment vouchers for `owner_id`, one per (id, digest)
    /// pair, splitting `total_deposit` evenly.  All validation happens before
    /// the first write: a refused call leaves the ledger untouched.
    pub fn add_voucher(
        &mut self,
        hash_list: Vec<String>,
        id_list: Vec<String>,
        expire_date: Option<u64>,
        payment_type: PaymentType,
        owner_id: String,
        total_deposit: u128,
        now: u64,
    ) -> (r: Result<(), VoucherError>)
        requires
            old(self).wf(),
        ensures
            final(self).wf(),
            r is Err ==> *final(self) == *old(self),
            ({
                let ids = seqs_of(id_list@);
                let digests = seqs_of(hash_list@);
                let existing = old(self).vouchers_of(owner_id@);
                &&& (!create_inputs_valid(ids, digests, expire_date, payment_type, total_deposit, now)
                    ==> r == Result::<(), VoucherError>::Err(VoucherError::ValidationError))
                &&& (create_inputs_valid(ids, digests, expire_date, payment_type, total_deposit, now)
                    && !create_ids_fresh(ids, existing) ==> r == Result::<(), VoucherError>::Err(
                    VoucherError::Conflict,
                ))
                &&& (create_inputs_valid(ids, digests, expire_date, payment_type, total_deposit, now)
                    && create_ids_fresh(ids, existing) ==> r is Ok && final(self).vouchers_of(
                    owner_id@,
                ) == existing + created_vouchers(
                    ids,
                    digests,
                    expire_date,
                    payment_type,
                    total_deposit,
                    now,
                ) && (forall|o: Seq<char>|
                    o != owner_id@ ==> final(self).vouchers_of(o) == old(self).vouchers_of(o)))
            }),
            (exists|i: int|
                0 <= i < seqs_of(id_list@).len() && (#[trigger] seqs_of(id_list@)[i]).len() != 12)
                ==> r == Result::<(), VoucherError>::Err(VoucherError::ValidationError),
            (exists|i: int|
                0 <= i < seqs_of(hash_list@).len() && (#[trigger] seqs_of(hash_list@)[i]).len()
                    != 64) ==> r == Result::<(), VoucherError>::Err(VoucherError::ValidationError),
    {
        if !check_create_inputs(&hash_list, &id_list, expire_date, payment_type, total_deposit, now) {
            return Result::Err(VoucherError::ValidationError);
        }
        if !self.check_ids_fresh(&owner_id, &id_list) {
            return Result::Err(VoucherError::Conflict);
        }
        let ghost ids = seqs_of(id_list@);
        let ghost digests = seqs_of(hash_list@);
        let ghost existing = self.vouchers_of(owner_id@);
        let ghost created = created_vouchers(
            ids,
            digests,
            expire_date,
            payment_type,
            total_deposit,
            now,
        );
        let n = id_list.len();
        let per_deposit: u128 = total_deposit / (n as u128);
        proof {
            assert(existing + created.take(0) =~= existing);
        }
        let mut i: usize = 0;
        while i < n
            invariant
                0 <= i <= n,
                n == id_list@.len(),
                n == hash_list@.len(),
                n >= 1,
                self.wf(),
                ids == seqs_of(id_list@),
                digests == seqs_of(hash_list@),
                created == created_vouchers(
                    ids,
                    digests,
                    expire_date,
                    payment_type,
                    total_deposit,
                    now,
                ),
                per_deposit == ((total_deposit as int) / (n as int)) as u128,
                create_inputs_valid(ids, digests, expire_date, payment_type, total_deposit, now),
                create_ids_fresh(ids, existing),
                self.vouchers_of(owner_id@) == existing + created.take(i as int),
                forall|o: Seq<char>|
                    o != owner_id@ ==> self.vouchers_of(o) == old(self).vouchers_of(o),
            decreases n - i,
        {
            let voucher = Voucher {
                id: id_list[i].clone(),
                payment_type,
                deposit_amount: per_deposit,
                paid_amount: 0,
                create_date: now,
                expire_date,
                hash: hash_list[i].clone(),
                used_by: Option::None,
            };
            proof {
                assert(ids[i as int] == id_list@[i as int]@);
                assert(digests[i as int] == hash_list@[i as int]@);
                assert(voucher@ =~= created[i as int]);
                assert(voucher@.wf());
                let current = existing + created.take(i as int);
                lemma_find_voucher_props(current, voucher@.id);
                let f = find_voucher(current, voucher@.id);
                if f >= 0 {
                    if f < existing.len() {
                        lemma_find_voucher_props(existing, ids[i as int]);
                        assert(find_voucher(existing, ids[i as int]) == -1);
                        assert(existing[f].id != ids[i as int]);
                        assert(false);
                    } else {
                        assert(current[f] == created.take(i as int)[f - existing.len()]);
                        assert(created[f - existing.len()].id == ids[f - existing.len()]);
                        assert(ids[f - existing.len()] != ids[i as int]);
                        assert(false);
                    }
                }
            }
            match self.vouchers.insert(&owner_id, voucher) {
                Result::Ok(_) => {},
                Result::Err(_) => {
                    proof {
                        assert(false);
                    }
                    return Result::Err(VoucherError::Conflict);
                },
            }
            proof {
                assert(self.vouchers_of(owner_id@) =~= existing + created.take(i as int + 1));
            }
            i = i + 1;
        }
        proof {
            assert(created.take(n as int) =~= created);
        }
        Result::Ok(())
    }

    /// Cancel a voucher: allowed only when it was never claimed or is fully
    /// claimed.  Whatever is still unpaid is returned as a transfer intent to
    /// the owner, and the voucher is removed.
    pub fn remove_voucher(&mut self, id: String, owner_id: String) -> (r: Result<
        Option<TransferIntent>,
        VoucherError,
    >)
        requires
            old(self).wf(),
        ensures
            final(self).wf(),
            r is Err ==> *final(self) == *old(self),
            ({
                let s = old(self).vouchers_of(owner_id@);
                let k = find_voucher(s, id@);
                &&& (k == -1 ==> r is Err && r->Err_0 == VoucherError::NotFound)
                &&& (k >= 0 && !cancel_allowed(s[k]) ==> r is Err && r->Err_0
                    == VoucherError::VoucherLocked)
                &&& (k >= 0 && cancel_allowed(s[k]) ==> {
                    &&& r is Ok
                    &&& final(self).vouchers_of(owner_id@) == s.remove(k)
                    &&& (forall|o: Seq<char>|
                        o != owner_id@ ==> final(self).vouchers_of(o) == old(self).vouchers_of(o))
                    &&& (s[k].deposit_amount > s[k].paid_amount ==> r->Ok_0 is Some
                        && r->Ok_0->Some_0@.account_id == owner_id@ && r->Ok_0->Some_0@.amount
                        == s[k].deposit_amount - s[k].paid_amount)
                    &&& (s[k].deposit_amount == s[k].paid_amount ==> r->Ok_0 is None)
                })
            }),
    {
        let voucher = match self.vouchers.get(&owner_id, &id) {
            Option::Some(v) => v,
            Option::None => {
                return Result::Err(VoucherError::NotFound);
            },
        };
        proof {
            self.vouchers.lemma_vouchers_of_wf(owner_id@);
            lemma_find_voucher_props(self.vouchers_of(owner_id@), id@);
        }
        let allowed = match &voucher.used_by {
            Option::None => true,
            Option::Some(_) => voucher.deposit_amount == voucher.paid_amount,
        };
        if !allowed {
            return Result::Err(VoucherError::VoucherLocked);
        }
        let intent = if voucher.deposit_amount > voucher.paid_amount {
            Option::Some(
                TransferIntent {
                    account_id: owner_id.clone(),
                    amount: voucher.deposit_amount - voucher.paid_amount,
                },
            )
        } else {
            Option::None
        };
        match self.vouchers.remove(&owner_id, &id) {
            Result::Ok(_) => {},
            Result::Err(_) => {
                proof {
                    assert(false);
                }
                return Result::Err(VoucherError::NotFound);
            },
        }
        Result::Ok(intent)
    }

    /// Redeem a voucher: present the secret `key` for voucher `id` in
    /// `account_id`'s collection.  On success the claimable amount is paid
    /// out: the voucher's paid total grows by it, the claimant is recorded,
    /// and a transfer intent to the claimant is returned beside the amount.
    pub fn transfer(
        &mut self,
        key: String,
        id: String,
        account_id: String,
        claimant_id: String,
        now: u64,
    ) -> (r: Result<(u128, TransferIntent), VoucherError>)
        requires
            old(self).wf(),
        ensures
            final(self).wf(),
            r is Err ==> *final(self) == *old(self),
            ({
                let s = old(self).vouchers_of(account_id@);
                let k = find_voucher(s, id@);
                &&& (k == -1 ==> r is Err && r->Err_0 == VoucherError::NotFound)
                &&& (k >= 0 ==> (match redeem_outcome(s[k], commitment_of(key@), claimant_id@, now) {
                    Result::Err(e) => r is Err && r->Err_0 == e,
                    Result::Ok(amount) => {
                        &&& r is Ok
                        &&& r->Ok_0.0 == amount
                        &&& r->Ok_0.1@.account_id == claimant_id@
                        &&& r->Ok_0.1@.amount == amount
                        &&& final(self).vouchers_of(account_id@) == s.update(
                            k,
                            s[k].redeemed(amount, claimant_id@),
                        )
                        &&& (forall|o: Seq<char>|
                            o != account_id@ ==> final(self).vouchers_of(o) == old(
                                self,
                            ).vouchers_of(o))
                    },
                }))
            }),
    {
        let ghost s = self.vouchers_of(account_id@);
        let voucher = match self.vouchers.get(&account_id, &id) {
            Option::Some(v) => v,
            Option::None => {
                return Result::Err(VoucherError::NotFound);
            },
        };
        proof {
            self.vouchers.lemma_vouchers_of_wf(account_id@);
            lemma_find_voucher_props(s, id@);
        }
        if !verify(key.as_str(), &voucher.hash) {
            return Result::Err(VoucherError::InvalidSecret);
        }
        let authorized = match &voucher.used_by {
            Option::None => true,
            Option::Some(u) => u.eq(&claimant_id),
        };
        if !authorized {
            return Result::Err(VoucherError::NotAuthorized);
        }
        let amount: u128;
        match voucher.payment_type {
            PaymentType::Static => {
                match voucher.expire_date {
                    Option::Some(ts) => {
                        if ts < now {
                            return Result::Err(VoucherError::Expired);
                        }
                    },
                    Option::None => {},
                }
                if voucher.paid_amount >= 1 {
                    return Result::Err(VoucherError::AlreadyUsed);
                }
                amount = voucher.deposit_amount;
            },
            PaymentType::Linear => {
                proof {
                    lemma_claimable_bounds(voucher@, now);
                }
                let claimable = claimable_amount(&voucher, now);
                if claimable == 0 {
                    return Result::Err(VoucherError::NothingToClaim);
                }
                amount = claimable;
            },
        }
        let updated = Voucher {
            id: voucher.id,
            payment_type: voucher.payment_type,
            deposit_amount: voucher.deposit_amount,
            paid_amount: voucher.paid_amount + amount,
            create_date: voucher.create_date,
            expire_date: voucher.expire_date,
            hash: voucher.hash,
            used_by: Option::Some(claimant_id.clone()),
        };
        proof {
            let k = find_voucher(s, id@);
            assert(updated@ =~= s[k].redeemed(amount, claimant_id@));
            assert(updated@.wf());
        }
        match self.vouchers.replace(&account_id, &id, updated) {
            Result::Ok(_) => {},
            Result::Err(_) => {
                proof {
                    assert(false);
                }
                return Result::Err(VoucherError::NotFound);
            },
        }
        Result::Ok((amount, TransferIntent { account_id: claimant_id, amount }))
    }

    /// Information about one voucher: the record with the commitment blanked
    /// out, and the amount currently claimable from it.
    pub fn voucher_info(&self, id: String, account_id: String, now: u64) -> (r: Result<
        (Voucher, u128),
        VoucherError,
    >)
        requires
            self.wf(),
        ensures
            ({
                let s = self.vouchers_of(account_id@);
                let k = find_voucher(s, id@);
                &&& (k == -1 ==> r is Err && r->Err_0 == VoucherError::NotFound)
                &&& (k >= 0 ==> r is Ok && r->Ok_0.0@ == s[k].redacted() && r->Ok_0.1
                    == spec_claimable(s[k], now))
            }),
    {
        let voucher = match self.vouchers.get(&account_id, &id) {
            Option::Some(v) => v,
            Option::None => {
                return Result::Err(VoucherError::NotFound);
            },
        };
        proof {
            self.vouchers.lemma_vouchers_of_wf(account_id@);
            lemma_find_voucher_props(self.vouchers_of(account_id@), id@);
        }
        let claimable = claimable_amount(&voucher, now);
        let redacted = Voucher {
            id: voucher.id,
            payment_type: voucher.payment_type,
            deposit_amount: voucher.deposit_amount,
            paid_amount: voucher.paid_amount,
            create_date: voucher.create_date,
            expire_date: voucher.expire_date,
            hash: String::new(),
            used_by: voucher.used_by,
        };
        proof {
            let s = self.vouchers_of(account_id@);
            let k = find_voucher(s, id@);
            assert(redacted@ =~= s[k].redacted());
        }
        Result::Ok((redacted, claimable))
    }

    /// Whether a batch of ids can be created for this owner without a
    /// conflict.
    fn check_ids_fresh(&self, owner_id: &String, id_list: &Vec<String>) -> (r: bool)
        requires
            self.wf(),
        ensures
            r == create_ids_fresh(seqs_of(id_list@), self.vouchers_of(owner_id@)),
    {
        let n = id_list.len();
        let mut i: usize = 0;
        while i < n
            invariant
                0 <= i <= n,
                n == id_list@.len(),
                self.wf(),
                forall|a: int, b: int|
                    0 <= a < b < i ==> seqs_of(id_list@)[a] != seqs_of(id_list@)[b],
                forall|a: int|
                    0 <= a < i ==> find_voucher(
                        self.vouchers_of(owner_id@),
                        #[trigger] seqs_of(id_list@)[a],
                    ) == -1,
            decreases n - i,
        {
            match self.vouchers.get(owner_id, &id_list[i]) {
                Option::Some(_) => {
                    proof {
                        assert(find_voucher(
                            self.vouchers_of(owner_id@),
                            seqs_of(id_list@)[i as int],
                        ) >= 0);
                    }
                    return false;
                },
                Option::None => {},
            }
            let mut j: usize = 0;
            while j < i
                invariant
                    0 <= j <= i < n,
                    n == id_list@.len(),
                    forall|a: int| 0 <= a < j ==> seqs_of(id_list@)[a] != seqs_of(id_list@)[i as int],
                decreases i - j,
            {
                if id_list[j].eq(&id_list[i]) {
                    proof {
                        assert(seqs_of(id_list@)[j as int] == seqs_of(id_list@)[i as int]);
                    }
                    return false;
                }
                j = j + 1;
            }
            i = i + 1;
        }
        true
    }
}

/// Decide whether one creation call's inputs pass validation.
fn check_create_inputs(
    hash_list: &Vec<String>,
    id_list: &Vec<String>,
    expire_date: Option<u64>,
    payment_type: PaymentType,
    total_deposit: u128,
    now: u64,
) -> (r: bool)
    ensures
        r == create_inputs_valid(
            seqs_of(id_list@),
            seqs_of(hash_list@),
            expire_date,
            payment_type,
            total_deposit,
            now,
        ),
{
    if total_deposit == 0 {
        return false;
    }
    if total_deposit > MAX_DEPOSIT {
        return false;
    }
    if id_list.len() != hash_list.len() {
        return false;
    }
    if id_list.len() == 0 {
        return false;
    }
    match payment_type {
        PaymentType::Linear => {
            match expire_date {
                Option::None => {
                    return false;
                },
                Option::Some(e) => {
                    if e <= now {
                        return false;
                    }
                    if (e - now) / NANOS_PER_SEC < 1 {
                        return false;
                    }
                },
            }
        },
        PaymentType::Static => {
            match expire_date {
                Option::Some(e) => {
                    if e <= now {
                        return false;
                    }
                },
                Option::None => {},
            }
        },
    }
    let n = id_list.len();
    let mut i: usize = 0;
    while i < n
        invariant
            0 <= i <= n,
            n == id_list@.len(),
            n == hash_list@.len(),
            forall|j: int| 0 <= j < i ==> (#[trigger] seqs_of(id_list@)[j]).len() == 12,
            forall|j: int| 0 <= j < i ==> spec_digest_shaped(#[trigger] seqs_of(hash_list@)[j]),
        decreases n - i,
    {
        if id_list[i].as_str().unicode_len() != 12 {
            proof {
                assert(seqs_of(id_list@)[i as int].len() != 12);
            }
            return false;
        }
        if !crate::hashlock::digest_shaped(&hash_list[i]) {
            proof {
                assert(!spec_digest_shaped(seqs_of(hash_list@)[i as int]));
            }
            return false;
        }
        i = i + 1;
    }
    true
}

} // verus!
