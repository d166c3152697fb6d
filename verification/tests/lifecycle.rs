use voucher_ledger::commit;
use voucher_ledger::verify;
use voucher_ledger::PaymentType;
use voucher_ledger::VoucherContract;
use voucher_ledger::VoucherError;
use voucher_ledger::MAX_DEPOSIT;
use voucher_ledger::NANOS_PER_SEC;

const OWNER: &str = "alice_near";
const CLAIMANT: &str = "carol_near";

fn secret() -> String {
    "x".repeat(64)
}

fn create(
    contract: &mut VoucherContract,
    ids: &[&str],
    payment_type: PaymentType,
    expire: Option<u64>,
    total: u128,
    now: u64,
) -> Result<(), VoucherError> {
    let digests: Vec<String> = ids.iter().map(|_| commit(&secret())).collect();
    let id_list: Vec<String> = ids.iter().map(|s| s.to_string()).collect();
    contract.add_voucher(
        digests,
        id_list,
        expire,
        payment_type,
        OWNER.to_string(),
        total,
        now,
    )
}

fn redeem(
    contract: &mut VoucherContract,
    id: &str,
    claimant: &str,
    now: u64,
) -> Result<(u128, voucher_ledger::TransferIntent), VoucherError> {
    contract.transfer(
        secret(),
        id.to_string(),
        OWNER.to_string(),
        claimant.to_string(),
        now,
    )
}

#[test]
fn commitment_known_values() {
    assert_eq!(
        commit(""),
        "e3b0c44298fc1c149afbf4c8996fb92427ae41e4649b934ca495991b7852b855"
    );
    assert_eq!(
        commit("abc"),
        "ba7816bf8f01cfea414140de5dae2223b00361a396177a9cb410ff61f20015ad"
    );
}

#[test]
fn commitment_shape_and_verification() {
    let s = secret();
    let digest = commit(&s);
    assert_eq!(digest.len(), 64);
    assert_ne!(digest, s);
    assert!(digest
        .chars()
        .all(|c| c.is_ascii_digit() || ('a'..='f').contains(&c)));
    assert!(verify(&s, &digest));
    assert!(!verify(&"y".repeat(64), &digest));
    assert!(!verify("", &digest));
}

#[test]
fn static_redeem_pays_full_deposit() {
    let mut contract = VoucherContract::default();
    create(
        &mut contract,
        &["aaaaaaaaa001"],
        PaymentType::Static,
        None,
        10,
        0,
    )
    .unwrap();

    let (amount, intent) = redeem(&mut contract, "aaaaaaaaa001", CLAIMANT, 5).unwrap();
    assert_eq!(amount, 10);
    assert_eq!(intent.account_id, CLAIMANT.to_string());
    assert_eq!(intent.amount, 10);

    let vouchers = contract.user_vouchers(OWNER.to_string());
    assert_eq!(vouchers.len(), 1);
    assert_eq!(vouchers[0].paid_amount, 10);
    assert_eq!(vouchers[0].used_by, Some(CLAIMANT.to_string()));
}

#[test]
fn static_repeat_redemption_fails_already_used() {
    let mut contract = VoucherContract::default();
    create(
        &mut contract,
        &["aaaaaaaaa002"],
        PaymentType::Static,
        None,
        10,
        0,
    )
    .unwrap();
    redeem(&mut contract, "aaaaaaaaa002", CLAIMANT, 5).unwrap();

    let again = redeem(&mut contract, "aaaaaaaaa002", CLAIMANT, 6);
    assert_eq!(again.unwrap_err(), VoucherError::AlreadyUsed);
}

#[test]
fn linear_vesting_midway_claim_then_nothing() {
    let mut contract = VoucherContract::default();
    let expire = Some(100 * NANOS_PER_SEC);
    create(
        &mut contract,
        &["bbbbbbbbb001"],
        PaymentType::Linear,
        expire,
        100,
        0,
    )
    .unwrap();

    let halfway = 50 * NANOS_PER_SEC;
    let (info, claimable) = contract
        .voucher_info("bbbbbbbbb001".to_string(), OWNER.to_string(), halfway)
        .unwrap();
    assert_eq!(claimable, 50);
    assert_eq!(info.hash, "".to_string());

    let (amount, _) = redeem(&mut contract, "bbbbbbbbb001", CLAIMANT, halfway).unwrap();
    assert_eq!(amount, 50);

    let (_, claimable_after) = contract
        .voucher_info("bbbbbbbbb001".to_string(), OWNER.to_string(), halfway)
        .unwrap();
    assert_eq!(claimable_after, 0);
    let again = redeem(&mut contract, "bbbbbbbbb001", CLAIMANT, halfway);
    assert_eq!(again.unwrap_err(), VoucherError::NothingToClaim);
}

#[test]
fn linear_claims_cap_at_deposit() {
    let mut contract = VoucherContract::default();
    let expire = Some(100 * NANOS_PER_SEC);
    create(
        &mut contract,
        &["bbbbbbbbb002"],
        PaymentType::Linear,
        expire,
        100,
        0,
    )
    .unwrap();

    let (a1, _) = redeem(&mut contract, "bbbbbbbbb002", CLAIMANT, 30 * NANOS_PER_SEC).unwrap();
    let (a2, _) = redeem(&mut contract, "bbbbbbbbb002", CLAIMANT, 70 * NANOS_PER_SEC).unwrap();
    // Far past the vesting end the unlocked amount stays capped at the deposit.
    let (a3, _) = redeem(&mut contract, "bbbbbbbbb002", CLAIMANT, 1000 * NANOS_PER_SEC).unwrap();
    assert_eq!(a1, 30);
    assert_eq!(a2, 40);
    assert_eq!(a3, 30);
    assert_eq!(a1 + a2 + a3, 100);

    let vouchers = contract.user_vouchers(OWNER.to_string());
    assert_eq!(vouchers[0].paid_amount, 100);
    let again = redeem(&mut contract, "bbbbbbbbb002", CLAIMANT, 2000 * NANOS_PER_SEC);
    assert_eq!(again.unwrap_err(), VoucherError::NothingToClaim);
}

#[test]
fn cancel_unclaimed_refunds_owner() {
    let mut contract = VoucherContract::default();
    create(
        &mut contract,
        &["ccccccccc001"],
        PaymentType::Static,
        None,
        10,
        0,
    )
    .unwrap();

    let intent = contract
        .remove_voucher("ccccccccc001".to_string(), OWNER.to_string())
        .unwrap()
        .unwrap();
    assert_eq!(intent.account_id, OWNER.to_string());
    assert_eq!(intent.amount, 10);
    assert_eq!(contract.user_vouchers(OWNER.to_string()).len(), 0);
}

#[test]
fn cancel_partially_claimed_fails_locked() {
    let mut contract = VoucherContract::default();
    let expire = Some(100 * NANOS_PER_SEC);
    create(
        &mut contract,
        &["ccccccccc002"],
        PaymentType::Linear,
        expire,
        100,
        0,
    )
    .unwrap();
    redeem(&mut contract, "ccccccccc002", CLAIMANT, 50 * NANOS_PER_SEC).unwrap();

    let res = contract.remove_voucher("ccccccccc002".to_string(), OWNER.to_string());
    assert_eq!(res.unwrap_err(), VoucherError::VoucherLocked);
    assert_eq!(contract.user_vouchers(OWNER.to_string()).len(), 1);
}

#[test]
fn cancel_fully_claimed_refunds_nothing() {
    let mut contract = VoucherContract::default();
    create(
        &mut contract,
        &["ccccccccc003"],
        PaymentType::Static,
        None,
        5,
        0,
    )
    .unwrap();
    redeem(&mut contract, "ccccccccc003", CLAIMANT, 1).unwrap();

    let intent = contract
        .remove_voucher("ccccccccc003".to_string(), OWNER.to_string())
        .unwrap();
    assert!(intent.is_none());
    assert_eq!(contract.user_vouchers(OWNER.to_string()).len(), 0);
}

#[test]
fn linear_dust_stays_locked() {
    let mut contract = VoucherContract::default();
    // 100 units over 3 seconds: 33 per second, 99 claimable in all, 1 of dust.
    let expire = Some(3 * NANOS_PER_SEC);
    create(
        &mut contract,
        &["ddddddddd001"],
        PaymentType::Linear,
        expire,
        100,
        0,
    )
    .unwrap();

    let (amount, _) = redeem(&mut contract, "ddddddddd001", CLAIMANT, 3 * NANOS_PER_SEC).unwrap();
    assert_eq!(amount, 99);
    let again = redeem(&mut contract, "ddddddddd001", CLAIMANT, 4 * NANOS_PER_SEC);
    assert_eq!(again.unwrap_err(), VoucherError::NothingToClaim);
    // The dust keeps the voucher partially claimed forever.
    let res = contract.remove_voucher("ddddddddd001".to_string(), OWNER.to_string());
    assert_eq!(res.unwrap_err(), VoucherError::VoucherLocked);
}

#[test]
fn linear_nothing_vested_at_creation() {
    let mut contract = VoucherContract::default();
    let expire = Some(100 * NANOS_PER_SEC);
    create(
        &mut contract,
        &["ddddddddd002"],
        PaymentType::Linear,
        expire,
        100,
        0,
    )
    .unwrap();
    let res = redeem(&mut contract, "ddddddddd002", CLAIMANT, 0);
    assert_eq!(res.unwrap_err(), VoucherError::NothingToClaim);
}

#[test]
fn batch_creation_splits_deposit_with_dust() {
    let mut contract = VoucherContract::default();
    create(
        &mut contract,
        &["eeeeeeeee001", "eeeeeeeee002", "eeeeeeeee003"],
        PaymentType::Static,
        None,
        10,
        0,
    )
    .unwrap();

    let vouchers = contract.user_vouchers(OWNER.to_string());
    assert_eq!(vouchers.len(), 3);
    for v in &vouchers {
        assert_eq!(v.deposit_amount, 3);
        assert_eq!(v.paid_amount, 0);
    }
}

#[test]
fn validation_rejects_bad_inputs() {
    let mut contract = VoucherContract::default();
    let ids = ["fffffffff001"];

    // Zero and oversized deposits.
    let r = create(&mut contract, &ids, PaymentType::Static, None, 0, 0);
    assert_eq!(r.unwrap_err(), VoucherError::ValidationError);
    let r = create(&mut contract, &ids, PaymentType::Static, None, MAX_DEPOSIT + 1, 0);
    assert_eq!(r.unwrap_err(), VoucherError::ValidationError);

    // An id that is not exactly 12 characters.
    let r = create(&mut contract, &["elevenchars"], PaymentType::Static, None, 10, 0);
    assert_eq!(r.unwrap_err(), VoucherError::ValidationError);

    // A digest that is not exactly 64 characters.
    let r = contract.add_voucher(
        vec!["abc123".to_string()],
        vec!["fffffffff002".to_string()],
        None,
        PaymentType::Static,
        OWNER.to_string(),
        10,
        0,
    );
    assert_eq!(r.unwrap_err(), VoucherError::ValidationError);

    // A digest of the right length that is not lowercase hex.
    let r = contract.add_voucher(
        vec!["X".repeat(64)],
        vec!["fffffffff003".to_string()],
        None,
        PaymentType::Static,
        OWNER.to_string(),
        10,
        0,
    );
    assert_eq!(r.unwrap_err(), VoucherError::ValidationError);

    // Linear vouchers need an expiry at least one whole second away.
    let r = create(&mut contract, &ids, PaymentType::Linear, None, 10, 0);
    assert_eq!(r.unwrap_err(), VoucherError::ValidationError);
    let r = create(
        &mut contract,
        &ids,
        PaymentType::Linear,
        Some(NANOS_PER_SEC - 1),
        10,
        0,
    );
    assert_eq!(r.unwrap_err(), VoucherError::ValidationError);

    // A static expiry must lie strictly in the future.
    let r = create(&mut contract, &ids, PaymentType::Static, Some(7), 10, 7);
    assert_eq!(r.unwrap_err(), VoucherError::ValidationError);

    // Empty and mismatched batches.
    let r = create(&mut contract, &[], PaymentType::Static, None, 10, 0);
    assert_eq!(r.unwrap_err(), VoucherError::ValidationError);
    let r = contract.add_voucher(
        vec![commit(&secret())],
        vec!["fffffffff004".to_string(), "fffffffff005".to_string()],
        None,
        PaymentType::Static,
        OWNER.to_string(),
        10,
        0,
    );
    assert_eq!(r.unwrap_err(), VoucherError::ValidationError);

    // Nothing above touched the store.
    assert_eq!(contract.user_vouchers(OWNER.to_string()).len(), 0);

    // The boundary cases that are still valid.
    let r = create(&mut contract, &ids, PaymentType::Static, None, MAX_DEPOSIT, 0);
    assert!(r.is_ok());
    let r = create(
        &mut contract,
        &["fffffffff006"],
        PaymentType::Linear,
        Some(NANOS_PER_SEC),
        10,
        0,
    );
    assert!(r.is_ok());
}

#[test]
fn duplicate_ids_conflict() {
    let mut contract = VoucherContract::default();
    let r = create(
        &mut contract,
        &["ggggggggg001", "ggggggggg001"],
        PaymentType::Static,
        None,
        10,
        0,
    );
    assert_eq!(r.unwrap_err(), VoucherError::Conflict);
    assert_eq!(contract.user_vouchers(OWNER.to_string()).len(), 0);

    create(&mut contract, &["ggggggggg001"], PaymentType::Static, None, 10, 0).unwrap();
    let r = create(&mut contract, &["ggggggggg001"], PaymentType::Static, None, 10, 0);
    assert_eq!(r.unwrap_err(), VoucherError::Conflict);
    assert_eq!(contract.user_vouchers(OWNER.to_string()).len(), 1);
}

#[test]
fn missing_vouchers_not_found() {
    let mut contract = VoucherContract::default();
    let r = redeem(&mut contract, "hhhhhhhhh001", CLAIMANT, 0);
    assert_eq!(r.unwrap_err(), VoucherError::NotFound);
    let r = contract.remove_voucher("hhhhhhhhh001".to_string(), OWNER.to_string());
    assert_eq!(r.unwrap_err(), VoucherError::NotFound);
    let r = contract.voucher_info("hhhhhhhhh001".to_string(), OWNER.to_string(), 0);
    assert_eq!(r.unwrap_err(), VoucherError::NotFound);

    create(&mut contract, &["hhhhhhhhh002"], PaymentType::Static, None, 10, 0).unwrap();
    let r = contract.transfer(
        secret(),
        "hhhhhhhhh002".to_string(),
        "nobody_near".to_string(),
        CLAIMANT.to_string(),
        0,
    );
    assert_eq!(r.unwrap_err(), VoucherError::NotFound);
}

#[test]
fn wrong_secret_invalid() {
    let mut contract = VoucherContract::default();
    create(&mut contract, &["iiiiiiiii001"], PaymentType::Static, None, 10, 0).unwrap();
    let r = contract.transfer(
        "y".repeat(64),
        "iiiiiiiii001".to_string(),
        OWNER.to_string(),
        CLAIMANT.to_string(),
        0,
    );
    assert_eq!(r.unwrap_err(), VoucherError::InvalidSecret);
    let vouchers = contract.user_vouchers(OWNER.to_string());
    assert_eq!(vouchers[0].paid_amount, 0);
}

#[test]
fn second_claimant_not_authorized() {
    let mut contract = VoucherContract::default();
    let expire = Some(100 * NANOS_PER_SEC);
    create(&mut contract, &["jjjjjjjjj001"], PaymentType::Linear, expire, 100, 0).unwrap();
    redeem(&mut contract, "jjjjjjjjj001", CLAIMANT, 50 * NANOS_PER_SEC).unwrap();

    let r = redeem(&mut contract, "jjjjjjjjj001", "mallory_near", 60 * NANOS_PER_SEC);
    assert_eq!(r.unwrap_err(), VoucherError::NotAuthorized);
    // The original claimant can keep claiming.
    let (amount, _) = redeem(&mut contract, "jjjjjjjjj001", CLAIMANT, 60 * NANOS_PER_SEC).unwrap();
    assert_eq!(amount, 10);
}

#[test]
fn static_deadline_enforced() {
    let mut contract = VoucherContract::default();
    let expire = Some(10 * NANOS_PER_SEC);
    create(&mut contract, &["kkkkkkkkk001"], PaymentType::Static, expire, 10, 0).unwrap();

    let r = redeem(&mut contract, "kkkkkkkkk001", CLAIMANT, 10 * NANOS_PER_SEC + 1);
    assert_eq!(r.unwrap_err(), VoucherError::Expired);
    // Exactly at the deadline the voucher can still be redeemed.
    let (amount, _) = redeem(&mut contract, "kkkkkkkkk001", CLAIMANT, 10 * NANOS_PER_SEC).unwrap();
    assert_eq!(amount, 10);
}

#[test]
fn voucher_info_redacts_commitment() {
    let mut contract = VoucherContract::default();
    create(&mut contract, &["lllllllll001"], PaymentType::Static, None, 10, 0).unwrap();

    let (info, claimable) = contract
        .voucher_info("lllllllll001".to_string(), OWNER.to_string(), 5)
        .unwrap();
    assert_eq!(info.hash, "".to_string());
    assert_eq!(info.id, "lllllllll001".to_string());
    assert_eq!(info.deposit_amount, 10);
    assert_eq!(claimable, 10);
    // The stored record keeps its commitment.
    let vouchers = contract.user_vouchers(OWNER.to_string());
    assert_eq!(vouchers[0].hash, commit(&secret()));
}

#[test]
fn owners_are_isolated() {
    let mut contract = VoucherContract::default();
    create(&mut contract, &["mmmmmmmmm001"], PaymentType::Static, None, 10, 0).unwrap();
    let digest = commit(&secret());
    contract
        .add_voucher(
            vec![digest],
            vec!["mmmmmmmmm001".to_string()],
            None,
            PaymentType::Static,
            "other_near".to_string(),
            7,
            0,
        )
        .unwrap();

    assert_eq!(contract.user_vouchers(OWNER.to_string()).len(), 1);
    assert_eq!(contract.user_vouchers("other_near".to_string()).len(), 1);
    assert_eq!(contract.user_vouchers("other_near".to_string())[0].deposit_amount, 7);

    contract
        .remove_voucher("mmmmmmmmm001".to_string(), OWNER.to_string())
        .unwrap();
    assert_eq!(contract.user_vouchers(OWNER.to_string()).len(), 0);
    assert_eq!(contract.user_vouchers("other_near".to_string()).len(), 1);
}

#[test]
fn claim_amount_matches_vesting_schedule() {
    let mut contract = VoucherContract::default();
    let expire = Some(10 * NANOS_PER_SEC);
    create(&mut contract, &["nnnnnnnnn001"], PaymentType::Linear, expire, 100, 0).unwrap();
    let vouchers = contract.user_vouchers(OWNER.to_string());
    assert_eq!(contract.linear_claim_amount(&vouchers[0], 0), 0);
    assert_eq!(contract.linear_claim_amount(&vouchers[0], 4 * NANOS_PER_SEC), 40);
    // Partial seconds do not vest.
    assert_eq!(
        contract.linear_claim_amount(&vouchers[0], 4 * NANOS_PER_SEC + NANOS_PER_SEC / 2),
        40
    );
    // Elapsed time is clamped to the vesting window.
    assert_eq!(contract.linear_claim_amount(&vouchers[0], 100 * NANOS_PER_SEC), 100);

    // A static voucher's claimable amount is whatever is still unpaid.
    create(&mut contract, &["nnnnnnnnn002"], PaymentType::Static, None, 25, 0).unwrap();
    let vouchers = contract.user_vouchers(OWNER.to_string());
    let v = vouchers.iter().find(|v| v.id == "nnnnnnnnn002").unwrap();
    assert_eq!(contract.linear_claim_amount(v, 0), 25);
}
