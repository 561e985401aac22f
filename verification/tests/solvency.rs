use solvency::{
    AmountType, AssetAndLiabilityAccount, CompressedPoint, Scalar, SolvencyAudit, SolvencyError,
    XfrAmount,
};

type LimbBlinds = ((Scalar, Scalar), Scalar);

fn field(bytes: [u8; 32]) -> curve25519_dalek_ng::scalar::Scalar {
    curve25519_dalek_ng::scalar::Scalar::from_bytes_mod_order(bytes)
}

/// A ledger output and the blinds that come with it. With a plaintext amount
/// the blinds open nothing.
fn issue(amount: u64, hidden: bool, seed: u8) -> (XfrAmount, LimbBlinds) {
    let gens = bulletproofs::PedersenGens::default();
    let blind_low = field([seed; 32]);
    let blind_high = field([seed.wrapping_add(100); 32]);
    let code_blind = field([seed.wrapping_add(200); 32]);
    let blinds = (
        (Scalar::from_bytes(blind_low.to_bytes()), Scalar::from_bytes(blind_high.to_bytes())),
        Scalar::from_bytes(code_blind.to_bytes()),
    );
    if !hidden {
        return (XfrAmount::NonConfidential(amount), blinds);
    }
    let low = gens.commit(curve25519_dalek_ng::scalar::Scalar::from(amount & 0xffff_ffff), blind_low);
    let high = gens.commit(curve25519_dalek_ng::scalar::Scalar::from(amount >> 32), blind_high);
    (
        XfrAmount::Confidential(
            CompressedPoint::from_bytes(low.compress().to_bytes()),
            CompressedPoint::from_bytes(high.compress().to_bytes()),
        ),
        blinds,
    )
}

fn codes() -> Vec<Scalar> {
    vec![Scalar::from_u64(0xa0), Scalar::from_u64(0xa1), Scalar::from_u64(0xa2)]
}

fn add_amounts(
    account: &mut AssetAndLiabilityAccount,
    side: AmountType,
    amounts: [u64; 3],
    hidden: bool,
    seed: u8,
) -> Result<(), SolvencyError> {
    for (i, code) in codes().into_iter().enumerate() {
        let (resolved, blinds) = issue(amounts[i], hidden, seed + i as u8);
        account.update(side, amounts[i], code, Some(blinds), resolved)?;
    }
    Ok(())
}

fn add_public_asset_amounts(account: &mut AssetAndLiabilityAccount) -> Result<(), SolvencyError> {
    add_amounts(account, AmountType::Asset, [100, 200, 300], false, 0)
}

fn add_hidden_asset_amounts(account: &mut AssetAndLiabilityAccount) -> Result<(), SolvencyError> {
    add_amounts(account, AmountType::Asset, [10, 20, 30], true, 10)
}

fn add_public_liability_amounts(account: &mut AssetAndLiabilityAccount) -> Result<(), SolvencyError> {
    add_amounts(account, AmountType::Liability, [100, 200, 200], false, 20)
}

fn add_hidden_liability_amounts_smaller(
    account: &mut AssetAndLiabilityAccount,
) -> Result<(), SolvencyError> {
    add_amounts(account, AmountType::Liability, [10, 20, 20], true, 30)
}

fn add_hidden_liability_amounts_larger(
    account: &mut AssetAndLiabilityAccount,
) -> Result<(), SolvencyError> {
    add_amounts(account, AmountType::Liability, [10, 20, 40], true, 40)
}

fn add_conversion_rates(audit: &mut SolvencyAudit, codes: Vec<Scalar>) {
    let mut rate = 1;
    for code in codes.iter() {
        audit.set_rate(*code, rate);
        rate += 1;
    }
}

/// What a prover hands back where it succeeds: bytes that parse as a proof.
fn produced() -> Option<Vec<u8>> {
    Some(vec![0u8; 1 + 13 * 32])
}

#[test]
fn test_prove_solvency_fail() {
    let mut audit = SolvencyAudit::default();
    let codes = codes();

    // Set asset conversion rates, but miss one asset
    add_conversion_rates(&mut audit, vec![codes[0], codes[1]]);

    let mut account = AssetAndLiabilityAccount::default();
    add_hidden_asset_amounts(&mut account).unwrap();
    add_hidden_liability_amounts_smaller(&mut account).unwrap();

    match audit.prove_solvency_and_store(&mut account, produced()) {
        Err(SolvencyError::MissingConversionRate) => {}
        unexpected_result => {
            panic!("Expected MissingConversionRate, found {:?}.", unexpected_result);
        }
    }
    assert!(account.proof.is_none());
}

#[test]
fn test_verify_solvency_fail() {
    let mut audit = SolvencyAudit::default();
    add_conversion_rates(&mut audit, codes());

    let mut account = AssetAndLiabilityAccount::default();
    add_hidden_asset_amounts(&mut account).unwrap();
    add_hidden_liability_amounts_smaller(&mut account).unwrap();

    // Verify the solvency without a proof
    match audit.verify_solvency(&account, true) {
        Err(SolvencyError::MissingProof) => {}
        unexpected_result => {
            panic!("Expected MissingProof, found {:?}.", unexpected_result);
        }
    }
}

#[test]
fn test_prove_and_verify_solvency_fail() {
    let mut audit = SolvencyAudit::default();
    add_conversion_rates(&mut audit, codes());

    let mut account = AssetAndLiabilityAccount::default();
    add_hidden_asset_amounts(&mut account).unwrap();

    // Adds hidden liabilities, with total value larger than hidden assets'
    add_hidden_liability_amounts_larger(&mut account).unwrap();

    // 10 + 2 * 20 + 3 * 30 = 140 is less than 10 + 2 * 20 + 3 * 40 = 170
    match audit.prove_solvency_and_store(&mut account, produced()) {
        Err(SolvencyError::ProveFailed) => {}
        unexpected_result => {
            panic!("Expected ProveFailed, found {:?}.", unexpected_result);
        }
    }
    assert!(account.proof.is_none());
    assert_eq!(audit.verify_solvency(&account, false), Err(SolvencyError::MissingProof));
}

#[test]
fn test_prove_and_verify_solvency_simple_pass() {
    let mut audit = SolvencyAudit::default();
    let code = Scalar::from_u64(0xa0);
    audit.set_rate(code, 1);

    let mut account = AssetAndLiabilityAccount::default();
    let (resolved, blinds) = issue(10, true, 1);
    account.update(AmountType::Asset, 10, code, Some(blinds), resolved).unwrap();

    audit.prove_solvency_and_store(&mut account, produced()).unwrap();
    assert!(account.proof.is_some());

    audit.verify_solvency(&account, true).unwrap();
}

#[test]
fn test_prove_and_verify_solvency_complex_pass() {
    let mut audit = SolvencyAudit::default();
    add_conversion_rates(&mut audit, codes());

    let mut account = AssetAndLiabilityAccount::default();
    add_public_asset_amounts(&mut account).unwrap();
    add_hidden_asset_amounts(&mut account).unwrap();
    add_public_liability_amounts(&mut account).unwrap();
    add_hidden_liability_amounts_smaller(&mut account).unwrap();

    audit.prove_solvency_and_store(&mut account, produced()).unwrap();
    assert!(account.proof.is_some());

    audit.verify_solvency(&account, true).unwrap();
}

#[test]
fn test_update_asset_and_verify_solvency_mixed() {
    let mut audit = SolvencyAudit::default();
    add_conversion_rates(&mut audit, codes());

    let mut account = AssetAndLiabilityAccount::default();
    add_public_asset_amounts(&mut account).unwrap();
    add_hidden_asset_amounts(&mut account).unwrap();
    add_public_liability_amounts(&mut account).unwrap();
    add_hidden_liability_amounts_smaller(&mut account).unwrap();

    audit.prove_solvency_and_store(&mut account, produced()).unwrap();
    audit.verify_solvency(&account, true).unwrap();

    // Update the public liabilities
    let (resolved, blinds) = issue(40, false, 5);
    account.update(AmountType::Liability, 40, codes()[0], Some(blinds), resolved).unwrap();

    // Verify the solvency without proving it again
    match audit.verify_solvency(&account, true) {
        Err(SolvencyError::MissingProof) => {}
        unexpected_result => {
            panic!("Expected MissingProof, found {:?}.", unexpected_result);
        }
    }

    // Prove the solvency again and verify the proof
    audit.prove_solvency_and_store(&mut account, produced()).unwrap();
    audit.verify_solvency(&account, true).unwrap();
}

#[test]
fn test_update_liability_and_verify_solvency_fail() {
    let mut audit = SolvencyAudit::default();
    add_conversion_rates(&mut audit, codes());

    let mut account = AssetAndLiabilityAccount::default();
    add_public_asset_amounts(&mut account).unwrap();
    add_hidden_asset_amounts(&mut account).unwrap();
    add_public_liability_amounts(&mut account).unwrap();
    add_hidden_liability_amounts_smaller(&mut account).unwrap();

    audit.prove_solvency_and_store(&mut account, produced()).unwrap();
    audit.verify_solvency(&account, true).unwrap();

    // Update the hidden liabilities
    let (resolved, blinds) = issue(4000, true, 5);
    account.update(AmountType::Liability, 4000, codes()[0], Some(blinds), resolved).unwrap();

    // The liabilities now weigh 5210 against assets of 1540
    match audit.prove_solvency_and_store(&mut account, produced()) {
        Err(SolvencyError::ProveFailed) => {}
        unexpected_result => {
            panic!("Expected ProveFailed, found {:?}.", unexpected_result);
        }
    }
    match audit.verify_solvency(&account, false) {
        Err(SolvencyError::MissingProof) => {}
        unexpected_result => {
            panic!("Expected MissingProof, found {:?}.", unexpected_result);
        }
    }
}
