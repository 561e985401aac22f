use solvency::{
    AmountType, AssetAndLiabilityAccount, CompressedPoint, Scalar, SolvencyAudit, XfrAmount,
};

type LimbBlinds = ((Scalar, Scalar), Scalar);

fn field(bytes: [u8; 32]) -> curve25519_dalek_ng::scalar::Scalar {
    curve25519_dalek_ng::scalar::Scalar::from_bytes_mod_order(bytes)
}

fn confidential(amount: u64, seed: u8) -> (XfrAmount, LimbBlinds) {
    let gens = bulletproofs::PedersenGens::default();
    let blind_low = field([seed; 32]);
    let blind_high = field([seed.wrapping_add(1); 32]);
    let code_blind = field([seed.wrapping_add(2); 32]);
    let low = gens.commit(curve25519_dalek_ng::scalar::Scalar::from(amount & 0xffff_ffff), blind_low);
    let high = gens.commit(curve25519_dalek_ng::scalar::Scalar::from(amount >> 32), blind_high);
    (
        XfrAmount::Confidential(
            CompressedPoint::from_bytes(low.compress().to_bytes()),
            CompressedPoint::from_bytes(high.compress().to_bytes()),
        ),
        (
            (Scalar::from_bytes(blind_low.to_bytes()), Scalar::from_bytes(blind_high.to_bytes())),
            Scalar::from_bytes(code_blind.to_bytes()),
        ),
    )
}

fn full_account() -> AssetAndLiabilityAccount {
    let mut account = AssetAndLiabilityAccount::new();
    for i in 0..3u64 {
        let code = Scalar::from_u64(500 + i);
        account.update(AmountType::Asset, 100 * i, code, None, XfrAmount::NonConfidential(100 * i)).unwrap();
        let (resolved, blinds) = confidential(10 + i, i as u8);
        account.update(AmountType::Asset, 10 + i, code, Some(blinds), resolved).unwrap();
        let (resolved, blinds) = confidential(5 + i, 50 + i as u8);
        account.update(AmountType::Liability, 5 + i, code, Some(blinds), resolved).unwrap();
    }
    account
        .update(AmountType::Liability, 7, Scalar::from_u64(500), None, XfrAmount::NonConfidential(7))
        .unwrap();
    account
}

fn scalar_bytes(x: u64) -> Vec<u8> {
    let mut bytes = vec![0u8; 32];
    bytes[..8].copy_from_slice(&x.to_le_bytes());
    bytes
}

#[test]
fn an_empty_account_is_stored_as_eight_empty_lists_and_an_empty_slot() {
    let bytes = AssetAndLiabilityAccount::new().to_bytes();
    let mut expected = vec![0u8; 8 * 8];
    expected.push(0);
    assert_eq!(bytes, expected);
    assert_eq!(AssetAndLiabilityAccount::from_bytes(&bytes), Some(AssetAndLiabilityAccount::new()));
}

#[test]
fn a_public_asset_and_a_proof_are_stored_byte_for_byte() {
    let mut account = AssetAndLiabilityAccount::new();
    account
        .update(AmountType::Asset, 0x0102, Scalar::from_u64(7), None, XfrAmount::NonConfidential(0x0102))
        .unwrap();
    account.proof = Some(vec![0xaa, 0xbb, 0xcc]);

    let mut expected = Vec::new();
    expected.extend_from_slice(&1u64.to_le_bytes());
    expected.extend_from_slice(&scalar_bytes(0x0102));
    expected.extend_from_slice(&scalar_bytes(7));
    expected.extend_from_slice(&[0u8; 7 * 8]);
    expected.push(1);
    expected.extend_from_slice(&3u64.to_le_bytes());
    expected.extend_from_slice(&[0xaa, 0xbb, 0xcc]);

    assert_eq!(account.to_bytes(), expected);
    assert_eq!(AssetAndLiabilityAccount::from_bytes(&expected), Some(account));
}

#[test]
fn the_lists_are_stored_in_the_order_of_the_fields() {
    let mut account = AssetAndLiabilityAccount::new();
    let pair = |n: u8| (Scalar::from_bytes([n; 32]), Scalar::from_bytes([n + 100; 32]));
    let points = |n: u8| (CompressedPoint::from_bytes([n; 32]), CompressedPoint::from_bytes([n + 100; 32]));
    account.public_assets.push(pair(1));
    account.hidden_assets.push(pair(2));
    account.hidden_assets_blinds.push(pair(3));
    account.hidden_assets_commitments.push(points(4));
    account.public_liabilities.push(pair(5));
    account.hidden_liabilities.push(pair(6));
    account.hidden_liabilities_blinds.push(pair(7));
    account.hidden_liabilities_commitments.push(points(8));
    let mut expected = Vec::new();
    for n in 1..=8u8 {
        expected.extend_from_slice(&1u64.to_le_bytes());
        expected.extend_from_slice(&[n; 32]);
        expected.extend_from_slice(&[n + 100; 32]);
    }
    expected.push(0);
    assert_eq!(account.to_bytes(), expected);
    assert_eq!(AssetAndLiabilityAccount::from_bytes(&expected), Some(account));
}

#[test]
fn an_account_is_read_back_as_it_was_stored() {
    let account = full_account();
    let read_back = AssetAndLiabilityAccount::from_bytes(&account.to_bytes()).unwrap();
    assert_eq!(read_back.public_assets, account.public_assets);
    assert_eq!(read_back.hidden_assets, account.hidden_assets);
    assert_eq!(read_back.hidden_assets_blinds, account.hidden_assets_blinds);
    assert_eq!(read_back.hidden_assets_commitments, account.hidden_assets_commitments);
    assert_eq!(read_back.public_liabilities, account.public_liabilities);
    assert_eq!(read_back.hidden_liabilities, account.hidden_liabilities);
    assert_eq!(read_back.hidden_liabilities_blinds, account.hidden_liabilities_blinds);
    assert_eq!(read_back.hidden_liabilities_commitments, account.hidden_liabilities_commitments);
    assert_eq!(read_back.proof, None);
    assert_eq!(read_back.to_bytes(), account.to_bytes());
}

#[test]
fn an_account_with_a_proof_is_read_back_with_it() {
    let mut account = full_account();
    account.proof = Some((0..=255u8).collect());
    let read_back = AssetAndLiabilityAccount::from_bytes(&account.to_bytes()).unwrap();
    assert_eq!(read_back, account);
    account.proof = Some(Vec::new());
    let read_back = AssetAndLiabilityAccount::from_bytes(&account.to_bytes()).unwrap();
    assert_eq!(read_back.proof, Some(Vec::new()));
    assert_eq!(read_back, account);
}

#[test]
fn bytes_that_are_no_stored_account_are_refused() {
    let mut account = full_account();
    account.proof = Some(vec![1, 2, 3, 4]);
    let good = account.to_bytes();
    assert!(AssetAndLiabilityAccount::from_bytes(&good).is_some());

    assert_eq!(AssetAndLiabilityAccount::from_bytes(&Vec::new()), None);
    for cut in [1, 4, 8, 9, 40, 64, 65, 200, good.len() - 1] {
        assert_eq!(AssetAndLiabilityAccount::from_bytes(&good[..cut].to_vec()), None);
    }
    let mut longer = good.clone();
    longer.push(0);
    assert_eq!(AssetAndLiabilityAccount::from_bytes(&longer), None);

    // a count that promises more entries than there are bytes
    let mut greedy = good.clone();
    greedy[..8].copy_from_slice(&u64::MAX.to_le_bytes());
    assert_eq!(AssetAndLiabilityAccount::from_bytes(&greedy), None);
    let mut greedy = good.clone();
    greedy[..8].copy_from_slice(&(1u64 << 58).to_le_bytes());
    assert_eq!(AssetAndLiabilityAccount::from_bytes(&greedy), None);
}

#[test]
fn a_bad_proof_slot_is_refused() {
    let empty = AssetAndLiabilityAccount::new().to_bytes();
    let lists = &empty[..64];

    let mut unknown_tag = lists.to_vec();
    unknown_tag.push(2);
    assert_eq!(AssetAndLiabilityAccount::from_bytes(&unknown_tag), None);

    let mut none_with_more = lists.to_vec();
    none_with_more.extend_from_slice(&[0, 0]);
    assert_eq!(AssetAndLiabilityAccount::from_bytes(&none_with_more), None);

    let mut short_length = lists.to_vec();
    short_length.extend_from_slice(&[1, 0, 0, 0]);
    assert_eq!(AssetAndLiabilityAccount::from_bytes(&short_length), None);

    let mut wrong_length = lists.to_vec();
    wrong_length.push(1);
    wrong_length.extend_from_slice(&2u64.to_le_bytes());
    wrong_length.extend_from_slice(&[9, 9, 9]);
    assert_eq!(AssetAndLiabilityAccount::from_bytes(&wrong_length), None);

    let mut right_length = lists.to_vec();
    right_length.push(1);
    right_length.extend_from_slice(&3u64.to_le_bytes());
    right_length.extend_from_slice(&[9, 9, 9]);
    let account = AssetAndLiabilityAccount::from_bytes(&right_length).unwrap();
    assert_eq!(account.proof, Some(vec![9, 9, 9]));
}

#[test]
fn an_audit_is_stored_byte_for_byte() {
    let mut audit = SolvencyAudit::new();
    assert_eq!(audit.to_bytes(), vec![0u8; 8]);
    audit.set_rate(Scalar::from_u64(0x11), 3);
    audit.set_rate(Scalar::from_u64(0x22), 0x0400);
    let mut expected = Vec::new();
    expected.extend_from_slice(&2u64.to_le_bytes());
    expected.extend_from_slice(&scalar_bytes(0x11));
    expected.extend_from_slice(&scalar_bytes(3));
    expected.extend_from_slice(&scalar_bytes(0x22));
    expected.extend_from_slice(&scalar_bytes(0x0400));
    assert_eq!(audit.to_bytes(), expected);
    assert_eq!(SolvencyAudit::from_bytes(&expected), Some(audit));
}

#[test]
fn an_audit_is_read_back_as_it_was_stored() {
    let mut audit = SolvencyAudit::new();
    assert_eq!(SolvencyAudit::from_bytes(&audit.to_bytes()), Some(SolvencyAudit::new()));
    for i in 0..5u64 {
        audit.set_rate(Scalar::from_u64(i % 3), i + 1);
    }
    let read_back = SolvencyAudit::from_bytes(&audit.to_bytes()).unwrap();
    assert_eq!(read_back.conversion_rates, audit.conversion_rates);
    assert_eq!(read_back.get_rate(&Scalar::from_u64(0)), Some(Scalar::from_u64(4)));
}

#[test]
fn bytes_that_are_no_stored_audit_are_refused() {
    let mut audit = SolvencyAudit::new();
    audit.set_rate(Scalar::from_u64(1), 1);
    let good = audit.to_bytes();
    assert_eq!(good.len(), 8 + 64);
    assert_eq!(SolvencyAudit::from_bytes(&Vec::new()), None);
    assert_eq!(SolvencyAudit::from_bytes(&good[..7].to_vec()), None);
    assert_eq!(SolvencyAudit::from_bytes(&good[..71].to_vec()), None);
    let mut longer = good.clone();
    longer.push(0);
    assert_eq!(SolvencyAudit::from_bytes(&longer), None);
    let mut greedy = good.clone();
    greedy[0] = 2;
    assert_eq!(SolvencyAudit::from_bytes(&greedy), None);
    let mut greedy = good;
    greedy[..8].copy_from_slice(&u64::MAX.to_le_bytes());
    assert_eq!(SolvencyAudit::from_bytes(&greedy), None);
}
