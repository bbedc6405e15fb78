//! End-to-end walks through the ledger: registration, product lifecycle,
//! and the campaign escrow, driven exactly as the execution environment
//! would drive them.

use farm_direct::identity::Identity;
use farm_direct::ledger::Ledger;
use farm_direct::records::CampaignType;
use farm_direct::records::ErrorCode;
use farm_direct::records::GrowthStage;

fn id(tag: u8) -> Identity {
    Identity::new([tag; 32])
}

#[test]
fn farmer_registers_creates_product_and_logs_growth() {
    let mut l = Ledger::new();
    let a = id(1);

    l.initialize_farmer(
        a,
        "blob-a".to_string(),
        "Farm A".to_string(),
        "North".to_string(),
        vec!["organic".to_string()],
        100,
    )
    .unwrap();

    l.create_product(
        a,
        "Tomatoes".to_string(),
        "Vegetables".to_string(),
        "Cherry tomatoes".to_string(),
        2_000,
        100,
        vec!["https://img/1".to_string()],
        110,
    )
    .unwrap();

    l.add_growth_update(a, a, 110, GrowthStage::Seeding, "sown".to_string(), vec![], 120)
        .unwrap();
    l.update_actual_quantity(a, a, 110, 95, 130).unwrap();

    assert_eq!(l.profiles.len(), 1);
    assert_eq!(l.profiles[0].total_products, 1);
    assert_eq!(l.products.len(), 1);
    assert_eq!(l.products[0].actual_quantity, 95);
    assert_eq!(l.products[0].growth_updates.len(), 1);
    assert!(l.products[0].growth_updates[0].stage == GrowthStage::Seeding);
    assert_eq!(l.products[0].growth_updates[0].timestamp, 120);
    assert_eq!(l.products[0].estimated_quantity, 100);
    assert_eq!(l.profiles[0].public_name, "Farm A");
    assert_eq!(l.profiles[0].region, "North");
}

#[test]
fn campaign_reaches_goal_and_closes() {
    let mut l = Ledger::new();
    let a = id(1);
    let b = id(2);
    let c = id(3);

    l.create_crowdfunding_campaign(
        a,
        "New greenhouse".to_string(),
        "Glass and frames".to_string(),
        1000,
        9_999,
        CampaignType::Infrastructure,
        vec!["foundation".to_string(), "frame".to_string()],
        200,
    )
    .unwrap();

    l.fund_wallet(b, 600).unwrap();
    l.fund_wallet(c, 500).unwrap();

    l.contribute_to_campaign(b, a, 200, 600, 210).unwrap();
    assert!(l.campaigns[0].is_active);
    assert_eq!(l.campaigns[0].current_amount, 600);

    l.contribute_to_campaign(c, a, 200, 500, 220).unwrap();
    assert_eq!(l.campaigns[0].current_amount, 1100);
    assert!(!l.campaigns[0].is_active);

    assert_eq!(l.campaigns[0].contributors.len(), 2);
    assert!(l.campaigns[0].contributors[0].wallet == b);
    assert_eq!(l.campaigns[0].contributors[0].amount, 600);
    assert!(l.campaigns[0].contributors[1].wallet == c);
    assert_eq!(l.campaigns[0].contributors[1].amount, 500);
    assert_eq!(l.vaults[0], 1100);

    // both wallets are drained; the issued total is conserved
    assert_eq!(l.total_funds, 1100);
}

#[test]
fn stranger_cannot_update_anothers_profile() {
    let mut l = Ledger::new();
    let a = id(1);
    let d = id(4);

    l.initialize_farmer(
        a,
        "blob-a".to_string(),
        "Farm A".to_string(),
        "North".to_string(),
        vec![],
        100,
    )
    .unwrap();

    let r = l.update_farmer_profile(
        d,
        a,
        None,
        Some("Hijacked".to_string()),
        None,
        None,
        150,
    );
    assert_eq!(r, Err(ErrorCode::UnauthorizedFarmer));

    // the profile is byte-identical to what registration wrote
    assert_eq!(l.profiles[0].public_name, "Farm A");
    assert_eq!(l.profiles[0].region, "North");
    assert_eq!(l.profiles[0].encrypted_data, "blob-a");
    assert_eq!(l.profiles[0].updated_at, 100);
}
