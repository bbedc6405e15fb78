//! Per-operation behavior: exact accounting, append-only order, optional
//! field replacement, derived identifiers, and every error kind that the
//! operations can produce.

use farm_direct::identity::Identity;
use farm_direct::ledger::Ledger;
use farm_direct::records::CampaignType;
use farm_direct::records::DeliveryStatus;
use farm_direct::records::ErrorCode;
use farm_direct::records::GrowthStage;

fn id(tag: u8) -> Identity {
    Identity::new([tag; 32])
}

fn registered(l: &mut Ledger, tag: u8, now: i64) -> Identity {
    let who = id(tag);
    l.initialize_farmer(
        who,
        format!("blob-{}", tag),
        format!("Farm {}", tag),
        "South".to_string(),
        vec![],
        now,
    )
    .unwrap();
    who
}

#[test]
fn current_amount_equals_contribution_sum_and_custody() {
    let mut l = Ledger::new();
    let a = id(1);
    let b = id(2);
    l.create_crowdfunding_campaign(
        a,
        "Seed money".to_string(),
        String::new(),
        10_000,
        500,
        CampaignType::Seeds,
        vec![],
        50,
    )
    .unwrap();
    l.fund_wallet(b, 1_000).unwrap();

    let amounts = [120u64, 7, 300, 0, 73];
    let mut sum = 0u64;
    for (k, amt) in amounts.iter().enumerate() {
        l.contribute_to_campaign(b, a, 50, *amt, 60 + k as i64).unwrap();
        sum += amt;
        assert_eq!(l.campaigns[0].current_amount, sum);
        assert_eq!(l.vaults[0], sum);
    }
    let recorded: u64 = l.campaigns[0].contributors.iter().map(|c| c.amount).sum();
    assert_eq!(recorded, sum);
    assert_eq!(l.total_funds, 1_000);
}

#[test]
fn closed_campaign_still_accepts_contributions() {
    let mut l = Ledger::new();
    let a = id(1);
    let b = id(2);
    l.create_crowdfunding_campaign(
        a,
        "Pump".to_string(),
        String::new(),
        100,
        500,
        CampaignType::Equipment,
        vec![],
        50,
    )
    .unwrap();
    l.fund_wallet(b, 500).unwrap();

    l.contribute_to_campaign(b, a, 50, 100, 60).unwrap();
    assert!(!l.campaigns[0].is_active);

    // the baseline keeps taking money after the goal is reached
    let r = l.contribute_to_campaign(b, a, 50, 40, 70);
    assert_eq!(r, Ok(()));
    assert_eq!(l.campaigns[0].current_amount, 140);
    assert!(!l.campaigns[0].is_active);
    assert_eq!(l.campaigns[0].contributors.len(), 2);
}

#[test]
fn update_with_all_fields_absent_touches_only_timestamp() {
    let mut l = Ledger::new();
    let a = registered(&mut l, 1, 100);

    l.update_farmer_profile(a, a, None, None, None, None, 177).unwrap();

    let p = &l.profiles[0];
    assert_eq!(p.encrypted_data, "blob-1");
    assert_eq!(p.public_name, "Farm 1");
    assert_eq!(p.region, "South");
    assert!(p.certifications.is_empty());
    assert!(!p.verification_status);
    assert_eq!(p.reputation_score, 0);
    assert_eq!(p.total_products, 0);
    assert_eq!(p.created_at, 100);
    assert_eq!(p.updated_at, 177);
}

#[test]
fn update_replaces_exactly_the_present_field() {
    let mut l = Ledger::new();
    let a = registered(&mut l, 1, 100);

    l.update_farmer_profile(a, a, None, None, Some("East".to_string()), None, 150).unwrap();

    let p = &l.profiles[0];
    assert_eq!(p.region, "East");
    assert_eq!(p.public_name, "Farm 1");
    assert_eq!(p.encrypted_data, "blob-1");
    assert!(p.certifications.is_empty());
    assert_eq!(p.updated_at, 150);

    l.update_farmer_profile(
        a,
        a,
        None,
        None,
        None,
        Some(vec!["fair-trade".to_string(), "organic".to_string()]),
        160,
    )
    .unwrap();
    assert_eq!(l.profiles[0].region, "East");
    assert_eq!(
        l.profiles[0].certifications,
        vec!["fair-trade".to_string(), "organic".to_string()]
    );
}

#[test]
fn distinct_timestamps_give_distinct_product_ids() {
    let mut l = Ledger::new();
    let a = registered(&mut l, 1, 100);

    l.create_product(
        a,
        "P1".to_string(),
        "c".to_string(),
        "d".to_string(),
        0,
        1,
        vec![],
        110,
    )
    .unwrap();
    l.create_product(
        a,
        "P2".to_string(),
        "c".to_string(),
        "d".to_string(),
        0,
        1,
        vec![],
        111,
    )
    .unwrap();

    assert_eq!(l.products.len(), 2);
    assert_ne!(l.products[0].product_id, l.products[1].product_id);
    assert!(!l.products[0].product_id.is_empty());
}

#[test]
fn distinct_identities_give_distinct_ids() {
    let mut l = Ledger::new();
    let a = registered(&mut l, 1, 100);
    let b = registered(&mut l, 2, 100);

    l.create_product(a, "P".to_string(), "c".to_string(), "d".to_string(), 0, 1, vec![], 110)
        .unwrap();
    l.create_product(b, "P".to_string(), "c".to_string(), "d".to_string(), 0, 1, vec![], 110)
        .unwrap();
    assert_ne!(l.products[0].product_id, l.products[1].product_id);

    // campaigns derive identifiers the same way, from identity and time;
    // the derivation carries no kind tag, so only a different timestamp
    // separates a's campaign from a's product
    l.create_crowdfunding_campaign(
        a,
        "t".to_string(),
        String::new(),
        10,
        0,
        CampaignType::Expansion,
        vec![],
        110,
    )
    .unwrap();
    assert_eq!(l.campaigns[0].campaign_id, l.products[0].product_id);
    l.create_crowdfunding_campaign(
        b,
        "t".to_string(),
        String::new(),
        10,
        0,
        CampaignType::Expansion,
        vec![],
        112,
    )
    .unwrap();
    assert_ne!(l.campaigns[1].campaign_id, l.products[1].product_id);
}

#[test]
fn create_product_without_profile_fails() {
    let mut l = Ledger::new();
    let unregistered = id(9);
    let r = l.create_product(
        unregistered,
        "P".to_string(),
        "c".to_string(),
        "d".to_string(),
        0,
        1,
        vec![],
        110,
    );
    assert_eq!(r, Err(ErrorCode::NotFound));
    assert!(l.products.is_empty());
}

#[test]
fn appends_keep_length_and_order() {
    let mut l = Ledger::new();
    let a = registered(&mut l, 1, 100);
    l.create_product(a, "P".to_string(), "c".to_string(), "d".to_string(), 0, 1, vec![], 110)
        .unwrap();

    let stages = [GrowthStage::Seeding, GrowthStage::Germination, GrowthStage::Growing];
    for (k, s) in stages.iter().enumerate() {
        l.add_growth_update(a, a, 110, *s, format!("note {}", k), vec![], 120 + k as i64)
            .unwrap();
    }
    assert_eq!(l.products[0].growth_updates.len(), 3);
    for (k, s) in stages.iter().enumerate() {
        assert!(l.products[0].growth_updates[k].stage == *s);
        assert_eq!(l.products[0].growth_updates[k].notes, format!("note {}", k));
        assert_eq!(l.products[0].growth_updates[k].timestamp, 120 + k as i64);
    }

    l.add_delivery_update(a, a, 110, DeliveryStatus::Preparing, "boxing".to_string(), None, 130)
        .unwrap();
    l.add_delivery_update(
        a,
        a,
        110,
        DeliveryStatus::InTransit,
        "on the road".to_string(),
        Some("Route 7".to_string()),
        131,
    )
    .unwrap();
    assert_eq!(l.products[0].delivery_updates.len(), 2);
    assert!(l.products[0].delivery_updates[0].status == DeliveryStatus::Preparing);
    assert!(l.products[0].delivery_updates[1].status == DeliveryStatus::InTransit);
    assert_eq!(
        l.products[0].delivery_updates[1].location,
        Some("Route 7".to_string())
    );
    // earlier growth entries did not move
    assert!(l.products[0].growth_updates[0].stage == GrowthStage::Seeding);
}

#[test]
fn duplicate_registration_is_refused() {
    let mut l = Ledger::new();
    let a = registered(&mut l, 1, 100);
    let r = l.initialize_farmer(
        a,
        "other".to_string(),
        "Other".to_string(),
        "West".to_string(),
        vec![],
        120,
    );
    assert_eq!(r, Err(ErrorCode::AlreadyExists));
    assert_eq!(l.profiles.len(), 1);
    assert_eq!(l.profiles[0].public_name, "Farm 1");
}

#[test]
fn duplicate_product_address_is_refused() {
    let mut l = Ledger::new();
    let a = registered(&mut l, 1, 100);
    l.create_product(a, "P".to_string(), "c".to_string(), "d".to_string(), 0, 1, vec![], 110)
        .unwrap();
    // same creator, same instant: the derived address is occupied
    let r = l.create_product(
        a,
        "Q".to_string(),
        "c".to_string(),
        "d".to_string(),
        0,
        1,
        vec![],
        110,
    );
    assert_eq!(r, Err(ErrorCode::AlreadyExists));
    assert_eq!(l.products.len(), 1);
    assert_eq!(l.profiles[0].total_products, 1);
}

#[test]
fn product_update_by_stranger_is_refused() {
    let mut l = Ledger::new();
    let a = registered(&mut l, 1, 100);
    let d = id(4);
    l.create_product(a, "P".to_string(), "c".to_string(), "d".to_string(), 0, 1, vec![], 110)
        .unwrap();

    let r = l.add_growth_update(d, a, 110, GrowthStage::Seeding, "s".to_string(), vec![], 120);
    assert_eq!(r, Err(ErrorCode::UnauthorizedFarmer));
    let r = l.update_actual_quantity(d, a, 110, 5, 120);
    assert_eq!(r, Err(ErrorCode::UnauthorizedFarmer));
    let r = l.add_delivery_update(
        d,
        a,
        110,
        DeliveryStatus::Packed,
        "p".to_string(),
        None,
        120,
    );
    assert_eq!(r, Err(ErrorCode::UnauthorizedFarmer));
    assert!(l.products[0].growth_updates.is_empty());
    assert!(l.products[0].delivery_updates.is_empty());
    assert_eq!(l.products[0].actual_quantity, 0);
}

#[test]
fn missing_records_give_not_found() {
    let mut l = Ledger::new();
    let a = id(1);
    let r = l.update_farmer_profile(a, a, None, None, None, None, 100);
    assert_eq!(r, Err(ErrorCode::NotFound));
    let r = l.add_growth_update(a, a, 110, GrowthStage::Seeding, "s".to_string(), vec![], 120);
    assert_eq!(r, Err(ErrorCode::NotFound));
    let r = l.contribute_to_campaign(a, a, 50, 10, 120);
    assert_eq!(r, Err(ErrorCode::NotFound));
}

#[test]
fn insufficient_balance_fails_with_no_state_change() {
    let mut l = Ledger::new();
    let a = id(1);
    let b = id(2);
    l.create_crowdfunding_campaign(
        a,
        "t".to_string(),
        String::new(),
        1000,
        0,
        CampaignType::Emergency,
        vec![],
        50,
    )
    .unwrap();
    l.fund_wallet(b, 99).unwrap();

    let r = l.contribute_to_campaign(b, a, 50, 100, 60);
    assert_eq!(r, Err(ErrorCode::TransferFailed));
    assert_eq!(l.campaigns[0].current_amount, 0);
    assert!(l.campaigns[0].contributors.is_empty());
    assert_eq!(l.vaults[0], 0);
    assert_eq!(l.wallets[0].balance, 99);

    // an identity that never held funds cannot pay either
    let r = l.contribute_to_campaign(id(7), a, 50, 1, 61);
    assert_eq!(r, Err(ErrorCode::TransferFailed));
}

#[test]
fn funding_beyond_capacity_is_refused() {
    let mut l = Ledger::new();
    let b = id(2);
    l.fund_wallet(b, u64::MAX).unwrap();
    let r = l.fund_wallet(b, 1);
    assert_eq!(r, Err(ErrorCode::InvalidAmount));
    assert_eq!(l.wallets[0].balance, u64::MAX);
    assert_eq!(l.total_funds, u64::MAX);
}

#[test]
fn duplicate_campaign_address_is_refused() {
    let mut l = Ledger::new();
    let a = id(1);
    l.create_crowdfunding_campaign(
        a,
        "t".to_string(),
        String::new(),
        10,
        0,
        CampaignType::Equipment,
        vec![],
        50,
    )
    .unwrap();
    let r = l.create_crowdfunding_campaign(
        a,
        "u".to_string(),
        String::new(),
        20,
        0,
        CampaignType::Seeds,
        vec![],
        50,
    );
    assert_eq!(r, Err(ErrorCode::AlreadyExists));
    assert_eq!(l.campaigns.len(), 1);
    assert_eq!(l.campaigns[0].title, "t");
}

#[test]
fn campaign_needs_no_profile_and_zero_goal_starts_active() {
    let mut l = Ledger::new();
    let a = id(1);
    // no profile was ever registered for `a`
    l.create_crowdfunding_campaign(
        a,
        "t".to_string(),
        String::new(),
        0,
        0,
        CampaignType::Expansion,
        vec![],
        50,
    )
    .unwrap();
    // the goal is already met, yet creation leaves the flag up; the first
    // booking takes it down
    assert!(l.campaigns[0].is_active);
    l.contribute_to_campaign(id(2), a, 50, 0, 60).unwrap();
    assert!(!l.campaigns[0].is_active);
}
