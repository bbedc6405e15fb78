//! The ledger's entities and their record-level transitions: farmer
//! identity records, append-only product lifecycle logs, and escrowed
//! fundraising campaigns.
//!
//! Every transition takes the authenticated caller and the environment's
//! current timestamp as explicit arguments; authorization against the
//! record's owning identity is decided here.

use vstd::prelude::*;

use crate::identity::Identity;
use crate::ids::record_id_of;

verus! {

/// The one error kind a failed operation reports.
///
/// `CampaignNotActive` and `CampaignDeadlineExceeded` are declared for the
/// campaign escrow but never produced: contributions to a closed or expired
/// campaign are still accepted (a documented gap, kept deliberately).
#[derive(Clone, Copy, Debug, PartialEq, Eq, Structural)]
pub enum ErrorCode {
    /// The caller does not match the record's owning identity.
    UnauthorizedFarmer,
    /// Declared but never produced: closed campaigns still take funds.
    CampaignNotActive,
    /// Declared but never produced: expired campaigns still take funds.
    CampaignDeadlineExceeded,
    /// The requested amount cannot be represented.
    InvalidAmount,
    /// A record already occupies the derived address.
    AlreadyExists,
    /// The referenced address holds no record.
    NotFound,
    /// The value-transfer collaborator could not move the funds.
    TransferFailed,
}

/// Growth stages in their logical progression; the core does not force
/// transitions to move forward.
#[derive(Clone, Copy, Debug, PartialEq, Eq, Structural)]
pub enum GrowthStage {
    Seeding,
    Germination,
    Growing,
    Flowering,
    Fruiting,
    Harvest,
    PostHarvest,
}

/// Delivery statuses in their logical progression; likewise not forced to
/// move forward.
#[derive(Clone, Copy, Debug, PartialEq, Eq, Structural)]
pub enum DeliveryStatus {
    Preparing,
    Packed,
    InTransit,
    Delivered,
    Completed,
}

/// What a fundraising campaign pays for.
#[derive(Clone, Copy, Debug, PartialEq, Eq, Structural)]
pub enum CampaignType {
    Equipment,
    Seeds,
    Infrastructure,
    Expansion,
    Emergency,
}

/// One entry of a product's growth log.
#[derive(Clone, Debug)]
pub struct GrowthUpdate {
    pub stage: GrowthStage,
    pub timestamp: i64,
    pub notes: String,
    pub firebase_image_urls: Vec<String>,
}

/// One entry of a product's delivery log.
#[derive(Clone, Debug)]
pub struct DeliveryUpdate {
    pub status: DeliveryStatus,
    pub timestamp: i64,
    pub notes: String,
    pub location: Option<String>,
}

/// One recorded contribution. Multiple entries per identity are allowed;
/// nothing is merged.
#[derive(Clone, Copy, Debug)]
pub struct Contributor {
    pub wallet: Identity,
    pub amount: u64,
    pub timestamp: i64,
}

/// One farmer identity record; one per identity, never deleted.
#[derive(Clone, Debug)]
pub struct FarmerProfile {
    pub farmer: Identity,
    pub encrypted_data: String,
    pub public_name: String,
    pub region: String,
    pub certifications: Vec<String>,
    pub verification_status: bool,
    pub reputation_score: u64,
    pub total_products: u64,
    pub created_at: i64,
    pub updated_at: i64,
}

/// One farming cycle with its append-only growth and delivery logs.
#[derive(Clone, Debug)]
pub struct ProductCycle {
    pub product_id: String,
    pub farmer: Identity,
    pub product_name: String,
    pub category: String,
    pub description: String,
    pub estimated_harvest_date: i64,
    pub estimated_quantity: u64,
    pub actual_quantity: u64,
    pub firebase_image_urls: Vec<String>,
    pub growth_updates: Vec<GrowthUpdate>,
    pub delivery_updates: Vec<DeliveryUpdate>,
    pub created_at: i64,
    pub updated_at: i64,
}

/// One fundraising campaign with its append-only contribution log.
#[derive(Clone, Debug)]
pub struct CrowdfundingCampaign {
    pub campaign_id: String,
    pub farmer: Identity,
    pub title: String,
    pub description: String,
    pub goal_amount: u64,
    pub current_amount: u64,
    pub deadline: i64,
    pub campaign_type: CampaignType,
    pub milestones: Vec<String>,
    pub contributors: Vec<Contributor>,
    pub is_active: bool,
    pub created_at: i64,
    pub updated_at: i64,
}

/// The profile a registration call creates for `farmer` at time `now`.
pub open spec fn fresh_profile(
    farmer: Identity,
    encrypted_data: String,
    public_name: String,
    region: String,
    certifications: Vec<String>,
    now: i64,
) -> FarmerProfile {
    FarmerProfile {
        farmer,
        encrypted_data,
        public_name,
        region,
        certifications,
        verification_status: false,
        reputation_score: 0,
        total_products: 0,
        created_at: now,
        updated_at: now,
    }
}

/// `p` with each present optional field fully replaced, the absent ones
/// untouched, and the updated timestamp refreshed.
pub open spec fn profile_with_update(
    p: FarmerProfile,
    encrypted_data: Option<String>,
    public_name: Option<String>,
    region: Option<String>,
    certifications: Option<Vec<String>>,
    now: i64,
) -> FarmerProfile {
    FarmerProfile {
        farmer: p.farmer,
        encrypted_data: (match encrypted_data {
            Option::Some(d) => d,
            Option::None => p.encrypted_data,
        }),
        public_name: (match public_name {
            Option::Some(n) => n,
            Option::None => p.public_name,
        }),
        region: (match region {
            Option::Some(r) => r,
            Option::None => p.region,
        }),
        certifications: (match certifications {
            Option::Some(c) => c,
            Option::None => p.certifications,
        }),
        verification_status: p.verification_status,
        reputation_score: p.reputation_score,
        total_products: p.total_products,
        created_at: p.created_at,
        updated_at: now,
    }
}

/// The descriptive and identifying product fields that no append or
/// quantity transition may touch.
pub open spec fn same_product_core(a: ProductCycle, b: ProductCycle) -> bool {
    &&& a.product_id == b.product_id
    &&& a.farmer == b.farmer
    &&& a.product_name == b.product_name
    &&& a.category == b.category
    &&& a.description == b.description
    &&& a.estimated_harvest_date == b.estimated_harvest_date
    &&& a.estimated_quantity == b.estimated_quantity
    &&& a.firebase_image_urls == b.firebase_image_urls
    &&& a.created_at == b.created_at
}

/// The descriptive and identifying campaign fields that a contribution may
/// not touch.
pub open spec fn same_campaign_core(a: CrowdfundingCampaign, b: CrowdfundingCampaign) -> bool {
    &&& a.campaign_id == b.campaign_id
    &&& a.farmer == b.farmer
    &&& a.title == b.title
    &&& a.description == b.description
    &&& a.goal_amount == b.goal_amount
    &&& a.deadline == b.deadline
    &&& a.campaign_type == b.campaign_type
    &&& a.milestones == b.milestones
    &&& a.created_at == b.created_at
}

impl FarmerProfile {
    /// The first registration call of an identity: every counter starts at
    /// zero, verification at false, both timestamps at the current time.
    pub fn register(
        farmer: Identity,
        encrypted_data: String,
        public_name: String,
        region: String,
        certifications: Vec<String>,
        now: i64,
    ) -> (p: FarmerProfile)
        ensures
            p == fresh_profile(farmer, encrypted_data, public_name, region, certifications, now),
    {
        FarmerProfile {
            farmer,
            encrypted_data,
            public_name,
            region,
            certifications,
            verification_status: false,
            reputation_score: 0,
            total_products: 0,
            created_at: now,
            updated_at: now,
        }
    }

    /// Replaces each present optional field, leaves absent ones untouched,
    /// and refreshes the updated timestamp even if nothing changed. Only
    /// the owning identity may update; anyone else is turned away with the
    /// record intact.
    pub fn apply_update(
        &mut self,
        caller: &Identity,
        encrypted_data: Option<String>,
        public_name: Option<String>,
        region: Option<String>,
        certifications: Option<Vec<String>>,
        now: i64,
    ) -> (r: Result<(), ErrorCode>)
        ensures
            r is Ok <==> caller@ == old(self).farmer@,
            r is Err ==> r == Err::<(), ErrorCode>(ErrorCode::UnauthorizedFarmer)
                && *final(self) == *old(self),
            r is Ok ==> *final(self) == profile_with_update(
                *old(self),
                encrypted_data,
                public_name,
                region,
                certifications,
                now,
            ),
    {
        if !caller.same_as(&self.farmer) {
            return Err(ErrorCode::UnauthorizedFarmer);
        }
        match encrypted_data {
            Option::Some(d) => {
                self.encrypted_data = d;
            },
            Option::None => {},
        }
        match public_name {
            Option::Some(n) => {
                self.public_name = n;
            },
            Option::None => {},
        }
        match region {
            Option::Some(r) => {
                self.region = r;
            },
            Option::None => {},
        }
        match certifications {
            Option::Some(c) => {
                self.certifications = c;
            },
            Option::None => {},
        }
        self.updated_at = now;
        Ok(())
    }
}

impl ProductCycle {
    /// A new farming cycle for `farmer` at time `now`: the product
    /// identifier is derived from the creator's identity bytes and the
    /// timestamp, never chosen by the caller; the actual quantity starts
    /// at zero and both logs start empty.
    pub fn create(
        farmer: Identity,
        product_name: String,
        category: String,
        description: String,
        estimated_harvest_date: i64,
        estimated_quantity: u64,
        firebase_image_urls: Vec<String>,
        now: i64,
    ) -> (p: ProductCycle)
        ensures
            p.product_id@ == record_id_of(farmer@, now),
            p.farmer == farmer,
            p.product_name == product_name,
            p.category == category,
            p.description == description,
            p.estimated_harvest_date == estimated_harvest_date,
            p.estimated_quantity == estimated_quantity,
            p.actual_quantity == 0,
            p.firebase_image_urls == firebase_image_urls,
            p.growth_updates@ == Seq::<GrowthUpdate>::empty(),
            p.delivery_updates@ == Seq::<DeliveryUpdate>::empty(),
            p.created_at == now,
            p.updated_at == now,
    {
        let product_id = crate::ids::derive_record_id(&farmer, now);
        let growth_updates: Vec<GrowthUpdate> = Vec::new();
        let delivery_updates: Vec<DeliveryUpdate> = Vec::new();
        proof {
            assert(growth_updates@ =~= Seq::<GrowthUpdate>::empty());
            assert(delivery_updates@ =~= Seq::<DeliveryUpdate>::empty());
        }
        ProductCycle {
            product_id,
            farmer,
            product_name,
            category,
            description,
            estimated_harvest_date,
            estimated_quantity,
            actual_quantity: 0,
            firebase_image_urls,
            growth_updates,
            delivery_updates,
            created_at: now,
            updated_at: now,
        }
    }

    /// Appends one growth entry; nothing before it moves or disappears,
    /// and no stage ordering is enforced. Owner only.
    pub fn push_growth_update(
        &mut self,
        caller: &Identity,
        stage: GrowthStage,
        notes: String,
        firebase_image_urls: Vec<String>,
        now: i64,
    ) -> (r: Result<(), ErrorCode>)
        ensures
            r is Ok <==> caller@ == old(self).farmer@,
            r is Err ==> r == Err::<(), ErrorCode>(ErrorCode::UnauthorizedFarmer)
                && *final(self) == *old(self),
            r is Ok ==> {
                &&& same_product_core(*old(self), *final(self))
                &&& final(self).growth_updates@ == old(self).growth_updates@.push(
                    (GrowthUpdate { stage, timestamp: now, notes, firebase_image_urls }),
                )
                &&& final(self).delivery_updates == old(self).delivery_updates
                &&& final(self).actual_quantity == old(self).actual_quantity
                &&& final(self).updated_at == now
            },
    {
        if !caller.same_as(&self.farmer) {
            return Err(ErrorCode::UnauthorizedFarmer);
        }
        self.growth_updates.push(GrowthUpdate { stage, timestamp: now, notes, firebase_image_urls });
        self.updated_at = now;
        Ok(())
    }

    /// Overwrites the actual quantity (no accumulation, no monotonicity);
    /// callable repeatedly. Owner only.
    pub fn set_actual_quantity(
        &mut self,
        caller: &Identity,
        actual_quantity: u64,
        now: i64,
    ) -> (r: Result<(), ErrorCode>)
        ensures
            r is Ok <==> caller@ == old(self).farmer@,
            r is Err ==> r == Err::<(), ErrorCode>(ErrorCode::UnauthorizedFarmer)
                && *final(self) == *old(self),
            r is Ok ==> {
                &&& same_product_core(*old(self), *final(self))
                &&& final(self).growth_updates == old(self).growth_updates
                &&& final(self).delivery_updates == old(self).delivery_updates
                &&& final(self).actual_quantity == actual_quantity
                &&& final(self).updated_at == now
            },
    {
        if !caller.same_as(&self.farmer) {
            return Err(ErrorCode::UnauthorizedFarmer);
        }
        self.actual_quantity = actual_quantity;
        self.updated_at = now;
        Ok(())
    }

    /// Appends one delivery entry; same append-only semantics as the
    /// growth log. Owner only.
    pub fn push_delivery_update(
        &mut self,
        caller: &Identity,
        status: DeliveryStatus,
        notes: String,
        location: Option<String>,
        now: i64,
    ) -> (r: Result<(), ErrorCode>)
        ensures
            r is Ok <==> caller@ == old(self).farmer@,
            r is Err ==> r == Err::<(), ErrorCode>(ErrorCode::UnauthorizedFarmer)
                && *final(self) == *old(self),
            r is Ok ==> {
                &&& same_product_core(*old(self), *final(self))
                &&& final(self).delivery_updates@ == old(self).delivery_updates@.push(
                    (DeliveryUpdate { status, timestamp: now, notes, location }),
                )
                &&& final(self).growth_updates == old(self).growth_updates
                &&& final(self).actual_quantity == old(self).actual_quantity
                &&& final(self).updated_at == now
            },
    {
        if !caller.same_as(&self.farmer) {
            return Err(ErrorCode::UnauthorizedFarmer);
        }
        self.delivery_updates.push(DeliveryUpdate { status, timestamp: now, notes, location });
        self.updated_at = now;
        Ok(())
    }
}

/// The sum of every recorded contribution amount, the quantity the escrow
/// must keep reconciled with the campaign's counter and its custody
/// balance.
pub open spec fn contributions_total(s: Seq<Contributor>) -> int
    decreases s.len(),
{
    if s.len() == 0 {
        0
    } else {
        contributions_total(s.drop_last()) + s.last().amount
    }
}

impl CrowdfundingCampaign {
    /// A new campaign for `farmer` at time `now`: the identifier is
    /// derived like a product's; the raised amount starts at zero, the
    /// contribution log empty, the active flag true. The goal and the
    /// deadline are accepted exactly as given, with no positivity or
    /// future-date check.
    pub fn create(
        farmer: Identity,
        title: String,
        description: String,
        goal_amount: u64,
        deadline: i64,
        campaign_type: CampaignType,
        milestones: Vec<String>,
        now: i64,
    ) -> (c: CrowdfundingCampaign)
        ensures
            c.campaign_id@ == record_id_of(farmer@, now),
            c.farmer == farmer,
            c.title == title,
            c.description == description,
            c.goal_amount == goal_amount,
            c.current_amount == 0,
            c.deadline == deadline,
            c.campaign_type == campaign_type,
            c.milestones == milestones,
            c.contributors@ == Seq::<Contributor>::empty(),
            c.is_active,
            c.created_at == now,
            c.updated_at == now,
    {
        let campaign_id = crate::ids::derive_record_id(&farmer, now);
        let contributors: Vec<Contributor> = Vec::new();
        proof {
            assert(contributors@ =~= Seq::<Contributor>::empty());
        }
        CrowdfundingCampaign {
            campaign_id,
            farmer,
            title,
            description,
            goal_amount,
            current_amount: 0,
            deadline,
            campaign_type,
            milestones,
            contributors,
            is_active: true,
            created_at: now,
            updated_at: now,
        }
    }

    /// Books a contribution whose funds the environment has already moved
    /// into custody: appends the contributor entry, raises the counter by
    /// exactly the amount, and closes the campaign for good the moment the
    /// goal is reached. Deliberately, neither a closed campaign nor a
    /// passed deadline blocks the booking.
    pub fn record_contribution(&mut self, contributor: Identity, amount: u64, now: i64)
        requires
            old(self).current_amount + amount <= u64::MAX,
        ensures
            same_campaign_core(*old(self), *final(self)),
            final(self).contributors@ == old(self).contributors@.push(
                (Contributor { wallet: contributor, amount, timestamp: now }),
            ),
            final(self).current_amount == old(self).current_amount + amount,
            contributions_total(old(self).contributors@) + amount
                == contributions_total(final(self).contributors@),
            final(self).is_active == (old(self).is_active
                && final(self).current_amount < final(self).goal_amount),
            final(self).updated_at == now,
    {
        self.contributors.push(Contributor { wallet: contributor, amount, timestamp: now });
        self.current_amount = self.current_amount + amount;
        self.updated_at = now;
        if self.current_amount >= self.goal_amount {
            self.is_active = false;
        }
        proof {
            assert(self.contributors@.drop_last() =~= old(self).contributors@);
        }
    }
}

} // verus!
