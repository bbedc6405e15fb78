//! The execution environment's state, modeled: record storage addressed by
//! derived addresses, caller-controlled wallet balances, and one custody
//! account per campaign.
//!
//! A record's address is a deterministic function of its kind, its owning
//! identity, and (for products and campaigns) the creation timestamp; the
//! ledger refuses to create a second record at an occupied address, which
//! is the uniqueness mechanism. Every operation commits entirely or
//! changes nothing, and every reachable state satisfies [`Ledger::wf`]:
//! in particular, a campaign's raised counter, the sum of its recorded
//! contributions, and its custody balance always agree, and value is
//! conserved across transfers.

use vstd::prelude::*;

use crate::identity::Identity;
use crate::records::CampaignType;
use crate::records::Contributor;
use crate::records::CrowdfundingCampaign;
use crate::records::DeliveryStatus;
use crate::records::DeliveryUpdate;
use crate::records::ErrorCode;
use crate::records::FarmerProfile;
use crate::records::GrowthStage;
use crate::records::GrowthUpdate;
use crate::records::ProductCycle;
use crate::records::contributions_total;
use crate::records::fresh_profile;
use crate::records::profile_with_update;
use crate::records::same_campaign_core;
use crate::records::same_product_core;

verus! {

/// A caller-controlled balance known to the value-transfer collaborator.
#[derive(Clone, Copy, Debug)]
pub struct WalletAccount {
    pub owner: Identity,
    pub balance: u64,
}

/// The sum of all wallet balances.
pub open spec fn wallet_total(s: Seq<WalletAccount>) -> int
    decreases s.len(),
{
    if s.len() == 0 {
        0
    } else {
        wallet_total(s.drop_last()) + s.last().balance
    }
}

/// The sum of all custody balances.
pub open spec fn vault_total(s: Seq<u64>) -> int
    decreases s.len(),
{
    if s.len() == 0 {
        0
    } else {
        vault_total(s.drop_last()) + s.last()
    }
}

/// How many products of `s` the identity with bytes `owner` owns; the
/// quantity the profile's denormalized counter must equal.
pub open spec fn owned_products(s: Seq<ProductCycle>, owner: Seq<u8>) -> int
    decreases s.len(),
{
    if s.len() == 0 {
        0
    } else {
        owned_products(s.drop_last(), owner) + if s.last().farmer@ == owner {
            1int
        } else {
            0int
        }
    }
}

/// A campaign's internal accounting: the raised counter equals the sum of
/// the recorded contributions, and the active flag is down exactly when a
/// recorded contribution has carried the total to the goal.
pub open spec fn campaign_ok(c: CrowdfundingCampaign) -> bool {
    &&& c.current_amount == contributions_total(c.contributors@)
    &&& (c.is_active <==> (c.current_amount < c.goal_amount || c.contributors@.len() == 0))
}

proof fn lemma_wallet_total_nonneg(s: Seq<WalletAccount>)
    ensures
        wallet_total(s) >= 0,
    decreases s.len(),
{
    if s.len() > 0 {
        lemma_wallet_total_nonneg(s.drop_last());
    }
}

proof fn lemma_wallet_total_elem(s: Seq<WalletAccount>, i: int)
    requires
        0 <= i < s.len(),
    ensures
        s[i].balance <= wallet_total(s),
    decreases s.len(),
{
    if i == s.len() - 1 {
        lemma_wallet_total_nonneg(s.drop_last());
    } else {
        lemma_wallet_total_elem(s.drop_last(), i);
    }
}

proof fn lemma_wallet_total_update(s: Seq<WalletAccount>, i: int, w: WalletAccount)
    requires
        0 <= i < s.len(),
    ensures
        wallet_total(s.update(i, w)) == wallet_total(s) - s[i].balance + w.balance,
    decreases s.len(),
{
    if i == s.len() - 1 {
        assert(s.update(i, w).drop_last() =~= s.drop_last());
        assert(s.update(i, w).last() == w);
    } else {
        assert(s.update(i, w).drop_last() =~= s.drop_last().update(i, w));
        assert(s.update(i, w).last() == s.last());
        lemma_wallet_total_update(s.drop_last(), i, w);
    }
}

proof fn lemma_wallet_total_push(s: Seq<WalletAccount>, w: WalletAccount)
    ensures
        wallet_total(s.push(w)) == wallet_total(s) + w.balance,
{
    assert(s.push(w).drop_last() =~= s);
    assert(s.push(w).last() == w);
}

proof fn lemma_vault_total_nonneg(s: Seq<u64>)
    ensures
        vault_total(s) >= 0,
    decreases s.len(),
{
    if s.len() > 0 {
        lemma_vault_total_nonneg(s.drop_last());
    }
}

proof fn lemma_vault_total_elem(s: Seq<u64>, i: int)
    requires
        0 <= i < s.len(),
    ensures
        s[i] <= vault_total(s),
    decreases s.len(),
{
    if i == s.len() - 1 {
        lemma_vault_total_nonneg(s.drop_last());
    } else {
        lemma_vault_total_elem(s.drop_last(), i);
    }
}

proof fn lemma_vault_total_update(s: Seq<u64>, i: int, v: u64)
    requires
        0 <= i < s.len(),
    ensures
        vault_total(s.update(i, v)) == vault_total(s) - s[i] + v,
    decreases s.len(),
{
    if i == s.len() - 1 {
        assert(s.update(i, v).drop_last() =~= s.drop_last());
        assert(s.update(i, v).last() == v);
    } else {
        assert(s.update(i, v).drop_last() =~= s.drop_last().update(i, v));
        assert(s.update(i, v).last() == s.last());
        lemma_vault_total_update(s.drop_last(), i, v);
    }
}

proof fn lemma_vault_total_push(s: Seq<u64>, v: u64)
    ensures
        vault_total(s.push(v)) == vault_total(s) + v,
{
    assert(s.push(v).drop_last() =~= s);
    assert(s.push(v).last() == v);
}

proof fn lemma_owned_products_bound(s: Seq<ProductCycle>, owner: Seq<u8>)
    ensures
        0 <= owned_products(s, owner) <= s.len(),
    decreases s.len(),
{
    if s.len() > 0 {
        lemma_owned_products_bound(s.drop_last(), owner);
    }
}

proof fn lemma_owned_products_push(s: Seq<ProductCycle>, p: ProductCycle, owner: Seq<u8>)
    ensures
        owned_products(s.push(p), owner) == owned_products(s, owner) + if p.farmer@ == owner {
            1int
        } else {
            0int
        },
{
    assert(s.push(p).drop_last() =~= s);
    assert(s.push(p).last() == p);
}

proof fn lemma_owned_products_update(s: Seq<ProductCycle>, i: int, p: ProductCycle, owner: Seq<u8>)
    requires
        0 <= i < s.len(),
        s[i].farmer@ == p.farmer@,
    ensures
        owned_products(s.update(i, p), owner) == owned_products(s, owner),
    decreases s.len(),
{
    if i == s.len() - 1 {
        assert(s.update(i, p).drop_last() =~= s.drop_last());
        assert(s.update(i, p).last() == p);
    } else {
        assert(s.update(i, p).drop_last() =~= s.drop_last().update(i, p));
        assert(s.update(i, p).last() == s.last());
        lemma_owned_products_update(s.drop_last(), i, p, owner);
    }
}

proof fn lemma_owned_products_absent(s: Seq<ProductCycle>, owner: Seq<u8>)
    requires
        forall|k: int| 0 <= k < s.len() ==> (#[trigger] s[k].farmer@) != owner,
    ensures
        owned_products(s, owner) == 0,
    decreases s.len(),
{
    if s.len() > 0 {
        assert(forall|k: int|
            0 <= k < s.drop_last().len() ==> (#[trigger] s.drop_last()[k].farmer@) != owner);
        lemma_owned_products_absent(s.drop_last(), owner);
        assert(s.last().farmer@ != owner);
    }
}

/// The execution environment's whole state: every stored record, every
/// wallet, and every campaign's custody balance.
pub struct Ledger {
    pub profiles: Vec<FarmerProfile>,
    pub products: Vec<ProductCycle>,
    pub campaigns: Vec<CrowdfundingCampaign>,
    /// `vaults[i]` is the custody balance of `campaigns[i]`.
    pub vaults: Vec<u64>,
    pub wallets: Vec<WalletAccount>,
    /// The value the environment has issued so far; transfers conserve it.
    pub total_funds: u64,
}

impl Ledger {
    /// A profile record exists at the address derived from `owner`.
    pub open spec fn has_profile(self, owner: Seq<u8>) -> bool {
        exists|i: int|
            0 <= i < self.profiles@.len() && (#[trigger] self.profiles@[i].farmer@) == owner
    }

    /// The storage slot of `owner`'s profile.
    pub open spec fn profile_index(self, owner: Seq<u8>) -> int {
        choose|i: int|
            0 <= i < self.profiles@.len() && (#[trigger] self.profiles@[i].farmer@) == owner
    }

    /// The profile stored for `owner`.
    pub open spec fn profile_at(self, owner: Seq<u8>) -> FarmerProfile {
        self.profiles@[self.profile_index(owner)]
    }

    /// A product record exists at the address derived from its owner and
    /// its creation time.
    pub open spec fn has_product(self, owner: Seq<u8>, created_at: i64) -> bool {
        exists|i: int|
            0 <= i < self.products@.len() && (#[trigger] self.products@[i]).farmer@ == owner
                && self.products@[i].created_at == created_at
    }

    /// The storage slot of the product created by `owner` at `created_at`.
    pub open spec fn product_index(self, owner: Seq<u8>, created_at: i64) -> int {
        choose|i: int|
            0 <= i < self.products@.len() && (#[trigger] self.products@[i]).farmer@ == owner
                && self.products@[i].created_at == created_at
    }

    /// A campaign record exists at the address derived from its owner and
    /// its creation time.
    pub open spec fn has_campaign(self, owner: Seq<u8>, created_at: i64) -> bool {
        exists|i: int|
            0 <= i < self.campaigns@.len() && (#[trigger] self.campaigns@[i]).farmer@ == owner
                && self.campaigns@[i].created_at == created_at
    }

    /// The storage slot of the campaign created by `owner` at `created_at`.
    pub open spec fn campaign_index(self, owner: Seq<u8>, created_at: i64) -> int {
        choose|i: int|
            0 <= i < self.campaigns@.len() && (#[trigger] self.campaigns@[i]).farmer@ == owner
                && self.campaigns@[i].created_at == created_at
    }

    /// A wallet entry exists for `owner`.
    pub open spec fn has_wallet(self, owner: Seq<u8>) -> bool {
        exists|i: int|
            0 <= i < self.wallets@.len() && (#[trigger] self.wallets@[i].owner@) == owner
    }

    /// The slot of `owner`'s wallet.
    pub open spec fn wallet_index(self, owner: Seq<u8>) -> int {
        choose|i: int|
            0 <= i < self.wallets@.len() && (#[trigger] self.wallets@[i].owner@) == owner
    }

    /// The balance `owner` controls; an identity without a wallet entry
    /// controls nothing.
    pub open spec fn wallet_balance(self, owner: Seq<u8>) -> int {
        if self.has_wallet(owner) {
            self.wallets@[self.wallet_index(owner)].balance as int
        } else {
            0
        }
    }

    /// Well-formedness of the whole ledger; every operation preserves it.
    ///
    /// Addresses are unique per record kind; each campaign's raised
    /// counter, contribution log and custody balance agree and its active
    /// flag is down exactly when a recorded contribution reached the goal;
    /// each profile's product counter equals the products it owns; every
    /// product's owner is registered; and the issued value equals the sum
    /// of all wallet and custody balances, so no transfer can overflow.
    pub open spec fn wf(self) -> bool {
        &&& (forall|i: int, j: int|
            #![trigger self.profiles@[i].farmer@, self.profiles@[j].farmer@]
            0 <= i < j < self.profiles@.len() ==> self.profiles@[i].farmer@
                != self.profiles@[j].farmer@)
        &&& (forall|i: int, j: int|
            #![trigger self.products@[i], self.products@[j]]
            0 <= i < j < self.products@.len() ==> !(self.products@[i].farmer@
                == self.products@[j].farmer@ && self.products@[i].created_at
                == self.products@[j].created_at))
        &&& (forall|i: int, j: int|
            #![trigger self.campaigns@[i], self.campaigns@[j]]
            0 <= i < j < self.campaigns@.len() ==> !(self.campaigns@[i].farmer@
                == self.campaigns@[j].farmer@ && self.campaigns@[i].created_at
                == self.campaigns@[j].created_at))
        &&& (forall|i: int, j: int|
            #![trigger self.wallets@[i].owner@, self.wallets@[j].owner@]
            0 <= i < j < self.wallets@.len() ==> self.wallets@[i].owner@
                != self.wallets@[j].owner@)
        &&& self.vaults@.len() == self.campaigns@.len()
        &&& (forall|i: int|
            0 <= i < self.campaigns@.len() ==> (#[trigger] self.vaults@[i])
                == self.campaigns@[i].current_amount)
        &&& (forall|i: int|
            0 <= i < self.campaigns@.len() ==> campaign_ok(#[trigger] self.campaigns@[i]))
        &&& (forall|i: int|
            0 <= i < self.profiles@.len() ==> (#[trigger] self.profiles@[i]).total_products
                == owned_products(self.products@, self.profiles@[i].farmer@))
        &&& (forall|i: int|
            0 <= i < self.products@.len() ==> self.has_profile(
                (#[trigger] self.products@[i]).farmer@,
            ))
        &&& self.total_funds == wallet_total(self.wallets@) + vault_total(self.vaults@)
    }

    /// An empty environment: no records, no wallets, no issued value.
    pub fn new() -> (l: Ledger)
        ensures
            l.wf(),
            l.profiles@.len() == 0,
            l.products@.len() == 0,
            l.campaigns@.len() == 0,
            l.vaults@.len() == 0,
            l.wallets@.len() == 0,
            l.total_funds == 0,
    {
        let l = Ledger {
            profiles: Vec::new(),
            products: Vec::new(),
            campaigns: Vec::new(),
            vaults: Vec::new(),
            wallets: Vec::new(),
            total_funds: 0,
        };
        proof {
            assert(l.wallets@ =~= Seq::<WalletAccount>::empty());
            assert(l.vaults@ =~= Seq::<u64>::empty());
        }
        l
    }
}

proof fn lemma_profile_index_of(l: Ledger, owner: Seq<u8>, i: int)
    requires
        forall|a: int, b: int|
            #![trigger l.profiles@[a].farmer@, l.profiles@[b].farmer@]
            0 <= a < b < l.profiles@.len() ==> l.profiles@[a].farmer@ != l.profiles@[b].farmer@,
        0 <= i < l.profiles@.len(),
        l.profiles@[i].farmer@ == owner,
    ensures
        l.has_profile(owner),
        l.profile_index(owner) == i,
        l.profile_at(owner) == l.profiles@[i],
{
    assert(l.has_profile(owner));
    let j = l.profile_index(owner);
    if j < i {
        assert(l.profiles@[j].farmer@ != l.profiles@[i].farmer@);
    }
    if i < j {
        assert(l.profiles@[i].farmer@ != l.profiles@[j].farmer@);
    }
}

proof fn lemma_product_index_of(l: Ledger, owner: Seq<u8>, created_at: i64, i: int)
    requires
        forall|a: int, b: int|
            #![trigger l.products@[a], l.products@[b]]
            0 <= a < b < l.products@.len() ==> !(l.products@[a].farmer@ == l.products@[b].farmer@
                && l.products@[a].created_at == l.products@[b].created_at),
        0 <= i < l.products@.len(),
        l.products@[i].farmer@ == owner,
        l.products@[i].created_at == created_at,
    ensures
        l.has_product(owner, created_at),
        l.product_index(owner, created_at) == i,
{
    assert(l.has_product(owner, created_at));
    let j = l.product_index(owner, created_at);
    if j < i {
        assert(!(l.products@[j].farmer@ == l.products@[i].farmer@ && l.products@[j].created_at
            == l.products@[i].created_at));
    }
    if i < j {
        assert(!(l.products@[i].farmer@ == l.products@[j].farmer@ && l.products@[i].created_at
            == l.products@[j].created_at));
    }
}

proof fn lemma_campaign_index_of(l: Ledger, owner: Seq<u8>, created_at: i64, i: int)
    requires
        forall|a: int, b: int|
            #![trigger l.campaigns@[a], l.campaigns@[b]]
            0 <= a < b < l.campaigns@.len() ==> !(l.campaigns@[a].farmer@ == l.campaigns@[b].farmer@
                && l.campaigns@[a].created_at == l.campaigns@[b].created_at),
        0 <= i < l.campaigns@.len(),
        l.campaigns@[i].farmer@ == owner,
        l.campaigns@[i].created_at == created_at,
    ensures
        l.has_campaign(owner, created_at),
        l.campaign_index(owner, created_at) == i,
{
    assert(l.has_campaign(owner, created_at));
    let j = l.campaign_index(owner, created_at);
    if j < i {
        assert(!(l.campaigns@[j].farmer@ == l.campaigns@[i].farmer@ && l.campaigns@[j].created_at
            == l.campaigns@[i].created_at));
    }
    if i < j {
        assert(!(l.campaigns@[i].farmer@ == l.campaigns@[j].farmer@ && l.campaigns@[i].created_at
            == l.campaigns@[j].created_at));
    }
}

/// Two ledgers with the same wallet store assign every identity the same
/// balance, provided wallet owners are unique.
proof fn lemma_wallet_state_transfer(l1: Ledger, l2: Ledger)
    requires
        l1.wallets == l2.wallets,
        forall|a: int, b: int|
            #![trigger l1.wallets@[a].owner@, l1.wallets@[b].owner@]
            0 <= a < b < l1.wallets@.len() ==> l1.wallets@[a].owner@ != l1.wallets@[b].owner@,
    ensures
        forall|o: Seq<u8>| (#[trigger] l2.wallet_balance(o)) == l1.wallet_balance(o),
{
    assert forall|a: int, b: int|
        #![trigger l2.wallets@[a].owner@, l2.wallets@[b].owner@]
        0 <= a < b < l2.wallets@.len() implies l2.wallets@[a].owner@ != l2.wallets@[b].owner@ by {
        assert(l1.wallets@[a].owner@ != l1.wallets@[b].owner@);
    }
    assert forall|o: Seq<u8>| (#[trigger] l2.wallet_balance(o)) == l1.wallet_balance(o) by {
        if l1.has_wallet(o) {
            let k = l1.wallet_index(o);
            assert(0 <= k < l1.wallets@.len() && l1.wallets@[k].owner@ == o);
            lemma_wallet_index_of(l1, o, k);
            lemma_wallet_index_of(l2, o, k);
        } else {
            if l2.has_wallet(o) {
                let k = l2.wallet_index(o);
                assert(0 <= k < l2.wallets@.len() && l2.wallets@[k].owner@ == o);
                assert(l1.wallets@[k].owner@ == o);
            }
        }
    }
}

proof fn lemma_wallet_index_of(l: Ledger, owner: Seq<u8>, i: int)
    requires
        forall|a: int, b: int|
            #![trigger l.wallets@[a].owner@, l.wallets@[b].owner@]
            0 <= a < b < l.wallets@.len() ==> l.wallets@[a].owner@ != l.wallets@[b].owner@,
        0 <= i < l.wallets@.len(),
        l.wallets@[i].owner@ == owner,
    ensures
        l.has_wallet(owner),
        l.wallet_index(owner) == i,
        l.wallet_balance(owner) == l.wallets@[i].balance,
{
    assert(l.has_wallet(owner));
    let j = l.wallet_index(owner);
    if j < i {
        assert(l.wallets@[j].owner@ != l.wallets@[i].owner@);
    }
    if i < j {
        assert(l.wallets@[i].owner@ != l.wallets@[j].owner@);
    }
}

impl Ledger {
    fn find_profile(&self, owner: &Identity) -> (r: Option<usize>)
        ensures
            (match r {
                Option::Some(i) => 0 <= i < self.profiles@.len() && self.profiles@[i as int].farmer@
                    == owner@,
                Option::None => forall|k: int|
                    0 <= k < self.profiles@.len() ==> (#[trigger] self.profiles@[k].farmer@)
                        != owner@,
            }),
    {
        let mut i: usize = 0;
        while i < self.profiles.len()
            invariant
                i <= self.profiles@.len(),
                forall|k: int| 0 <= k < i ==> (#[trigger] self.profiles@[k].farmer@) != owner@,
            decreases self.profiles@.len() - i,
        {
            if self.profiles[i].farmer.same_as(owner) {
                return Some(i);
            }
            i += 1;
        }
        None
    }

    fn find_product(&self, owner: &Identity, created_at: i64) -> (r: Option<usize>)
        ensures
            (match r {
                Option::Some(i) => 0 <= i < self.products@.len() && self.products@[i as int].farmer@
                    == owner@ && self.products@[i as int].created_at == created_at,
                Option::None => forall|k: int|
                    0 <= k < self.products@.len() ==> !((#[trigger] self.products@[k]).farmer@
                        == owner@ && self.products@[k].created_at == created_at),
            }),
    {
        let mut i: usize = 0;
        while i < self.products.len()
            invariant
                i <= self.products@.len(),
                forall|k: int|
                    0 <= k < i ==> !((#[trigger] self.products@[k]).farmer@ == owner@
                        && self.products@[k].created_at == created_at),
            decreases self.products@.len() - i,
        {
            if self.products[i].farmer.same_as(owner) && self.products[i].created_at == created_at {
                return Some(i);
            }
            i += 1;
        }
        None
    }

    fn find_campaign(&self, owner: &Identity, created_at: i64) -> (r: Option<usize>)
        ensures
            (match r {
                Option::Some(i) => 0 <= i < self.campaigns@.len() && self.campaigns@[
                    i as int
                ].farmer@ == owner@ && self.campaigns@[i as int].created_at == created_at,
                Option::None => forall|k: int|
                    0 <= k < self.campaigns@.len() ==> !((#[trigger] self.campaigns@[k]).farmer@
                        == owner@ && self.campaigns@[k].created_at == created_at),
            }),
    {
        let mut i: usize = 0;
        while i < self.campaigns.len()
            invariant
                i <= self.campaigns@.len(),
                forall|k: int|
                    0 <= k < i ==> !((#[trigger] self.campaigns@[k]).farmer@ == owner@
                        && self.campaigns@[k].created_at == created_at),
            decreases self.campaigns@.len() - i,
        {
            if self.campaigns[i].farmer.same_as(owner) && self.campaigns[i].created_at
                == created_at {
                return Some(i);
            }
            i += 1;
        }
        None
    }

    fn find_wallet(&self, owner: &Identity) -> (r: Option<usize>)
        ensures
            (match r {
                Option::Some(i) => 0 <= i < self.wallets@.len() && self.wallets@[i as int].owner@
                    == owner@,
                Option::None => forall|k: int|
                    0 <= k < self.wallets@.len() ==> (#[trigger] self.wallets@[k].owner@) != owner@,
            }),
    {
        let mut i: usize = 0;
        while i < self.wallets.len()
            invariant
                i <= self.wallets@.len(),
                forall|k: int| 0 <= k < i ==> (#[trigger] self.wallets@[k].owner@) != owner@,
            decreases self.wallets@.len() - i,
        {
            if self.wallets[i].owner.same_as(owner) {
                return Some(i);
            }
            i += 1;
        }
        None
    }

    /// Issues `amount` new units of value to `owner`'s wallet; the one way
    /// value enters the modeled environment. Fails only when the issued
    /// total would no longer be representable.
    pub fn fund_wallet(&mut self, owner: Identity, amount: u64) -> (r: Result<(), ErrorCode>)
        requires
            old(self).wf(),
        ensures
            final(self).wf(),
            r is Ok <==> old(self).total_funds + amount <= u64::MAX,
            r is Err ==> r == Err::<(), ErrorCode>(ErrorCode::InvalidAmount) && *final(self)
                == *old(self),
            r is Ok ==> final(self).wallet_balance(owner@) == old(self).wallet_balance(owner@)
                + amount,
            r is Ok ==> final(self).total_funds == old(self).total_funds + amount,
            r is Ok ==> forall|o: Seq<u8>|
                o != owner@ ==> (#[trigger] final(self).wallet_balance(o)) == old(
                    self,
                ).wallet_balance(o),
            final(self).profiles == old(self).profiles,
            final(self).products == old(self).products,
            final(self).campaigns == old(self).campaigns,
            final(self).vaults == old(self).vaults,
    {
        if amount > u64::MAX - self.total_funds {
            return Err(ErrorCode::InvalidAmount);
        }
        let ghost l0 = *self;
        match self.find_wallet(&owner) {
            Option::Some(w) => {
                let wa = self.wallets[w];
                proof {
                    lemma_wallet_index_of(l0, owner@, w as int);
                    lemma_wallet_total_elem(l0.wallets@, w as int);
                    lemma_vault_total_nonneg(l0.vaults@);
                }
                self.wallets[w] = WalletAccount { owner: wa.owner, balance: wa.balance + amount };
                self.total_funds = self.total_funds + amount;
                proof {
                    lemma_wallet_total_update(
                        l0.wallets@,
                        w as int,
                        self.wallets@[w as int],
                    );
                    assert forall|a: int, b: int|
                        #![trigger self.wallets@[a].owner@, self.wallets@[b].owner@]
                        0 <= a < b < self.wallets@.len() implies self.wallets@[a].owner@
                        != self.wallets@[b].owner@ by {
                        assert(l0.wallets@[a].owner@ != l0.wallets@[b].owner@);
                    }
                    lemma_wallet_index_of(*self, owner@, w as int);
                    assert forall|o: Seq<u8>| o != owner@ implies (#[trigger] self.wallet_balance(
                        o,
                    )) == l0.wallet_balance(o) by {
                        if l0.has_wallet(o) {
                            let k = l0.wallet_index(o);
                            lemma_wallet_index_of(l0, o, k);
                            lemma_wallet_index_of(*self, o, k);
                        } else {
                            if self.has_wallet(o) {
                                let k = self.wallet_index(o);
                                assert(l0.wallets@[k].owner@ == o);
                            }
                        }
                    }
                }
                Ok(())
            },
            Option::None => {
                proof {
                    lemma_wallet_total_nonneg(l0.wallets@);
                    lemma_vault_total_nonneg(l0.vaults@);
                }
                self.wallets.push(WalletAccount { owner, balance: amount });
                self.total_funds = self.total_funds + amount;
                proof {
                    lemma_wallet_total_push(
                        l0.wallets@,
                        (WalletAccount { owner, balance: amount }),
                    );
                    let n = l0.wallets@.len() as int;
                    assert forall|a: int, b: int|
                        #![trigger self.wallets@[a].owner@, self.wallets@[b].owner@]
                        0 <= a < b < self.wallets@.len() implies self.wallets@[a].owner@
                        != self.wallets@[b].owner@ by {
                        if b < n {
                            assert(l0.wallets@[a].owner@ != l0.wallets@[b].owner@);
                        } else {
                            assert(l0.wallets@[a].owner@ != owner@);
                        }
                    }
                    lemma_wallet_index_of(*self, owner@, n);
                    assert(!l0.has_wallet(owner@));
                    assert forall|o: Seq<u8>| o != owner@ implies (#[trigger] self.wallet_balance(
                        o,
                    )) == l0.wallet_balance(o) by {
                        if l0.has_wallet(o) {
                            let k = l0.wallet_index(o);
                            lemma_wallet_index_of(l0, o, k);
                            lemma_wallet_index_of(*self, o, k);
                        } else {
                            if self.has_wallet(o) {
                                let k = self.wallet_index(o);
                                assert(0 <= k < self.wallets@.len());
                                assert(self.wallets@[k].owner@ == o);
                                assert(k == n);
                            }
                        }
                    }
                }
                Ok(())
            },
        }
    }

    /// The first registration call of an identity; fails when a profile
    /// already occupies the derived address.
    pub fn initialize_farmer(
        &mut self,
        farmer: Identity,
        encrypted_data: String,
        public_name: String,
        region: String,
        certifications: Vec<String>,
        now: i64,
    ) -> (r: Result<(), ErrorCode>)
        requires
            old(self).wf(),
        ensures
            final(self).wf(),
            r is Ok <==> !old(self).has_profile(farmer@),
            r is Err ==> r == Err::<(), ErrorCode>(ErrorCode::AlreadyExists) && *final(self)
                == *old(self),
            r is Ok ==> final(self).profiles@ == old(self).profiles@.push(
                fresh_profile(farmer, encrypted_data, public_name, region, certifications, now),
            ),
            final(self).products == old(self).products,
            final(self).campaigns == old(self).campaigns,
            final(self).vaults == old(self).vaults,
            final(self).wallets == old(self).wallets,
            final(self).total_funds == old(self).total_funds,
    {
        let ghost l0 = *self;
        match self.find_profile(&farmer) {
            Option::Some(i) => {
                proof {
                    lemma_profile_index_of(l0, farmer@, i as int);
                }
                Err(ErrorCode::AlreadyExists)
            },
            Option::None => {
                let p = FarmerProfile::register(
                    farmer,
                    encrypted_data,
                    public_name,
                    region,
                    certifications,
                    now,
                );
                self.profiles.push(p);
                proof {
                    let n = l0.profiles@.len() as int;
                    assert forall|k: int|
                        0 <= k < l0.products@.len() implies (#[trigger] l0.products@[k].farmer@)
                        != farmer@ by {
                        if l0.products@[k].farmer@ == farmer@ {
                            assert(l0.has_profile(farmer@));
                        }
                    }
                    lemma_owned_products_absent(l0.products@, farmer@);
                    assert forall|a: int, b: int|
                        #![trigger self.profiles@[a].farmer@, self.profiles@[b].farmer@]
                        0 <= a < b < self.profiles@.len() implies self.profiles@[a].farmer@
                        != self.profiles@[b].farmer@ by {
                        if b < n {
                            assert(l0.profiles@[a].farmer@ != l0.profiles@[b].farmer@);
                        } else {
                            assert(l0.profiles@[a].farmer@ != farmer@);
                        }
                    }
                    assert forall|k: int|
                        0 <= k < self.products@.len() implies self.has_profile(
                        (#[trigger] self.products@[k]).farmer@,
                    ) by {
                        assert(l0.has_profile(l0.products@[k].farmer@));
                        let w = l0.profile_index(l0.products@[k].farmer@);
                        assert(self.profiles@[w].farmer@ == l0.products@[k].farmer@);
                    }
                }
                Ok(())
            },
        }
    }

    /// Replaces each present optional field of the addressed profile; only
    /// the profile's owning identity may update it.
    pub fn update_farmer_profile(
        &mut self,
        caller: Identity,
        profile_owner: Identity,
        encrypted_data: Option<String>,
        public_name: Option<String>,
        region: Option<String>,
        certifications: Option<Vec<String>>,
        now: i64,
    ) -> (r: Result<(), ErrorCode>)
        requires
            old(self).wf(),
        ensures
            final(self).wf(),
            !old(self).has_profile(profile_owner@) ==> r == Err::<(), ErrorCode>(
                ErrorCode::NotFound,
            ) && *final(self) == *old(self),
            old(self).has_profile(profile_owner@) && caller@ != profile_owner@ ==> r == Err::<
                (),
                ErrorCode,
            >(ErrorCode::UnauthorizedFarmer) && *final(self) == *old(self),
            r is Ok <==> (old(self).has_profile(profile_owner@) && caller@ == profile_owner@),
            r is Ok ==> final(self).profiles@ == old(self).profiles@.update(
                old(self).profile_index(profile_owner@),
                profile_with_update(
                    old(self).profile_at(profile_owner@),
                    encrypted_data,
                    public_name,
                    region,
                    certifications,
                    now,
                ),
            ),
            final(self).products == old(self).products,
            final(self).campaigns == old(self).campaigns,
            final(self).vaults == old(self).vaults,
            final(self).wallets == old(self).wallets,
            final(self).total_funds == old(self).total_funds,
    {
        let ghost l0 = *self;
        let idx = match self.find_profile(&profile_owner) {
            Option::None => {
                return Err(ErrorCode::NotFound);
            },
            Option::Some(i) => i,
        };
        proof {
            lemma_profile_index_of(l0, profile_owner@, idx as int);
        }
        if !caller.same_as(&profile_owner) {
            return Err(ErrorCode::UnauthorizedFarmer);
        }
        let mut p = self.profiles.remove(idx);
        let res = p.apply_update(
            &caller,
            encrypted_data,
            public_name,
            region,
            certifications,
            now,
        );
        self.profiles.insert(idx, p);
        proof {
            assert(res is Ok);
            assert(self.profiles@ =~= l0.profiles@.update(
                idx as int,
                self.profiles@[idx as int],
            ));
            assert forall|a: int, b: int|
                #![trigger self.profiles@[a].farmer@, self.profiles@[b].farmer@]
                0 <= a < b < self.profiles@.len() implies self.profiles@[a].farmer@
                != self.profiles@[b].farmer@ by {
                assert(l0.profiles@[a].farmer@ != l0.profiles@[b].farmer@);
                assert(self.profiles@[a].farmer@ == l0.profiles@[a].farmer@);
                assert(self.profiles@[b].farmer@ == l0.profiles@[b].farmer@);
            }
            assert forall|k: int|
                0 <= k < self.products@.len() implies self.has_profile(
                (#[trigger] self.products@[k]).farmer@,
            ) by {
                assert(l0.has_profile(l0.products@[k].farmer@));
                let w = l0.profile_index(l0.products@[k].farmer@);
                assert(self.profiles@[w].farmer@ == l0.products@[k].farmer@);
            }
        }
        Ok(())
    }

    /// Creates a new farming cycle for `farmer` and, in the same atomic
    /// step, raises the owning profile's product counter; fails with the
    /// record store untouched when the caller has no profile or a product
    /// already occupies the derived address.
    pub fn create_product(
        &mut self,
        farmer: Identity,
        product_name: String,
        category: String,
        description: String,
        estimated_harvest_date: i64,
        estimated_quantity: u64,
        firebase_image_urls: Vec<String>,
        now: i64,
    ) -> (r: Result<(), ErrorCode>)
        requires
            old(self).wf(),
        ensures
            final(self).wf(),
            !old(self).has_profile(farmer@) ==> r == Err::<(), ErrorCode>(ErrorCode::NotFound)
                && *final(self) == *old(self),
            old(self).has_profile(farmer@) && old(self).has_product(farmer@, now) ==> r == Err::<
                (),
                ErrorCode,
            >(ErrorCode::AlreadyExists) && *final(self) == *old(self),
            r is Ok <==> (old(self).has_profile(farmer@) && !old(self).has_product(farmer@, now)),
            r is Ok ==> ({
                let p = final(self).products@.last();
                &&& final(self).products@ == old(self).products@.push(p)
                &&& p.product_id@ == crate::ids::record_id_of(farmer@, now)
                &&& p.farmer == farmer
                &&& p.product_name == product_name
                &&& p.category == category
                &&& p.description == description
                &&& p.estimated_harvest_date == estimated_harvest_date
                &&& p.estimated_quantity == estimated_quantity
                &&& p.actual_quantity == 0
                &&& p.firebase_image_urls == firebase_image_urls
                &&& p.growth_updates@.len() == 0
                &&& p.delivery_updates@.len() == 0
                &&& p.created_at == now
                &&& p.updated_at == now
            }),
            r is Ok ==> ({
                let i = old(self).profile_index(farmer@);
                let f0 = old(self).profiles@[i];
                let f1 = final(self).profiles@[i];
                &&& final(self).profiles@ == old(self).profiles@.update(i, f1)
                &&& f1.farmer == f0.farmer
                &&& f1.encrypted_data == f0.encrypted_data
                &&& f1.public_name == f0.public_name
                &&& f1.region == f0.region
                &&& f1.certifications == f0.certifications
                &&& f1.verification_status == f0.verification_status
                &&& f1.reputation_score == f0.reputation_score
                &&& f1.total_products == f0.total_products + 1
                &&& f1.created_at == f0.created_at
                &&& f1.updated_at == now
            }),
            final(self).campaigns == old(self).campaigns,
            final(self).vaults == old(self).vaults,
            final(self).wallets == old(self).wallets,
            final(self).total_funds == old(self).total_funds,
    {
        let ghost l0 = *self;
        let idx = match self.find_profile(&farmer) {
            Option::None => {
                return Err(ErrorCode::NotFound);
            },
            Option::Some(i) => i,
        };
        proof {
            lemma_profile_index_of(l0, farmer@, idx as int);
        }
        match self.find_product(&farmer, now) {
            Option::Some(k) => {
                proof {
                    lemma_product_index_of(l0, farmer@, now, k as int);
                }
                return Err(ErrorCode::AlreadyExists);
            },
            Option::None => {},
        }
        let p = ProductCycle::create(
            farmer,
            product_name,
            category,
            description,
            estimated_harvest_date,
            estimated_quantity,
            firebase_image_urls,
            now,
        );
        self.products.push(p);
        let n_products = self.products.len();
        let mut prof = self.profiles.remove(idx);
        proof {
            assert(l0.products@.len() == n_products - 1);
            lemma_owned_products_bound(l0.products@, farmer@);
            assert(usize::MAX <= u64::MAX);
            assert(prof.total_products < u64::MAX);
        }
        prof.total_products = prof.total_products + 1;
        prof.updated_at = now;
        self.profiles.insert(idx, prof);
        proof {
            let n = l0.products@.len() as int;
            assert(self.products@ == l0.products@.push(self.products@[n]));
            assert(self.profiles@ =~= l0.profiles@.update(
                idx as int,
                self.profiles@[idx as int],
            ));
            // product addresses stay unique: the new address was free
            assert forall|a: int, b: int|
                #![trigger self.products@[a], self.products@[b]]
                0 <= a < b < self.products@.len() implies !(self.products@[a].farmer@
                == self.products@[b].farmer@ && self.products@[a].created_at
                == self.products@[b].created_at) by {
                if b < n {
                    assert(!(l0.products@[a].farmer@ == l0.products@[b].farmer@
                        && l0.products@[a].created_at == l0.products@[b].created_at));
                } else {
                    assert(!(l0.products@[a].farmer@ == farmer@ && l0.products@[a].created_at
                        == now));
                }
            }
            // every profile's counter still counts its products
            lemma_owned_products_push(l0.products@, self.products@[n], farmer@);
            assert forall|k: int|
                0 <= k < self.profiles@.len() implies (#[trigger] self.profiles@[k]).total_products
                == owned_products(self.products@, self.profiles@[k].farmer@) by {
                if k == idx as int {
                    lemma_owned_products_push(l0.products@, self.products@[n], farmer@);
                } else {
                    assert(l0.profiles@[k].total_products == owned_products(
                        l0.products@,
                        l0.profiles@[k].farmer@,
                    ));
                    if (idx as int) < k {
                        assert(l0.profiles@[idx as int].farmer@ != l0.profiles@[k].farmer@);
                    }
                    if k < idx as int {
                        assert(l0.profiles@[k].farmer@ != l0.profiles@[idx as int].farmer@);
                    }
                    lemma_owned_products_push(
                        l0.products@,
                        self.products@[n],
                        l0.profiles@[k].farmer@,
                    );
                }
            }
            assert forall|a: int, b: int|
                #![trigger self.profiles@[a].farmer@, self.profiles@[b].farmer@]
                0 <= a < b < self.profiles@.len() implies self.profiles@[a].farmer@
                != self.profiles@[b].farmer@ by {
                assert(l0.profiles@[a].farmer@ != l0.profiles@[b].farmer@);
                assert(self.profiles@[a].farmer@ == l0.profiles@[a].farmer@);
                assert(self.profiles@[b].farmer@ == l0.profiles@[b].farmer@);
            }
            // every product's owner is still registered
            assert forall|k: int|
                0 <= k < self.products@.len() implies self.has_profile(
                (#[trigger] self.products@[k]).farmer@,
            ) by {
                if k < n {
                    assert(l0.has_profile(l0.products@[k].farmer@));
                    let w = l0.profile_index(l0.products@[k].farmer@);
                    assert(self.profiles@[w].farmer@ == l0.products@[k].farmer@);
                } else {
                    assert(self.profiles@[idx as int].farmer@ == farmer@);
                }
            }
        }
        Ok(())
    }

    /// Appends one growth entry to the addressed product's log; owner
    /// only, and nothing already logged moves or disappears.
    pub fn add_growth_update(
        &mut self,
        caller: Identity,
        product_owner: Identity,
        product_created_at: i64,
        stage: GrowthStage,
        notes: String,
        firebase_image_urls: Vec<String>,
        now: i64,
    ) -> (r: Result<(), ErrorCode>)
        requires
            old(self).wf(),
        ensures
            final(self).wf(),
            !old(self).has_product(product_owner@, product_created_at) ==> r == Err::<
                (),
                ErrorCode,
            >(ErrorCode::NotFound) && *final(self) == *old(self),
            old(self).has_product(product_owner@, product_created_at) && caller@ != product_owner@
                ==> r == Err::<(), ErrorCode>(ErrorCode::UnauthorizedFarmer) && *final(self)
                == *old(self),
            r is Ok <==> (old(self).has_product(product_owner@, product_created_at) && caller@
                == product_owner@),
            r is Ok ==> ({
                let i = old(self).product_index(product_owner@, product_created_at);
                let p0 = old(self).products@[i];
                let p1 = final(self).products@[i];
                &&& final(self).products@ == old(self).products@.update(i, p1)
                &&& same_product_core(p0, p1)
                &&& p1.growth_updates@ == p0.growth_updates@.push(
                    (GrowthUpdate { stage, timestamp: now, notes, firebase_image_urls }),
                )
                &&& p1.delivery_updates == p0.delivery_updates
                &&& p1.actual_quantity == p0.actual_quantity
                &&& p1.updated_at == now
            }),
            final(self).profiles == old(self).profiles,
            final(self).campaigns == old(self).campaigns,
            final(self).vaults == old(self).vaults,
            final(self).wallets == old(self).wallets,
            final(self).total_funds == old(self).total_funds,
    {
        let ghost l0 = *self;
        let idx = match self.find_product(&product_owner, product_created_at) {
            Option::None => {
                return Err(ErrorCode::NotFound);
            },
            Option::Some(i) => i,
        };
        proof {
            lemma_product_index_of(l0, product_owner@, product_created_at, idx as int);
        }
        if !caller.same_as(&product_owner) {
            return Err(ErrorCode::UnauthorizedFarmer);
        }
        let mut p = self.products.remove(idx);
        let res = p.push_growth_update(&caller, stage, notes, firebase_image_urls, now);
        self.products.insert(idx, p);
        proof {
            assert(res is Ok);
            self.lemma_product_update_wf(l0, idx as int);
        }
        Ok(())
    }

    /// Overwrites the addressed product's actual quantity; owner only,
    /// callable repeatedly, no monotonicity.
    pub fn update_actual_quantity(
        &mut self,
        caller: Identity,
        product_owner: Identity,
        product_created_at: i64,
        actual_quantity: u64,
        now: i64,
    ) -> (r: Result<(), ErrorCode>)
        requires
            old(self).wf(),
        ensures
            final(self).wf(),
            !old(self).has_product(product_owner@, product_created_at) ==> r == Err::<
                (),
                ErrorCode,
            >(ErrorCode::NotFound) && *final(self) == *old(self),
            old(self).has_product(product_owner@, product_created_at) && caller@ != product_owner@
                ==> r == Err::<(), ErrorCode>(ErrorCode::UnauthorizedFarmer) && *final(self)
                == *old(self),
            r is Ok <==> (old(self).has_product(product_owner@, product_created_at) && caller@
                == product_owner@),
            r is Ok ==> ({
                let i = old(self).product_index(product_owner@, product_created_at);
                let p0 = old(self).products@[i];
                let p1 = final(self).products@[i];
                &&& final(self).products@ == old(self).products@.update(i, p1)
                &&& same_product_core(p0, p1)
                &&& p1.growth_updates == p0.growth_updates
                &&& p1.delivery_updates == p0.delivery_updates
                &&& p1.actual_quantity == actual_quantity
                &&& p1.updated_at == now
            }),
            final(self).profiles == old(self).profiles,
            final(self).campaigns == old(self).campaigns,
            final(self).vaults == old(self).vaults,
            final(self).wallets == old(self).wallets,
            final(self).total_funds == old(self).total_funds,
    {
        let ghost l0 = *self;
        let idx = match self.find_product(&product_owner, product_created_at) {
            Option::None => {
                return Err(ErrorCode::NotFound);
            },
            Option::Some(i) => i,
        };
        proof {
            lemma_product_index_of(l0, product_owner@, product_created_at, idx as int);
        }
        if !caller.same_as(&product_owner) {
            return Err(ErrorCode::UnauthorizedFarmer);
        }
        let mut p = self.products.remove(idx);
        let res = p.set_actual_quantity(&caller, actual_quantity, now);
        self.products.insert(idx, p);
        proof {
            assert(res is Ok);
            self.lemma_product_update_wf(l0, idx as int);
        }
        Ok(())
    }

    /// Appends one delivery entry to the addressed product's log; owner
    /// only, same append-only semantics as the growth log.
    pub fn add_delivery_update(
        &mut self,
        caller: Identity,
        product_owner: Identity,
        product_created_at: i64,
        status: DeliveryStatus,
        notes: String,
        location: Option<String>,
        now: i64,
    ) -> (r: Result<(), ErrorCode>)
        requires
            old(self).wf(),
        ensures
            final(self).wf(),
            !old(self).has_product(product_owner@, product_created_at) ==> r == Err::<
                (),
                ErrorCode,
            >(ErrorCode::NotFound) && *final(self) == *old(self),
            old(self).has_product(product_owner@, product_created_at) && caller@ != product_owner@
                ==> r == Err::<(), ErrorCode>(ErrorCode::UnauthorizedFarmer) && *final(self)
                == *old(self),
            r is Ok <==> (old(self).has_product(product_owner@, product_created_at) && caller@
                == product_owner@),
            r is Ok ==> ({
                let i = old(self).product_index(product_owner@, product_created_at);
                let p0 = old(self).products@[i];
                let p1 = final(self).products@[i];
                &&& final(self).products@ == old(self).products@.update(i, p1)
                &&& same_product_core(p0, p1)
                &&& p1.delivery_updates@ == p0.delivery_updates@.push(
                    (DeliveryUpdate { status, timestamp: now, notes, location }),
                )
                &&& p1.growth_updates == p0.growth_updates
                &&& p1.actual_quantity == p0.actual_quantity
                &&& p1.updated_at == now
            }),
            final(self).profiles == old(self).profiles,
            final(self).campaigns == old(self).campaigns,
            final(self).vaults == old(self).vaults,
            final(self).wallets == old(self).wallets,
            final(self).total_funds == old(self).total_funds,
    {
        let ghost l0 = *self;
        let idx = match self.find_product(&product_owner, product_created_at) {
            Option::None => {
                return Err(ErrorCode::NotFound);
            },
            Option::Some(i) => i,
        };
        proof {
            lemma_product_index_of(l0, product_owner@, product_created_at, idx as int);
        }
        if !caller.same_as(&product_owner) {
            return Err(ErrorCode::UnauthorizedFarmer);
        }
        let mut p = self.products.remove(idx);
        let res = p.push_delivery_update(&caller, status, notes, location, now);
        self.products.insert(idx, p);
        proof {
            assert(res is Ok);
            self.lemma_product_update_wf(l0, idx as int);
        }
        Ok(())
    }

    /// Re-establishes well-formedness after one product was replaced in
    /// place by a record with the same address and owner.
    proof fn lemma_product_update_wf(self, l0: Ledger, i: int)
        requires
            l0.wf(),
            0 <= i < l0.products@.len(),
            self.products@ =~= l0.products@.update(i, self.products@[i]),
            same_product_core(l0.products@[i], self.products@[i]),
            self.profiles == l0.profiles,
            self.campaigns == l0.campaigns,
            self.vaults == l0.vaults,
            self.wallets == l0.wallets,
            self.total_funds == l0.total_funds,
        ensures
            self.wf(),
            self.products@ == l0.products@.update(i, self.products@[i]),
    {
        assert forall|a: int, b: int|
            #![trigger self.products@[a], self.products@[b]]
            0 <= a < b < self.products@.len() implies !(self.products@[a].farmer@
            == self.products@[b].farmer@ && self.products@[a].created_at
            == self.products@[b].created_at) by {
            assert(!(l0.products@[a].farmer@ == l0.products@[b].farmer@
                && l0.products@[a].created_at == l0.products@[b].created_at));
        }
        assert forall|k: int|
            0 <= k < self.profiles@.len() implies (#[trigger] self.profiles@[k]).total_products
            == owned_products(self.products@, self.profiles@[k].farmer@) by {
            assert(l0.profiles@[k].total_products == owned_products(
                l0.products@,
                l0.profiles@[k].farmer@,
            ));
            lemma_owned_products_update(
                l0.products@,
                i,
                self.products@[i],
                l0.profiles@[k].farmer@,
            );
        }
        assert forall|k: int|
            0 <= k < self.products@.len() implies self.has_profile(
            (#[trigger] self.products@[k]).farmer@,
        ) by {
            assert(l0.has_profile(l0.products@[k].farmer@));
            let w = l0.profile_index(l0.products@[k].farmer@);
            assert(self.profiles@[w].farmer@ == l0.products@[k].farmer@);
            assert(self.products@[k].farmer@ == l0.products@[k].farmer@);
        }
    }

    /// Opens a fundraising campaign for `farmer` and designates a fresh,
    /// empty custody account for it; no profile is required, and the goal
    /// and deadline are accepted exactly as given. Fails only when a
    /// campaign already occupies the derived address.
    pub fn create_crowdfunding_campaign(
        &mut self,
        farmer: Identity,
        title: String,
        description: String,
        goal_amount: u64,
        deadline: i64,
        campaign_type: CampaignType,
        milestones: Vec<String>,
        now: i64,
    ) -> (r: Result<(), ErrorCode>)
        requires
            old(self).wf(),
        ensures
            final(self).wf(),
            r is Ok <==> !old(self).has_campaign(farmer@, now),
            r is Err ==> r == Err::<(), ErrorCode>(ErrorCode::AlreadyExists) && *final(self)
                == *old(self),
            r is Ok ==> ({
                let c = final(self).campaigns@.last();
                &&& final(self).campaigns@ == old(self).campaigns@.push(c)
                &&& final(self).vaults@ == old(self).vaults@.push(0u64)
                &&& c.campaign_id@ == crate::ids::record_id_of(farmer@, now)
                &&& c.farmer == farmer
                &&& c.title == title
                &&& c.description == description
                &&& c.goal_amount == goal_amount
                &&& c.current_amount == 0
                &&& c.deadline == deadline
                &&& c.campaign_type == campaign_type
                &&& c.milestones == milestones
                &&& c.contributors@.len() == 0
                &&& c.is_active
                &&& c.created_at == now
                &&& c.updated_at == now
            }),
            final(self).profiles == old(self).profiles,
            final(self).products == old(self).products,
            final(self).wallets == old(self).wallets,
            final(self).total_funds == old(self).total_funds,
    {
        let ghost l0 = *self;
        match self.find_campaign(&farmer, now) {
            Option::Some(i) => {
                proof {
                    lemma_campaign_index_of(l0, farmer@, now, i as int);
                }
                return Err(ErrorCode::AlreadyExists);
            },
            Option::None => {},
        }
        let c = CrowdfundingCampaign::create(
            farmer,
            title,
            description,
            goal_amount,
            deadline,
            campaign_type,
            milestones,
            now,
        );
        self.campaigns.push(c);
        self.vaults.push(0u64);
        proof {
            let n = l0.campaigns@.len() as int;
            lemma_vault_total_push(l0.vaults@, 0u64);
            assert forall|a: int, b: int|
                #![trigger self.campaigns@[a], self.campaigns@[b]]
                0 <= a < b < self.campaigns@.len() implies !(self.campaigns@[a].farmer@
                == self.campaigns@[b].farmer@ && self.campaigns@[a].created_at
                == self.campaigns@[b].created_at) by {
                if b < n {
                    assert(!(l0.campaigns@[a].farmer@ == l0.campaigns@[b].farmer@
                        && l0.campaigns@[a].created_at == l0.campaigns@[b].created_at));
                } else {
                    assert(!(l0.campaigns@[a].farmer@ == farmer@ && l0.campaigns@[a].created_at
                        == now));
                }
            }
            assert forall|k: int|
                0 <= k < self.campaigns@.len() implies (#[trigger] self.vaults@[k])
                == self.campaigns@[k].current_amount by {
                if k < n {
                    assert(l0.vaults@[k] == l0.campaigns@[k].current_amount);
                }
            }
            assert forall|k: int|
                0 <= k < self.campaigns@.len() implies campaign_ok(
                #[trigger] self.campaigns@[k],
            ) by {
                if k < n {
                    assert(campaign_ok(l0.campaigns@[k]));
                } else {
                    assert(contributions_total(self.campaigns@[k].contributors@) == 0);
                }
            }
        }
        Ok(())
    }

    /// Moves `amount` from the contributor's wallet into the campaign's
    /// custody account and books the contribution, as one atomic unit: if
    /// the transfer cannot be funded, no state changes at all. The issued
    /// total is conserved. Deliberately, neither a closed campaign nor a
    /// passed deadline is refused, so `CampaignNotActive` and
    /// `CampaignDeadlineExceeded` are never produced.
    pub fn contribute_to_campaign(
        &mut self,
        contributor: Identity,
        campaign_owner: Identity,
        campaign_created_at: i64,
        amount: u64,
        now: i64,
    ) -> (r: Result<(), ErrorCode>)
        requires
            old(self).wf(),
        ensures
            final(self).wf(),
            !old(self).has_campaign(campaign_owner@, campaign_created_at) ==> r == Err::<
                (),
                ErrorCode,
            >(ErrorCode::NotFound) && *final(self) == *old(self),
            old(self).has_campaign(campaign_owner@, campaign_created_at) && old(
                self,
            ).wallet_balance(contributor@) < amount ==> r == Err::<(), ErrorCode>(
                ErrorCode::TransferFailed,
            ) && *final(self) == *old(self),
            r is Ok <==> (old(self).has_campaign(campaign_owner@, campaign_created_at) && old(
                self,
            ).wallet_balance(contributor@) >= amount),
            // the declared-but-unenforced refusals: a closed campaign and a
            // passed deadline never block a contribution
            r != Err::<(), ErrorCode>(ErrorCode::CampaignNotActive),
            r != Err::<(), ErrorCode>(ErrorCode::CampaignDeadlineExceeded),
            r is Ok ==> ({
                let i = old(self).campaign_index(campaign_owner@, campaign_created_at);
                let c0 = old(self).campaigns@[i];
                let c1 = final(self).campaigns@[i];
                &&& final(self).campaigns@ == old(self).campaigns@.update(i, c1)
                &&& same_campaign_core(c0, c1)
                &&& c1.contributors@ == c0.contributors@.push(
                    (Contributor { wallet: contributor, amount, timestamp: now }),
                )
                &&& c1.current_amount == c0.current_amount + amount
                &&& c1.is_active == (c0.is_active && c1.current_amount < c1.goal_amount)
                &&& c1.updated_at == now
                &&& final(self).vaults@ == old(self).vaults@.update(i, c1.current_amount)
            }),
            r is Ok ==> final(self).wallet_balance(contributor@) == old(self).wallet_balance(
                contributor@,
            ) - amount,
            r is Ok ==> forall|o: Seq<u8>|
                o != contributor@ ==> (#[trigger] final(self).wallet_balance(o)) == old(
                    self,
                ).wallet_balance(o),
            final(self).profiles == old(self).profiles,
            final(self).products == old(self).products,
            final(self).total_funds == old(self).total_funds,
    {
        let ghost l0 = *self;
        let idx = match self.find_campaign(&campaign_owner, campaign_created_at) {
            Option::None => {
                return Err(ErrorCode::NotFound);
            },
            Option::Some(i) => i,
        };
        proof {
            lemma_campaign_index_of(l0, campaign_owner@, campaign_created_at, idx as int);
            lemma_vault_total_elem(l0.vaults@, idx as int);
            lemma_wallet_total_nonneg(l0.wallets@);
            lemma_vault_total_nonneg(l0.vaults@);
        }
        // the value-transfer step: debit the contributor's wallet
        match self.find_wallet(&contributor) {
            Option::Some(w) => {
                let wa = self.wallets[w];
                proof {
                    lemma_wallet_index_of(l0, contributor@, w as int);
                    lemma_wallet_total_elem(l0.wallets@, w as int);
                }
                if wa.balance < amount {
                    return Err(ErrorCode::TransferFailed);
                }
                self.wallets[w] = WalletAccount { owner: wa.owner, balance: wa.balance - amount };
                proof {
                    lemma_wallet_total_update(
                        l0.wallets@,
                        w as int,
                        self.wallets@[w as int],
                    );
                    assert forall|a: int, b: int|
                        #![trigger self.wallets@[a].owner@, self.wallets@[b].owner@]
                        0 <= a < b < self.wallets@.len() implies self.wallets@[a].owner@
                        != self.wallets@[b].owner@ by {
                        assert(l0.wallets@[a].owner@ != l0.wallets@[b].owner@);
                    }
                    lemma_wallet_index_of(*self, contributor@, w as int);
                    assert forall|o: Seq<u8>| o != contributor@ implies (
                    #[trigger] self.wallet_balance(o)) == l0.wallet_balance(o) by {
                        if l0.has_wallet(o) {
                            let k = l0.wallet_index(o);
                            lemma_wallet_index_of(l0, o, k);
                            lemma_wallet_index_of(*self, o, k);
                        } else {
                            if self.has_wallet(o) {
                                let k = self.wallet_index(o);
                                assert(l0.wallets@[k].owner@ == o);
                            }
                        }
                    }
                }
            },
            Option::None => {
                if amount > 0 {
                    return Err(ErrorCode::TransferFailed);
                }
            },
        }
        let ghost l1 = *self;
        // the booking step: append the contributor and raise the counter
        let mut c = self.campaigns.remove(idx);
        proof {
            assert(c.current_amount + amount <= l0.total_funds);
        }
        c.record_contribution(contributor, amount, now);
        self.vaults[idx] = c.current_amount;
        self.campaigns.insert(idx, c);
        proof {
            let i = idx as int;
            let c1 = self.campaigns@[i];
            assert(self.campaigns@ =~= l0.campaigns@.update(i, c1));
            assert(self.vaults@ == l0.vaults@.update(i, c1.current_amount));
            lemma_vault_total_update(l0.vaults@, i, c1.current_amount);
            assert forall|a: int, b: int|
                #![trigger self.campaigns@[a], self.campaigns@[b]]
                0 <= a < b < self.campaigns@.len() implies !(self.campaigns@[a].farmer@
                == self.campaigns@[b].farmer@ && self.campaigns@[a].created_at
                == self.campaigns@[b].created_at) by {
                assert(!(l0.campaigns@[a].farmer@ == l0.campaigns@[b].farmer@
                    && l0.campaigns@[a].created_at == l0.campaigns@[b].created_at));
            }
            assert forall|k: int|
                0 <= k < self.campaigns@.len() implies (#[trigger] self.vaults@[k])
                == self.campaigns@[k].current_amount by {
                if k != i {
                    assert(l0.vaults@[k] == l0.campaigns@[k].current_amount);
                }
            }
            assert forall|k: int|
                0 <= k < self.campaigns@.len() implies campaign_ok(
                #[trigger] self.campaigns@[k],
            ) by {
                if k != i {
                    assert(campaign_ok(l0.campaigns@[k]));
                } else {
                    assert(campaign_ok(l0.campaigns@[i]));
                }
            }
            assert forall|k: int|
                0 <= k < self.products@.len() implies self.has_profile(
                (#[trigger] self.products@[k]).farmer@,
            ) by {
                assert(l0.has_profile(l0.products@[k].farmer@));
                let w = l0.profile_index(l0.products@[k].farmer@);
                assert(self.profiles@[w].farmer@ == l0.products@[k].farmer@);
            }
            // the wallet store is exactly as the transfer step left it
            if !l0.has_wallet(contributor@) {
                lemma_wallet_state_transfer(l0, l1);
            }
            lemma_wallet_state_transfer(l1, *self);
        }
        Ok(())
    }
}

} // verus!
