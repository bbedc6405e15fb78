//! The ledger's standing guarantees, stated once over every reachable
//! state. Each holds of any well-formed [`Ledger`], and every operation
//! preserves well-formedness, so these follow any sequence of operations.

use vstd::prelude::*;

use crate::ledger::Ledger;
use crate::ledger::owned_products;
use crate::records::contributions_total;

verus! {

/// A campaign's raised counter always equals the exact sum of its recorded
/// contribution amounts, and its custody account holds exactly that value:
/// the escrow is reconcilable at every moment, after any sequence of
/// contributions.
pub proof fn lemma_escrow_reconciled(l: Ledger, i: int)
    requires
        l.wf(),
        0 <= i < l.campaigns@.len(),
    ensures
        l.campaigns@[i].current_amount == contributions_total(l.campaigns@[i].contributors@),
        l.vaults@[i] == l.campaigns@[i].current_amount,
{
}

/// Once a recorded contribution has carried a campaign's total to its
/// goal, the campaign reads as inactive, and stays so no matter how many
/// further contributions are booked (which are still accepted and still
/// raise the total). The one state this does not cover is a campaign
/// whose goal is already met at creation, before any contribution exists:
/// it is created active and stays active until the first booking.
pub proof fn lemma_goal_reached_deactivates(l: Ledger, i: int)
    requires
        l.wf(),
        0 <= i < l.campaigns@.len(),
        l.campaigns@[i].current_amount >= l.campaigns@[i].goal_amount,
        l.campaigns@[i].contributors@.len() > 0,
    ensures
        !l.campaigns@[i].is_active,
{
}

/// Conversely, an inactive campaign is one whose goal was reached: the
/// active flag never goes down for any other reason.
pub proof fn lemma_inactive_means_goal_reached(l: Ledger, i: int)
    requires
        l.wf(),
        0 <= i < l.campaigns@.len(),
        !l.campaigns@[i].is_active,
    ensures
        l.campaigns@[i].current_amount >= l.campaigns@[i].goal_amount,
{
}

/// Two distinct stored products never share a derived address: creations
/// by the same identity carry distinct creation timestamps, which is what
/// keeps their derived identifiers apart.
pub proof fn lemma_product_addresses_distinct(l: Ledger, i: int, j: int)
    requires
        l.wf(),
        0 <= i < l.products@.len(),
        0 <= j < l.products@.len(),
        i != j,
        l.products@[i].farmer@ == l.products@[j].farmer@,
    ensures
        l.products@[i].created_at != l.products@[j].created_at,
{
    if i < j {
        assert(!(l.products@[i].farmer@ == l.products@[j].farmer@ && l.products@[i].created_at
            == l.products@[j].created_at));
    } else {
        assert(!(l.products@[j].farmer@ == l.products@[i].farmer@ && l.products@[j].created_at
            == l.products@[i].created_at));
    }
}

/// A profile's denormalized product counter always equals the number of
/// products its identity owns in the store.
pub proof fn lemma_product_counter_exact(l: Ledger, i: int)
    requires
        l.wf(),
        0 <= i < l.profiles@.len(),
    ensures
        l.profiles@[i].total_products == owned_products(l.products@, l.profiles@[i].farmer@),
{
}

/// The issued value is fully accounted for: wallets and custody accounts
/// together hold exactly what was issued, so no contribution can mint or
/// destroy funds.
pub proof fn lemma_value_conserved(l: Ledger)
    requires
        l.wf(),
    ensures
        l.total_funds == crate::ledger::wallet_total(l.wallets@) + crate::ledger::vault_total(
            l.vaults@,
        ),
{
}

} // verus!
