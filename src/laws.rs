use vstd::prelude::*;
use crate::bounty::BountyStatus;
use crate::contract::{StellarGuildsContract, milestone_ok, project_ok};
use crate::custody::{lemma_released_nonnegative, locked_total, released_total};
use crate::error::GuildsError;
use crate::milestone::{all_approved, lemma_paid_bounded};

verus! {

/// No leakage: at any time, what a bounty holds is everything locked into custody for it
/// minus everything released or refunded for it, and so never more than was locked.
pub proof fn law_funded_matches_custody(c: &StellarGuildsContract, id: u64)
    requires
        c.wf(),
        c.bounty_exists(id),
    ensures
        c.bounty(id).funded_amount == locked_total(c.custody_log@, id) - released_total(
            c.custody_log@,
            id,
        ),
        0 <= c.bounty(id).funded_amount <= locked_total(c.custody_log@, id),
{
    assert(c.bounties@[id - 1].id == id);
    lemma_released_nonnegative(c.custody_log@, id);
}

/// Claims are exactly-once: of two claims on the same open bounty, both before its
/// expiry, the first succeeds and records its claimer, and the second is refused as
/// invalid in the current state and changes nothing.
pub proof fn law_claim_exactly_once(
    s0: &StellarGuildsContract,
    s1: &StellarGuildsContract,
    s2: &StellarGuildsContract,
    id: u64,
    first: String,
    second: String,
    t1: u64,
    t2: u64,
    r1: Result<bool, GuildsError>,
    r2: Result<bool, GuildsError>,
)
    requires
        s0.bounty_exists(id),
        s0.bounty(id).status == BountyStatus::Open,
        t1 <= s0.bounty(id).expires_at,
        t2 <= s0.bounty(id).expires_at,
        StellarGuildsContract::claim_outcome(s0, s1, id, first, t1, r1),
        StellarGuildsContract::claim_outcome(s1, s2, id, second, t2, r2),
    ensures
        r1 == Ok::<bool, GuildsError>(true),
        s1.bounty(id).claimer == Some(first),
        r2 == Err::<bool, GuildsError>(GuildsError::InvalidState),
        *s2 == *s1,
{
}

/// Once every milestone of a project is approved, whatever the order of the approvals,
/// the project has released exactly its total.
pub proof fn law_all_approved_releases_total(c: &StellarGuildsContract, p: u64)
    requires
        c.wf(),
        c.project_exists(p),
        all_approved(c.milestones@, c.ids_of(p)),
    ensures
        c.project(p).released_amount == c.project(p).total_amount,
{
    let i = p - 1;
    assert(project_ok(c.projects@, c.project_milestones@, c.milestones@, i));
    let ids = c.ids_of(p);
    assert forall|j: int| 0 <= j < ids.len() implies 1 <= #[trigger] ids[j] <= c.milestones@.len() by {}
    assert forall|j: int| 0 <= j < ids.len() implies c.milestones@[#[trigger] ids[j] - 1].payment_amount
        >= 0 by {
        assert(milestone_ok(c.projects@, c.project_milestones@, c.milestones@, ids[j] - 1));
    }
    lemma_paid_bounded(c.milestones@, ids);
}

/// A project never releases more than it allocated, nor allocates more than its total.
pub proof fn law_project_accounting(c: &StellarGuildsContract, p: u64)
    requires
        c.wf(),
        c.project_exists(p),
    ensures
        0 <= c.project(p).released_amount <= c.project(p).allocated_amount
            <= c.project(p).total_amount,
{
    let i = p - 1;
    assert(project_ok(c.projects@, c.project_milestones@, c.milestones@, i));
    let ids = c.ids_of(p);
    assert forall|j: int| 0 <= j < ids.len() implies 1 <= #[trigger] ids[j] <= c.milestones@.len() by {}
    assert forall|j: int| 0 <= j < ids.len() implies c.milestones@[#[trigger] ids[j] - 1].payment_amount
        >= 0 by {
        assert(milestone_ok(c.projects@, c.project_milestones@, c.milestones@, ids[j] - 1));
    }
    lemma_paid_bounded(c.milestones@, ids);
}

} // verus!
