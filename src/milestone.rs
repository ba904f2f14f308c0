use vstd::prelude::*;
use vstd::string::*;
use crate::contract::StellarGuildsContract;
use crate::contract::{milestone_ok, project_ok, tables_ok};
use crate::custody::{Transfer, lemma_journal_push};
use crate::error::GuildsError;
use crate::events::{EventAction, EventModule};
use crate::roles::Role;

verus! {

/// Where a project stands. It completes by itself when its last milestone is approved.
#[derive(Clone, Copy, Debug, PartialEq, Eq, Structural)]
pub enum ProjectStatus {
    Active,
    Completed,
    Cancelled,
}

/// Where a milestone stands.
#[derive(Clone, Copy, Debug, PartialEq, Eq, Structural)]
pub enum MilestoneStatus {
    Pending,
    InProgress,
    Submitted,
    Approved,
    Rejected,
    Expired,
}

/// A container of ordered, individually paid milestones, paid from a treasury.
#[derive(Clone, Debug, PartialEq, Eq)]
pub struct Project {
    pub id: u64,
    pub guild_id: u64,
    pub contributor: String,
    pub treasury_id: u64,
    /// The asset paid out; the native asset when absent.
    pub token: Option<String>,
    pub total_amount: i128,
    pub allocated_amount: i128,
    pub released_amount: i128,
    pub is_sequential: bool,
    pub created_at: u64,
    pub status: ProjectStatus,
}

/// One payable phase of a project.
#[derive(Clone, Debug, PartialEq, Eq)]
pub struct Milestone {
    pub id: u64,
    pub project_id: u64,
    /// Position in the project's sequence, fixed at creation.
    pub order: u32,
    pub title: String,
    pub description: String,
    pub payment_amount: i128,
    pub deadline: u64,
    pub status: MilestoneStatus,
    pub proof_url: Option<String>,
    pub rejection_reason: Option<String>,
    pub created_at: u64,
    pub submitted_at: Option<u64>,
    pub last_updated_at: u64,
    /// Grows with every change of the record (and stays put at its maximum).
    pub version: u32,
    pub is_payment_released: bool,
}

/// The description of one milestone of a project to create.
#[derive(Clone, Debug, PartialEq, Eq)]
pub struct MilestoneInput {
    pub title: String,
    pub description: String,
    pub payment_amount: i128,
    pub deadline: u64,
}

/// The version that follows `v`.
pub open spec fn bumped(v: u32) -> u32 {
    if v < u32::MAX {
        (v + 1) as u32
    } else {
        v
    }
}

/// What the milestones `ids` of `ms` will pay in all.
pub open spec fn planned_sum(ms: Seq<Milestone>, ids: Seq<u64>) -> int
    decreases ids.len(),
{
    if ids.len() == 0 {
        0
    } else {
        planned_sum(ms, ids.drop_last()) + ms[ids.last() - 1].payment_amount
    }
}

/// What the milestones `ids` of `ms` have paid: the amounts of the approved ones.
pub open spec fn paid_sum(ms: Seq<Milestone>, ids: Seq<u64>) -> int
    decreases ids.len(),
{
    if ids.len() == 0 {
        0
    } else {
        paid_sum(ms, ids.drop_last()) + if ms[ids.last() - 1].status == MilestoneStatus::Approved {
            ms[ids.last() - 1].payment_amount as int
        } else {
            0
        }
    }
}

/// How many of the milestones `ids` of `ms` are approved.
pub open spec fn approved_count(ms: Seq<Milestone>, ids: Seq<u64>) -> nat
    decreases ids.len(),
{
    if ids.len() == 0 {
        0
    } else {
        approved_count(ms, ids.drop_last()) + if ms[ids.last() - 1].status
            == MilestoneStatus::Approved {
            1nat
        } else {
            0nat
        }
    }
}

/// Every milestone `ids` of `ms` is approved.
pub open spec fn all_approved(ms: Seq<Milestone>, ids: Seq<u64>) -> bool {
    forall|j: int| 0 <= j < ids.len() ==> ms[#[trigger] ids[j] - 1].status == MilestoneStatus::Approved
}

/// Every id of `ids` names a milestone of `ms`.
pub open spec fn ids_in(ms: Seq<Milestone>, ids: Seq<u64>) -> bool {
    forall|j: int| 0 <= j < ids.len() ==> 1 <= #[trigger] ids[j] <= ms.len()
}

/// The milestones `ids` carry the same amount, and are approved alike, in `a` and in `b`.
pub open spec fn agree_on(a: Seq<Milestone>, b: Seq<Milestone>, ids: Seq<u64>) -> bool {
    &&& ids_in(a, ids)
    &&& ids_in(b, ids)
    &&& forall|j: int|
        0 <= j < ids.len() ==> a[#[trigger] ids[j] - 1].payment_amount == b[ids[j]
            - 1].payment_amount && (a[ids[j] - 1].status == MilestoneStatus::Approved) == (b[ids[j]
            - 1].status == MilestoneStatus::Approved)
}

/// The sum of the payment amounts of `inputs`.
pub open spec fn input_sum(inputs: Seq<MilestoneInput>) -> int
    decreases inputs.len(),
{
    if inputs.len() == 0 {
        0
    } else {
        input_sum(inputs.drop_last()) + inputs.last().payment_amount
    }
}

pub proof fn lemma_sums_agree(a: Seq<Milestone>, b: Seq<Milestone>, ids: Seq<u64>)
    requires
        agree_on(a, b, ids),
    ensures
        planned_sum(a, ids) == planned_sum(b, ids),
        paid_sum(a, ids) == paid_sum(b, ids),
        approved_count(a, ids) == approved_count(b, ids),
    decreases ids.len(),
{
    if ids.len() > 0 {
        let init = ids.drop_last();
        assert forall|j: int| 0 <= j < init.len() implies 1 <= #[trigger] init[j] <= a.len() by {
            assert(init[j] == ids[j]);
        }
        assert forall|j: int| 0 <= j < init.len() implies 1 <= #[trigger] init[j] <= b.len() by {
            assert(init[j] == ids[j]);
        }
        assert forall|j: int|
            0 <= j < init.len() implies a[#[trigger] init[j] - 1].payment_amount == b[init[j]
                - 1].payment_amount && (a[init[j] - 1].status == MilestoneStatus::Approved) == (b[init[j]
                - 1].status == MilestoneStatus::Approved) by {
            assert(init[j] == ids[j]);
        }
        lemma_sums_agree(a, b, init);
        assert(ids.last() == ids[ids.len() - 1]);
    }
}

/// Approving milestone `k + 1`, listed once in `ids`, adds its amount to what `ids` paid.
pub proof fn lemma_paid_after_approval(a: Seq<Milestone>, b: Seq<Milestone>, ids: Seq<u64>, k: int)
    requires
        ids_in(a, ids),
        0 <= k < a.len(),
        b.len() == a.len(),
        forall|x: int| 0 <= x < a.len() && x != k ==> #[trigger] b[x] == a[x],
        b[k].payment_amount == a[k].payment_amount,
        a[k].status != MilestoneStatus::Approved,
        b[k].status == MilestoneStatus::Approved,
        forall|x: int, y: int|
            0 <= x < ids.len() && 0 <= y < ids.len() && ids[x] == k + 1 && ids[y] == k + 1 ==> x
                == y,
    ensures
        planned_sum(b, ids) == planned_sum(a, ids),
        paid_sum(b, ids) == paid_sum(a, ids) + if (exists|j: int|
            0 <= j < ids.len() && ids[j] == k + 1) {
            a[k].payment_amount as int
        } else {
            0
        },
        approved_count(b, ids) == approved_count(a, ids) + if (exists|j: int|
            0 <= j < ids.len() && ids[j] == k + 1) {
            1int
        } else {
            0
        },
    decreases ids.len(),
{
    if ids.len() > 0 {
        let init = ids.drop_last();
        assert forall|j: int| 0 <= j < init.len() implies 1 <= #[trigger] init[j] <= a.len() by {
            assert(init[j] == ids[j]);
        }
        assert forall|x: int, y: int|
            0 <= x < init.len() && 0 <= y < init.len() && init[x] == k + 1 && init[y] == k + 1
                implies x == y by {
            assert(init[x] == ids[x]);
            assert(init[y] == ids[y]);
        }
        lemma_paid_after_approval(a, b, init, k);
        let last = ids.len() - 1;
        assert(ids.last() == ids[last]);
        if ids[last] == k + 1 {
            assert(!(exists|j: int| 0 <= j < init.len() && init[j] == k + 1)) by {
                if exists|j: int| 0 <= j < init.len() && init[j] == k + 1 {
                    let j = choose|j: int| 0 <= j < init.len() && init[j] == k + 1;
                    assert(ids[j] == k + 1);
                }
            }
            assert(exists|j: int| 0 <= j < ids.len() && ids[j] == k + 1);
        } else {
            assert(b[ids[last] - 1] == a[ids[last] - 1]);
            if exists|j: int| 0 <= j < ids.len() && ids[j] == k + 1 {
                let j = choose|j: int| 0 <= j < ids.len() && ids[j] == k + 1;
                assert(j != last);
                assert(init[j] == ids[j]);
            }
            if exists|j: int| 0 <= j < init.len() && init[j] == k + 1 {
                let j = choose|j: int| 0 <= j < init.len() && init[j] == k + 1;
                assert(ids[j] == k + 1);
            }
        }
    }
}

/// With amounts that are not negative, no more is paid than planned, and with every
/// milestone approved, exactly what was planned is paid.
pub proof fn lemma_paid_bounded(ms: Seq<Milestone>, ids: Seq<u64>)
    requires
        ids_in(ms, ids),
        forall|j: int| 0 <= j < ids.len() ==> ms[#[trigger] ids[j] - 1].payment_amount >= 0,
    ensures
        0 <= paid_sum(ms, ids) <= planned_sum(ms, ids),
        approved_count(ms, ids) <= ids.len(),
        all_approved(ms, ids) ==> paid_sum(ms, ids) == planned_sum(ms, ids),
        all_approved(ms, ids) <==> approved_count(ms, ids) == ids.len(),
    decreases ids.len(),
{
    if ids.len() > 0 {
        let init = ids.drop_last();
        assert forall|j: int| 0 <= j < init.len() implies 1 <= #[trigger] init[j] <= ms.len() by {
            assert(init[j] == ids[j]);
        }
        assert forall|j: int| 0 <= j < init.len() implies ms[#[trigger] init[j] - 1].payment_amount
            >= 0 by {
            assert(init[j] == ids[j]);
        }
        lemma_paid_bounded(ms, init);
        let last = ids.len() - 1;
        assert(ids.last() == ids[last]);
        assert(ms[ids[last] - 1].payment_amount >= 0);
        if all_approved(ms, ids) {
            assert forall|j: int| 0 <= j < init.len() implies ms[#[trigger] init[j] - 1].status
                == MilestoneStatus::Approved by {
                assert(init[j] == ids[j]);
            }
            assert(ms[ids[last] - 1].status == MilestoneStatus::Approved);
        }
        if approved_count(ms, ids) == ids.len() {
            assert(approved_count(ms, init) == init.len());
            assert(all_approved(ms, init));
            assert forall|j: int| 0 <= j < ids.len() implies ms[#[trigger] ids[j] - 1].status
                == MilestoneStatus::Approved by {
                if j < last {
                    assert(init[j] == ids[j]);
                }
            }
        }
    }
}

/// Milestones that are the same in amount and approval, position by position, agree on
/// every list of ids that names them.
pub proof fn lemma_pointwise_agree(a: Seq<Milestone>, b: Seq<Milestone>, ids: Seq<u64>)
    requires
        a.len() == b.len(),
        ids_in(a, ids),
        forall|x: int|
            0 <= x < a.len() ==> (#[trigger] a[x]).payment_amount == b[x].payment_amount && (a[x].status
                == MilestoneStatus::Approved) == (b[x].status == MilestoneStatus::Approved),
    ensures
        agree_on(a, b, ids),
{
    assert forall|j: int| 0 <= j < ids.len() implies 1 <= #[trigger] ids[j] <= b.len() by {}
    assert forall|j: int|
        0 <= j < ids.len() implies a[#[trigger] ids[j] - 1].payment_amount == b[ids[j]
            - 1].payment_amount && (a[ids[j] - 1].status == MilestoneStatus::Approved) == (b[ids[j]
            - 1].status == MilestoneStatus::Approved) by {
        let x = ids[j] - 1;
        assert(a[x].payment_amount == b[x].payment_amount);
    }
}

/// A milestone whose deadline has passed before its work was submitted (including one
/// already marked expired).
pub open spec fn milestone_lapsed(m: Milestone, now: u64) -> bool {
    (m.status == MilestoneStatus::Pending || m.status == MilestoneStatus::InProgress || m.status
        == MilestoneStatus::Expired) && now > m.deadline
}

/// `m` with `status`, its version bumped and its update time `now`.
pub open spec fn moved_to(m: Milestone, status: MilestoneStatus, now: u64) -> Milestone {
    Milestone { status, version: bumped(m.version), last_updated_at: now, ..m }
}

fn bump(v: u32) -> (r: u32)
    ensures
        r == bumped(v),
{
    if v < u32::MAX {
        v + 1
    } else {
        v
    }
}

impl StellarGuildsContract {
    pub open spec fn project_exists(&self, p: u64) -> bool {
        1 <= p <= self.projects@.len()
    }

    /// The stored record of project `p`.
    pub open spec fn project(&self, p: u64) -> Project {
        self.projects@[p - 1]
    }

    pub open spec fn milestone_exists(&self, m: u64) -> bool {
        1 <= m <= self.milestones@.len()
    }

    /// The stored record of milestone `m`.
    pub open spec fn milestone(&self, m: u64) -> Milestone {
        self.milestones@[m - 1]
    }

    /// The project milestone `m` belongs to.
    pub open spec fn project_of(&self, m: u64) -> Project {
        self.project(self.milestone(m).project_id)
    }

    /// Milestone `m` is first in its project, or the milestone just before it is approved.
    pub open spec fn predecessor_approved(&self, m: u64) -> bool {
        let ms = self.milestone(m);
        ms.order == 0 || self.milestone(self.ids_of(ms.project_id)[ms.order - 1]).status
            == MilestoneStatus::Approved
    }

    /// `self` is `old` with milestone `id` replaced by `nm`, and one notification
    /// `(milestone, action, id)` concerning `party`.
    pub open spec fn milestone_step(
        &self,
        old: &Self,
        id: u64,
        nm: Milestone,
        action: EventAction,
        party: Option<String>,
        now: u64,
    ) -> bool {
        &&& self.milestones@ == old.milestones@.update(id - 1, nm)
        &&& self.projects == old.projects
        &&& self.project_milestones == old.project_milestones
        &&& self.same_guild_tables(old)
        &&& self.same_pool_tables(old)
        &&& self.bounties == old.bounties
        &&& self.transfers == old.transfers
        &&& self.custody_log == old.custody_log
        &&& self.notified(old, EventModule::Milestone, action, id, party, 0, now)
    }

    /// What refuses `start_milestone`, if anything.
    pub open spec fn start_refusal(&self, id: u64, caller: Seq<char>, now: u64) -> Option<GuildsError> {
        if !self.milestone_exists(id) {
            Some(GuildsError::NotFound)
        } else if self.project_of(id).contributor@ != caller {
            Some(GuildsError::Unauthorized)
        } else if milestone_lapsed(self.milestone(id), now) {
            Some(GuildsError::Expired)
        } else if self.project_of(id).is_sequential && !self.predecessor_approved(id) {
            Some(GuildsError::PreviousMilestoneNotCompleted)
        } else if self.milestone(id).status != MilestoneStatus::Pending {
            Some(GuildsError::InvalidState)
        } else if self.project_of(id).status != ProjectStatus::Active {
            Some(GuildsError::InvalidState)
        } else {
            None
        }
    }

    /// What refuses `submit_milestone`, if anything.
    pub open spec fn milestone_submission_refusal(&self, id: u64, caller: Seq<char>) -> Option<
        GuildsError,
    > {
        if !self.milestone_exists(id) {
            Some(GuildsError::NotFound)
        } else if self.project_of(id).contributor@ != caller {
            Some(GuildsError::Unauthorized)
        } else if self.milestone(id).status != MilestoneStatus::InProgress {
            Some(GuildsError::InvalidState)
        } else {
            None
        }
    }

    /// What refuses `approve_milestone`, if anything.
    pub open spec fn approval_refusal_of(&self, id: u64, approver: Seq<char>, dispute_locked: bool) -> Option<
        GuildsError,
    > {
        if dispute_locked {
            Some(GuildsError::DisputeLocked)
        } else {
            self.review_refusal(id, approver)
        }
    }

    /// What refuses `reject_milestone`, and `approve_milestone` beyond a dispute, if anything.
    pub open spec fn review_refusal(&self, id: u64, reviewer: Seq<char>) -> Option<GuildsError> {
        if !self.milestone_exists(id) {
            Some(GuildsError::NotFound)
        } else if !self.permits(self.project_of(id).guild_id, reviewer, Role::Admin) {
            Some(GuildsError::Unauthorized)
        } else if self.milestone(id).status != MilestoneStatus::Submitted {
            Some(GuildsError::InvalidState)
        } else {
            None
        }
    }

    /// The index of milestone `id`, if it exists.
    fn milestone_index(&self, id: u64) -> (r: Option<usize>)
        ensures
            r is Some <==> self.milestone_exists(id),
            r is Some ==> r->0 == id - 1,
    {
        if id == 0 || id > self.milestones.len() as u64 {
            None
        } else {
            Some((id - 1) as usize)
        }
    }

    /// The index of project `id`, if it exists.
    fn project_index(&self, id: u64) -> (r: Option<usize>)
        ensures
            r is Some <==> self.project_exists(id),
            r is Some ==> r->0 == id - 1,
    {
        if id == 0 || id > self.projects.len() as u64 {
            None
        } else {
            Some((id - 1) as usize)
        }
    }

    /// Where the project of the milestone at `mi` is kept, with what the tables guarantee.
    fn project_slot(&self, mi: usize) -> (r: usize)
        requires
            self.wf(),
            mi < self.milestones@.len(),
        ensures
            r == self.milestones@[mi as int].project_id - 1,
            r < self.projects@.len(),
            milestone_ok(self.projects@, self.project_milestones@, self.milestones@, mi as int),
            project_ok(self.projects@, self.project_milestones@, self.milestones@, r as int),
    {
        assert(milestone_ok(self.projects@, self.project_milestones@, self.milestones@, mi as int));
        let pid = self.milestones[mi].project_id;
        let n = self.projects.len();
        assert(pid - 1 < n);
        let r = (pid - 1) as usize;
        assert(project_ok(self.projects@, self.project_milestones@, self.milestones@, r as int));
        r
    }

    /// Moves the milestone at `mi` to `status`, where approval is not gained or lost.
    fn set_milestone_status(&mut self, mi: usize, status: MilestoneStatus, now: u64)
        requires
            old(self).wf(),
            mi < old(self).milestones@.len(),
            status != MilestoneStatus::Approved,
            old(self).milestones@[mi as int].status != MilestoneStatus::Approved,
        ensures
            final(self).wf(),
            final(self).milestones@ == old(self).milestones@.update(
                mi as int,
                moved_to(old(self).milestones@[mi as int], status, now),
            ),
            final(self).projects == old(self).projects,
            final(self).project_milestones == old(self).project_milestones,
            final(self).same_guild_tables(old(self)),
            final(self).same_pool_tables(old(self)),
            final(self).bounties == old(self).bounties,
            final(self).transfers == old(self).transfers,
            final(self).custody_log == old(self).custody_log,
            final(self).event_sequence == old(self).event_sequence,
            final(self).events == old(self).events,
    {
        let ghost before = self.milestones@;
        let version = bump(self.milestones[mi].version);
        let m = &mut self.milestones[mi];
        m.status = status;
        m.version = version;
        m.last_updated_at = now;
        proof {
            self.lemma_milestones_swap(before, mi as int);
        }
    }

    /// After the milestone at `k` changed in nothing that the invariant reads, the
    /// project tables are still well formed.
    proof fn lemma_milestones_swap(&self, before: Seq<Milestone>, k: int)
        requires
            0 <= k < before.len(),
            self.milestones@.len() == before.len(),
            forall|x: int| 0 <= x < before.len() && x != k ==> #[trigger] self.milestones@[x] == before[x],
            self.milestones@[k].id == before[k].id,
            self.milestones@[k].project_id == before[k].project_id,
            self.milestones@[k].order == before[k].order,
            self.milestones@[k].payment_amount == before[k].payment_amount,
            self.milestones@[k].is_payment_released == before[k].is_payment_released,
            (self.milestones@[k].status == MilestoneStatus::Approved) == (before[k].status
                == MilestoneStatus::Approved),
            tables_ok(self.projects@, self.project_milestones@, before),
        ensures
            self.projects_wf(),
    {
        let ms = self.milestones@;
        assert forall|i: int| 0 <= i < self.projects@.len() implies #[trigger] project_ok(
            self.projects@,
            self.project_milestones@,
            ms,
            i,
        ) by {
            assert(project_ok(self.projects@, self.project_milestones@, before, i));
            let ids = self.project_milestones@[i]@;
            assert forall|j: int| 0 <= j < ids.len() implies 1 <= #[trigger] ids[j] <= before.len() by {}
            assert forall|x: int| 0 <= x < before.len() implies (#[trigger] before[x]).payment_amount
                == ms[x].payment_amount && (before[x].status == MilestoneStatus::Approved) == (
            ms[x].status == MilestoneStatus::Approved) by {
                if x != k {
                    assert(ms[x] == before[x]);
                }
            }
            lemma_pointwise_agree(before, ms, ids);
            lemma_sums_agree(before, ms, ids);
        }
        assert forall|x: int| 0 <= x < ms.len() implies #[trigger] milestone_ok(
            self.projects@,
            self.project_milestones@,
            ms,
            x,
        ) by {
            assert(milestone_ok(self.projects@, self.project_milestones@, before, x));
            if x != k {
                assert(ms[x] == before[x]);
            }
        }
    }
}

impl StellarGuildsContract {
    /// Starts work on milestone `milestone_id`. Only the project's contributor may start
    /// it, only while it is pending, and only while the project is active: a cancelled
    /// project starts no new work. A passed deadline expires the milestone and fails; in a
    /// sequential project the milestone just before it must be approved first. These two
    /// are checked before the statuses, so they are reported whatever the project's status.
    pub fn start_milestone(&mut self, milestone_id: u64, contributor: String, now: u64) -> (r:
        Result<bool, GuildsError>)
        requires
            old(self).wf(),
            old(self).can_notify(),
        ensures
            final(self).wf(),
            match old(self).start_refusal(milestone_id, contributor@, now) {
                Some(e) => r == Err::<bool, GuildsError>(e) && if e == GuildsError::Expired {
                    final(self).milestone_step(
                        old(self),
                        milestone_id,
                        moved_to(old(self).milestone(milestone_id), MilestoneStatus::Expired, now),
                        EventAction::Expired,
                        None,
                        now,
                    )
                } else {
                    *final(self) == *old(self)
                },
                None => r == Ok::<bool, GuildsError>(true) && final(self).milestone_step(
                    old(self),
                    milestone_id,
                    moved_to(old(self).milestone(milestone_id), MilestoneStatus::InProgress, now),
                    EventAction::Started,
                    Some(contributor),
                    now,
                ),
            },
            old(self).milestone_exists(milestone_id) && old(self).project_of(milestone_id).contributor@
                == contributor@ && !milestone_lapsed(old(self).milestone(milestone_id), now)
                && old(self).project_of(milestone_id).is_sequential
                && !old(self).predecessor_approved(milestone_id) ==> r == Err::<bool, GuildsError>(
                GuildsError::PreviousMilestoneNotCompleted,
            ),
            old(self).milestone_exists(milestone_id) && !old(self).project_of(milestone_id).is_sequential
                ==> r != Err::<bool, GuildsError>(GuildsError::PreviousMilestoneNotCompleted),
    {
        let mi = match self.milestone_index(milestone_id) {
            Some(i) => i,
            None => {
                return Err(GuildsError::NotFound);
            },
        };
        let pi = self.project_slot(mi);
        if !(self.projects[pi].contributor == contributor) {
            return Err(GuildsError::Unauthorized);
        }
        let status = self.milestones[mi].status;
        if (status == MilestoneStatus::Pending || status == MilestoneStatus::InProgress || status
            == MilestoneStatus::Expired) && now > self.milestones[mi].deadline {
            self.set_milestone_status(mi, MilestoneStatus::Expired, now);
            self.emit_event(EventModule::Milestone, EventAction::Expired, milestone_id, None, 0, now);
            return Err(GuildsError::Expired);
        }
        if self.projects[pi].is_sequential {
            let order = self.milestones[mi].order;
            if order > 0 {
                let ids = &self.project_milestones[pi];
                assert(1 <= ids@[order - 1] <= self.milestones@.len());
                let prev = ids[(order - 1) as usize];
                let n = self.milestones.len();
                assert(prev - 1 < n);
                if self.milestones[(prev - 1) as usize].status != MilestoneStatus::Approved {
                    return Err(GuildsError::PreviousMilestoneNotCompleted);
                }
            }
        }
        if status != MilestoneStatus::Pending {
            return Err(GuildsError::InvalidState);
        }
        if self.projects[pi].status != ProjectStatus::Active {
            return Err(GuildsError::InvalidState);
        }
        self.set_milestone_status(mi, MilestoneStatus::InProgress, now);
        self.emit_event(EventModule::Milestone, EventAction::Started, milestone_id, Some(contributor), 0, now);
        Ok(true)
    }

    /// Records `proof_url` as the work for milestone `milestone_id`, in progress, and
    /// submits it for review. Only the project's contributor may submit. Work already under
    /// way when its project was cancelled can still be submitted.
    pub fn submit_milestone(&mut self, milestone_id: u64, caller: String, proof_url: String, now: u64) -> (r:
        Result<bool, GuildsError>)
        requires
            old(self).wf(),
            old(self).can_notify(),
        ensures
            final(self).wf(),
            match old(self).milestone_submission_refusal(milestone_id, caller@) {
                Some(e) => r == Err::<bool, GuildsError>(e) && *final(self) == *old(self),
                None => r == Ok::<bool, GuildsError>(true) && final(self).milestone_step(
                    old(self),
                    milestone_id,
                    (Milestone {
                        proof_url: Some(proof_url),
                        submitted_at: Some(now),
                        ..moved_to(old(self).milestone(milestone_id), MilestoneStatus::Submitted, now)
                    }),
                    EventAction::Submitted,
                    Some(caller),
                    now,
                ),
            },
    {
        let mi = match self.milestone_index(milestone_id) {
            Some(i) => i,
            None => {
                return Err(GuildsError::NotFound);
            },
        };
        let pi = self.project_slot(mi);
        if !(self.projects[pi].contributor == caller) {
            return Err(GuildsError::Unauthorized);
        }
        if self.milestones[mi].status != MilestoneStatus::InProgress {
            return Err(GuildsError::InvalidState);
        }
        let ghost before = self.milestones@;
        let version = bump(self.milestones[mi].version);
        let m = &mut self.milestones[mi];
        m.status = MilestoneStatus::Submitted;
        m.proof_url = Some(proof_url);
        m.submitted_at = Some(now);
        m.version = version;
        m.last_updated_at = now;
        proof {
            self.lemma_milestones_swap(before, mi as int);
        }
        self.emit_event(EventModule::Milestone, EventAction::Submitted, milestone_id, Some(caller), 0, now);
        Ok(true)
    }

    /// Rejects submitted milestone `milestone_id` for `reason`. The approver must hold at
    /// least the admin role in the project's guild. Rejection is final; no funds move.
    pub fn reject_milestone(&mut self, milestone_id: u64, approver: String, reason: String, now: u64) -> (r:
        Result<bool, GuildsError>)
        requires
            old(self).wf(),
            old(self).can_notify(),
        ensures
            final(self).wf(),
            match old(self).review_refusal(milestone_id, approver@) {
                Some(e) => r == Err::<bool, GuildsError>(e) && *final(self) == *old(self),
                None => r == Ok::<bool, GuildsError>(true) && final(self).milestone_step(
                    old(self),
                    milestone_id,
                    (Milestone {
                        rejection_reason: Some(reason),
                        ..moved_to(old(self).milestone(milestone_id), MilestoneStatus::Rejected, now)
                    }),
                    EventAction::Rejected,
                    Some(approver),
                    now,
                ),
            },
    {
        let mi = match self.milestone_index(milestone_id) {
            Some(i) => i,
            None => {
                return Err(GuildsError::NotFound);
            },
        };
        let pi = self.project_slot(mi);
        if !self.has_permission(self.projects[pi].guild_id, approver.clone(), Role::Admin) {
            return Err(GuildsError::Unauthorized);
        }
        if self.milestones[mi].status != MilestoneStatus::Submitted {
            return Err(GuildsError::InvalidState);
        }
        let ghost before = self.milestones@;
        let version = bump(self.milestones[mi].version);
        let m = &mut self.milestones[mi];
        m.status = MilestoneStatus::Rejected;
        m.rejection_reason = Some(reason);
        m.version = version;
        m.last_updated_at = now;
        proof {
            self.lemma_milestones_swap(before, mi as int);
        }
        self.emit_event(EventModule::Milestone, EventAction::Rejected, milestone_id, Some(approver), 0, now);
        Ok(true)
    }

    /// Moves the deadline of milestone `milestone_id` to `new_deadline`, whatever its
    /// status; a milestone that had expired becomes pending again. The caller must hold at
    /// least the admin role in the project's guild.
    pub fn extend_milestone_deadline(
        &mut self,
        milestone_id: u64,
        new_deadline: u64,
        caller: String,
        now: u64,
    ) -> (r: Result<bool, GuildsError>)
        requires
            old(self).wf(),
            old(self).can_notify(),
        ensures
            final(self).wf(),
            !old(self).milestone_exists(milestone_id) ==> r == Err::<bool, GuildsError>(
                GuildsError::NotFound,
            ) && *final(self) == *old(self),
            old(self).milestone_exists(milestone_id) && !old(self).permits(
                old(self).project_of(milestone_id).guild_id,
                caller@,
                Role::Admin,
            ) ==> r == Err::<bool, GuildsError>(GuildsError::Unauthorized) && *final(self) == *old(self),
            old(self).milestone_exists(milestone_id) && old(self).permits(
                old(self).project_of(milestone_id).guild_id,
                caller@,
                Role::Admin,
            ) ==> {
                let m = old(self).milestone(milestone_id);
                let status = if m.status == MilestoneStatus::Expired {
                    MilestoneStatus::Pending
                } else {
                    m.status
                };
                r == Ok::<bool, GuildsError>(true) && final(self).milestone_step(
                    old(self),
                    milestone_id,
                    (Milestone { deadline: new_deadline, ..moved_to(m, status, now) }),
                    EventAction::Updated,
                    Some(caller),
                    now,
                )
            },
    {
        let mi = match self.milestone_index(milestone_id) {
            Some(i) => i,
            None => {
                return Err(GuildsError::NotFound);
            },
        };
        let pi = self.project_slot(mi);
        if !self.has_permission(self.projects[pi].guild_id, caller.clone(), Role::Admin) {
            return Err(GuildsError::Unauthorized);
        }
        let ghost before = self.milestones@;
        let version = bump(self.milestones[mi].version);
        let m = &mut self.milestones[mi];
        if m.status == MilestoneStatus::Expired {
            m.status = MilestoneStatus::Pending;
        }
        m.deadline = new_deadline;
        m.version = version;
        m.last_updated_at = now;
        proof {
            self.lemma_milestones_swap(before, mi as int);
        }
        self.emit_event(EventModule::Milestone, EventAction::Updated, milestone_id, Some(caller), 0, now);
        Ok(true)
    }

    /// Cancels active project `project_id`: no milestone can be added or started any more.
    /// The caller must hold at least the admin role in the project's guild. Milestones
    /// already under way (in progress or submitted) may still be submitted, approved and
    /// paid, or rejected. No funds move: the project never held any, and what is allocated
    /// stays reserved in the treasury for those milestones.
    pub fn cancel_project(&mut self, project_id: u64, caller: String, now: u64) -> (r: Result<
        bool,
        GuildsError,
    >)
        requires
            old(self).wf(),
            old(self).can_notify(),
        ensures
            final(self).wf(),
            !old(self).project_exists(project_id) ==> r == Err::<bool, GuildsError>(
                GuildsError::NotFound,
            ) && *final(self) == *old(self),
            old(self).project_exists(project_id) ==> {
                let p = old(self).project(project_id);
                if !old(self).permits(p.guild_id, caller@, Role::Admin) {
                    r == Err::<bool, GuildsError>(GuildsError::Unauthorized) && *final(self) == *old(self)
                } else if p.status != ProjectStatus::Active {
                    r == Err::<bool, GuildsError>(GuildsError::InvalidState) && *final(self) == *old(self)
                } else {
                    &&& r == Ok::<bool, GuildsError>(true)
                    &&& final(self).projects@ == old(self).projects@.update(
                        project_id - 1,
                        (Project { status: ProjectStatus::Cancelled, ..p }),
                    )
                    &&& final(self).milestones == old(self).milestones
                    &&& final(self).project_milestones == old(self).project_milestones
                    &&& final(self).same_guild_tables(old(self))
                    &&& final(self).same_pool_tables(old(self))
                    &&& final(self).bounties == old(self).bounties
                    &&& final(self).transfers == old(self).transfers
                    &&& final(self).custody_log == old(self).custody_log
                    &&& final(self).notified(
                        old(self),
                        EventModule::Milestone,
                        EventAction::Cancelled,
                        project_id,
                        Some(caller),
                        0,
                        now,
                    )
                }
            },
    {
        let pi = match self.project_index(project_id) {
            Some(i) => i,
            None => {
                return Err(GuildsError::NotFound);
            },
        };
        assert(project_ok(self.projects@, self.project_milestones@, self.milestones@, pi as int));
        if !self.has_permission(self.projects[pi].guild_id, caller.clone(), Role::Admin) {
            return Err(GuildsError::Unauthorized);
        }
        if self.projects[pi].status != ProjectStatus::Active {
            return Err(GuildsError::InvalidState);
        }
        let ghost before = self.projects@;
        self.projects[pi].status = ProjectStatus::Cancelled;
        proof {
            assert forall|i: int| 0 <= i < self.projects@.len() implies #[trigger] project_ok(
                self.projects@,
                self.project_milestones@,
                self.milestones@,
                i,
            ) by {
                assert(project_ok(before, self.project_milestones@, self.milestones@, i));
            }
            assert forall|k: int| 0 <= k < self.milestones@.len() implies #[trigger] milestone_ok(
                self.projects@,
                self.project_milestones@,
                self.milestones@,
                k,
            ) by {
                assert(milestone_ok(before, self.project_milestones@, self.milestones@, k));
            }
        }
        self.emit_event(EventModule::Milestone, EventAction::Cancelled, project_id, Some(caller), 0, now);
        Ok(true)
    }

    /// The record of milestone `milestone_id`.
    pub fn get_milestone(&self, milestone_id: u64) -> (r: Result<&Milestone, GuildsError>)
        requires
            self.wf(),
        ensures
            match r {
                Ok(m) => self.milestone_exists(milestone_id) && *m == self.milestone(milestone_id),
                Err(e) => e == GuildsError::NotFound && !self.milestone_exists(milestone_id),
            },
    {
        match self.milestone_index(milestone_id) {
            Some(i) => Ok(&self.milestones[i]),
            None => Err(GuildsError::NotFound),
        }
    }

    /// The record of project `project_id`, if there is one.
    pub fn get_project(&self, project_id: u64) -> (r: Option<&Project>)
        requires
            self.wf(),
        ensures
            r is Some <==> self.project_exists(project_id),
            r is Some ==> *r->0 == self.project(project_id),
    {
        match self.project_index(project_id) {
            Some(i) => Some(&self.projects[i]),
            None => None,
        }
    }

    /// The milestone ids of project `project_id`, in order; empty for an unknown project.
    pub fn get_project_milestone_ids(&self, project_id: u64) -> (r: Vec<u64>)
        requires
            self.wf(),
        ensures
            self.project_exists(project_id) ==> r@ == self.ids_of(project_id),
            !self.project_exists(project_id) ==> r@.len() == 0,
    {
        match self.project_index(project_id) {
            Some(i) => self.project_milestones[i].clone(),
            None => Vec::new(),
        }
    }

    /// How many milestones of the project at `pi` are approved, and whether all are.
    fn count_approved(&self, pi: usize) -> (r: u32)
        requires
            self.wf(),
            pi < self.projects@.len(),
        ensures
            r == approved_count(self.milestones@, self.project_milestones@[pi as int]@),
            r <= self.project_milestones@[pi as int]@.len(),
    {
        assert(project_ok(self.projects@, self.project_milestones@, self.milestones@, pi as int));
        let ids = &self.project_milestones[pi];
        let ghost ms = self.milestones@;
        proof {
            assert forall|j: int| 0 <= j < ids@.len() implies ms[#[trigger] ids@[j] - 1].payment_amount
                >= 0 by {
                assert(milestone_ok(self.projects@, self.project_milestones@, ms, ids@[j] - 1));
            }
            lemma_paid_bounded(ms, ids@);
        }
        let mut count: u32 = 0;
        let mut i: usize = 0;
        while i < ids.len()
            invariant
                0 <= i <= ids@.len(),
                ids@.len() <= u32::MAX,
                ms == self.milestones@,
                ids_in(ms, ids@),
                count == approved_count(ms, ids@.take(i as int)),
                count <= i,
            decreases ids@.len() - i,
        {
            proof {
                assert(ids@.take(i + 1).drop_last() == ids@.take(i as int));
            }
            let id = ids[i];
            let n = self.milestones.len();
            assert(id - 1 < n);
            if self.milestones[(id - 1) as usize].status == MilestoneStatus::Approved {
                count += 1;
            }
            i += 1;
        }
        proof {
            assert(ids@.take(ids@.len() as int) == ids@);
        }
        count
    }

    /// Progress of project `project_id`: approved milestones, all milestones, and the
    /// percentage approved, rounded down (0 for a project without milestones).
    pub fn get_project_progress(&self, project_id: u64) -> (r: Result<(u32, u32, u32), GuildsError>)
        requires
            self.wf(),
        ensures
            !self.project_exists(project_id) ==> r == Err::<(u32, u32, u32), GuildsError>(
                GuildsError::NotFound,
            ),
            self.project_exists(project_id) ==> {
                let ids = self.ids_of(project_id);
                let done = approved_count(self.milestones@, ids);
                &&& r is Ok
                &&& r->Ok_0.0 == done
                &&& r->Ok_0.1 == ids.len()
                &&& r->Ok_0.2 == if ids.len() == 0 {
                    0
                } else {
                    done * 100 / ids.len()
                }
            },
    {
        let pi = match self.project_index(project_id) {
            Some(i) => i,
            None => {
                return Err(GuildsError::NotFound);
            },
        };
        assert(project_ok(self.projects@, self.project_milestones@, self.milestones@, pi as int));
        let done = self.count_approved(pi);
        let total = self.project_milestones[pi].len() as u32;
        let pct = if total == 0 {
            0
        } else {
            let scaled = done as u64 * 100;
            let t = total as u64;
            assert(scaled / t <= 100) by (nonlinear_arith)
                requires
                    scaled == done * 100,
                    done <= total,
                    t == total,
                    t > 0,
            ;
            (scaled / t) as u32
        };
        Ok((done, total, pct))
    }
}

/// Approving the submitted milestone at `mi`, of the project at `pi`, and adding its
/// amount to what the project released keeps the tables consistent.
proof fn lemma_approval(
    ps: Seq<Project>,
    pm: Seq<Vec<u64>>,
    ms: Seq<Milestone>,
    ps2: Seq<Project>,
    ms2: Seq<Milestone>,
    mi: int,
    pi: int,
)
    requires
        tables_ok(ps, pm, ms),
        0 <= mi < ms.len(),
        pi == ms[mi].project_id - 1,
        ms[mi].status != MilestoneStatus::Approved,
        ms2.len() == ms.len(),
        forall|x: int| 0 <= x < ms.len() && x != mi ==> #[trigger] ms2[x] == ms[x],
        ms2[mi].id == ms[mi].id,
        ms2[mi].project_id == ms[mi].project_id,
        ms2[mi].order == ms[mi].order,
        ms2[mi].payment_amount == ms[mi].payment_amount,
        ms2[mi].status == MilestoneStatus::Approved,
        ms2[mi].is_payment_released,
        ps2.len() == ps.len(),
        forall|x: int| 0 <= x < ps.len() && x != pi ==> #[trigger] ps2[x] == ps[x],
        ps2[pi].id == ps[pi].id,
        ps2[pi].total_amount == ps[pi].total_amount,
        ps2[pi].allocated_amount == ps[pi].allocated_amount,
        ps2[pi].released_amount == ps[pi].released_amount + ms[mi].payment_amount,
    ensures
        tables_ok(ps2, pm, ms2),
{
    assert(milestone_ok(ps, pm, ms, mi));
    assert forall|i: int| 0 <= i < ps2.len() implies #[trigger] project_ok(ps2, pm, ms2, i) by {
        assert(project_ok(ps, pm, ms, i));
        let ids = pm[i]@;
        assert forall|j: int| 0 <= j < ids.len() implies 1 <= #[trigger] ids[j] <= ms.len() by {}
        if i != pi {
            assert forall|j: int| 0 <= j < ids.len() implies ids[j] - 1 != mi by {
                assert(ms[ids[j] - 1].project_id == i + 1);
            }
            assert forall|j: int|
                0 <= j < ids.len() implies ms[#[trigger] ids[j] - 1].payment_amount == ms2[ids[j]
                    - 1].payment_amount && (ms[ids[j] - 1].status == MilestoneStatus::Approved) == (
            ms2[ids[j] - 1].status == MilestoneStatus::Approved) by {
                assert(ms2[ids[j] - 1] == ms[ids[j] - 1]);
            }
            lemma_sums_agree(ms, ms2, ids);
            assert forall|j: int| 0 <= j < ids.len() implies {
                &&& 1 <= #[trigger] ids[j] <= ms2.len()
                &&& ms2[ids[j] - 1].project_id == i + 1
                &&& ms2[ids[j] - 1].order == j
            } by {
                assert(ms2[ids[j] - 1] == ms[ids[j] - 1]);
            }
        } else {
            assert forall|x: int, y: int|
                0 <= x < ids.len() && 0 <= y < ids.len() && ids[x] == mi + 1 && ids[y] == mi + 1
                    implies x == y by {
                assert(ms[ids[x] - 1].order == x);
                assert(ms[ids[y] - 1].order == y);
            }
            let o = ms[mi].order as int;
            assert(ids[o] == mi + 1);
            assert(exists|j: int| 0 <= j < ids.len() && ids[j] == mi + 1);
            lemma_paid_after_approval(ms, ms2, ids, mi);
            assert forall|j: int| 0 <= j < ids.len() implies {
                &&& 1 <= #[trigger] ids[j] <= ms2.len()
                &&& ms2[ids[j] - 1].project_id == i + 1
                &&& ms2[ids[j] - 1].order == j
            } by {
                if ids[j] - 1 != mi {
                    assert(ms2[ids[j] - 1] == ms[ids[j] - 1]);
                }
            }
        }
    }
    assert forall|k: int| 0 <= k < ms2.len() implies #[trigger] milestone_ok(ps2, pm, ms2, k) by {
        assert(milestone_ok(ps, pm, ms, k));
        if k != mi {
            assert(ms2[k] == ms[k]);
        }
    }
}

/// Whether every milestone `ids` of `ms` is approved.
fn every_approved(ms: &Vec<Milestone>, ids: &Vec<u64>) -> (r: bool)
    requires
        ids_in(ms@, ids@),
    ensures
        r == all_approved(ms@, ids@),
{
    let mut i: usize = 0;
    while i < ids.len()
        invariant
            0 <= i <= ids@.len(),
            ids_in(ms@, ids@),
            forall|j: int| 0 <= j < i ==> ms@[#[trigger] ids@[j] - 1].status == MilestoneStatus::Approved,
        decreases ids@.len() - i,
    {
        let id = ids[i];
        let n = ms.len();
        assert(id - 1 < n);
        if ms[(id - 1) as usize].status != MilestoneStatus::Approved {
            return false;
        }
        i += 1;
    }
    true
}

impl StellarGuildsContract {
    /// Approves submitted milestone `milestone_id` and, in the same step, pays its amount
    /// from the project's treasury to the contributor. The approver must hold at least the
    /// admin role in the project's guild, and a milestone frozen by an active dispute is
    /// refused before anything else. An active project completes when this was the last
    /// milestone awaiting approval; a cancelled one stays cancelled.
    pub fn approve_milestone(
        &mut self,
        milestone_id: u64,
        approver: String,
        dispute_locked: bool,
        now: u64,
    ) -> (r: Result<bool, GuildsError>)
        requires
            old(self).wf(),
            old(self).can_notify(),
        ensures
            final(self).wf(),
            match old(self).approval_refusal_of(milestone_id, approver@, dispute_locked) {
                Some(e) => r == Err::<bool, GuildsError>(e) && *final(self) == *old(self),
                None => {
                    let m = old(self).milestone(milestone_id);
                    let pid = m.project_id;
                    let p = old(self).project(pid);
                    let ms2 = old(self).milestones@.update(
                        milestone_id - 1,
                        (Milestone {
                            is_payment_released: true,
                            ..moved_to(m, MilestoneStatus::Approved, now)
                        }),
                    );
                    let payout = Transfer::TreasuryPayout {
                        milestone_id,
                        treasury_id: p.treasury_id,
                        currency: p.token,
                        payee: p.contributor,
                        amount: m.payment_amount,
                    };
                    &&& r == Ok::<bool, GuildsError>(true)
                    &&& final(self).milestones@ == ms2
                    &&& final(self).projects@ == old(self).projects@.update(
                        pid - 1,
                        (Project {
                            released_amount: (p.released_amount + m.payment_amount) as i128,
                            status: if all_approved(ms2, old(self).ids_of(pid)) && p.status
                                == ProjectStatus::Active {
                                ProjectStatus::Completed
                            } else {
                                p.status
                            },
                            ..p
                        }),
                    )
                    &&& final(self).project_milestones == old(self).project_milestones
                    &&& final(self).same_guild_tables(old(self))
                    &&& final(self).same_pool_tables(old(self))
                    &&& final(self).bounties == old(self).bounties
                    &&& final(self).transfers@ == old(self).transfers@ + seq![payout]
                    &&& final(self).custody_log@ == old(self).custody_log@ + seq![payout]
                    &&& final(self).notified(
                        old(self),
                        EventModule::Milestone,
                        EventAction::Approved,
                        milestone_id,
                        Some(p.contributor),
                        m.payment_amount,
                        now,
                    )
                },
            },
    {
        if dispute_locked {
            return Err(GuildsError::DisputeLocked);
        }
        let mi = match self.milestone_index(milestone_id) {
            Some(i) => i,
            None => {
                return Err(GuildsError::NotFound);
            },
        };
        let pi = self.project_slot(mi);
        if !self.has_permission(self.projects[pi].guild_id, approver.clone(), Role::Admin) {
            return Err(GuildsError::Unauthorized);
        }
        if self.milestones[mi].status != MilestoneStatus::Submitted {
            return Err(GuildsError::InvalidState);
        }
        let ghost ms = self.milestones@;
        let ghost ps = self.projects@;
        let ghost pm = self.project_milestones@;
        let ghost ids = pm[pi as int]@;
        let amount = self.milestones[mi].payment_amount;
        let version = bump(self.milestones[mi].version);
        let ghost ms2 = ms.update(
            mi as int,
            Milestone { is_payment_released: true, ..moved_to(ms[mi as int], MilestoneStatus::Approved, now) },
        );
        proof {
            assert(milestone_ok(ps, pm, ms, mi as int));
            assert forall|x: int, y: int|
                0 <= x < ids.len() && 0 <= y < ids.len() && ids[x] == mi + 1 && ids[y] == mi + 1
                    implies x == y by {
                assert(ms[ids[x] - 1].order == x);
                assert(ms[ids[y] - 1].order == y);
            }
            assert(ids[ms[mi as int].order as int] == mi + 1);
            lemma_paid_after_approval(ms, ms2, ids, mi as int);
            assert forall|j: int| 0 <= j < ids.len() implies ms2[#[trigger] ids[j] - 1].payment_amount
                >= 0 by {
                assert(milestone_ok(ps, pm, ms, ids[j] - 1));
            }
            assert forall|j: int| 0 <= j < ids.len() implies 1 <= #[trigger] ids[j] <= ms2.len() by {}
            lemma_paid_bounded(ms2, ids);
        }
        let released = self.projects[pi].released_amount + amount;
        let m = &mut self.milestones[mi];
        m.status = MilestoneStatus::Approved;
        m.is_payment_released = true;
        m.version = version;
        m.last_updated_at = now;
        assert(self.milestones@ == ms2);
        proof {
            assert forall|j: int| 0 <= j < ids.len() implies 1 <= #[trigger] ids[j] <= ms2.len() by {}
        }
        let done = every_approved(&self.milestones, &self.project_milestones[pi]);
        let currency = match &self.projects[pi].token {
            Some(t) => Some(t.clone()),
            None => None,
        };
        let party = Some(self.projects[pi].contributor.clone());
        let payout = Transfer::TreasuryPayout {
            milestone_id,
            treasury_id: self.projects[pi].treasury_id,
            currency,
            payee: self.projects[pi].contributor.clone(),
            amount,
        };
        let p = &mut self.projects[pi];
        p.released_amount = released;
        if done && p.status == ProjectStatus::Active {
            p.status = ProjectStatus::Completed;
        }
        proof {
            lemma_approval(ps, pm, ms, self.projects@, self.milestones@, mi as int, pi as int);
            lemma_journal_push(self.custody_log@, payout, self.bounties@.len());
        }
        self.record_transfer(payout);
        self.emit_event(EventModule::Milestone, EventAction::Approved, milestone_id, party, amount, now);
        Ok(true)
    }

    /// Payment of approved milestone `milestone_id` happens in its approval, once; asking
    /// for it again moves nothing and returns `false`.
    pub fn release_milestone_payment(&self, milestone_id: u64, dispute_locked: bool) -> (r: Result<
        bool,
        GuildsError,
    >)
        requires
            self.wf(),
        ensures
            dispute_locked ==> r == Err::<bool, GuildsError>(GuildsError::DisputeLocked),
            !dispute_locked && !self.milestone_exists(milestone_id) ==> r == Err::<bool, GuildsError>(
                GuildsError::NotFound,
            ),
            !dispute_locked && self.milestone_exists(milestone_id) ==> if self.milestone(
                milestone_id,
            ).status == MilestoneStatus::Approved {
                r == Ok::<bool, GuildsError>(false) && self.milestone(milestone_id).is_payment_released
            } else {
                r == Err::<bool, GuildsError>(GuildsError::InvalidState)
            },
    {
        if dispute_locked {
            return Err(GuildsError::DisputeLocked);
        }
        let mi = match self.milestone_index(milestone_id) {
            Some(i) => i,
            None => {
                return Err(GuildsError::NotFound);
            },
        };
        assert(milestone_ok(self.projects@, self.project_milestones@, self.milestones@, mi as int));
        if self.milestones[mi].status != MilestoneStatus::Approved {
            return Err(GuildsError::InvalidState);
        }
        Ok(false)
    }
}

/// A freshly created milestone.
pub open spec fn new_milestone(
    id: u64,
    project_id: u64,
    order: u32,
    title: String,
    description: String,
    payment_amount: i128,
    deadline: u64,
    now: u64,
) -> Milestone {
    Milestone {
        id,
        project_id,
        order,
        title,
        description,
        payment_amount,
        deadline,
        status: MilestoneStatus::Pending,
        proof_url: None,
        rejection_reason: None,
        created_at: now,
        submitted_at: None,
        last_updated_at: now,
        version: 0,
        is_payment_released: false,
    }
}

/// Appending pending milestone `ms.len() + 1` to the project at `pi` and adding its
/// amount to the project's total and allocation keeps the tables consistent.
proof fn lemma_append(
    ps: Seq<Project>,
    pm: Seq<Vec<u64>>,
    ms: Seq<Milestone>,
    ps2: Seq<Project>,
    pm2: Seq<Vec<u64>>,
    ms2: Seq<Milestone>,
    pi: int,
)
    requires
        tables_ok(ps, pm, ms),
        0 <= pi < ps.len(),
        ms.len() + 2 < u64::MAX,
        pm[pi]@.len() < u32::MAX,
        ms2.len() == ms.len() + 1,
        forall|x: int| 0 <= x < ms.len() ==> #[trigger] ms2[x] == ms[x],
        ms2[ms.len() as int].id == ms.len() + 1,
        ms2[ms.len() as int].project_id == pi + 1,
        ms2[ms.len() as int].order == pm[pi]@.len(),
        ms2[ms.len() as int].payment_amount >= 0,
        ms2[ms.len() as int].status == MilestoneStatus::Pending,
        !ms2[ms.len() as int].is_payment_released,
        pm2.len() == pm.len(),
        forall|x: int| 0 <= x < pm.len() && x != pi ==> #[trigger] pm2[x] == pm[x],
        pm2[pi]@ == pm[pi]@.push((ms.len() + 1) as u64),
        ps2.len() == ps.len(),
        forall|x: int| 0 <= x < ps.len() && x != pi ==> #[trigger] ps2[x] == ps[x],
        ps2[pi].id == ps[pi].id,
        ps2[pi].total_amount == ps[pi].total_amount + ms2[ms.len() as int].payment_amount,
        ps2[pi].allocated_amount == ps[pi].allocated_amount + ms2[ms.len() as int].payment_amount,
        ps2[pi].released_amount == ps[pi].released_amount,
        ps2[pi].status == ps[pi].status,
    ensures
        tables_ok(ps2, pm2, ms2),
{
    let n = ms.len() as int;
    assert forall|i: int| 0 <= i < ps2.len() implies #[trigger] project_ok(ps2, pm2, ms2, i) by {
        assert(project_ok(ps, pm, ms, i));
        let ids = pm[i]@;
        assert forall|j: int| 0 <= j < ids.len() implies 1 <= #[trigger] ids[j] <= ms.len() by {}
        assert forall|j: int| 0 <= j < ids.len() implies 1 <= #[trigger] ids[j] <= ms2.len() by {}
        assert forall|j: int|
            0 <= j < ids.len() implies ms[#[trigger] ids[j] - 1].payment_amount == ms2[ids[j]
                - 1].payment_amount && (ms[ids[j] - 1].status == MilestoneStatus::Approved) == (
        ms2[ids[j] - 1].status == MilestoneStatus::Approved) by {
            assert(ms2[ids[j] - 1] == ms[ids[j] - 1]);
        }
        lemma_sums_agree(ms, ms2, ids);
        if i == pi {
            let ids2 = pm2[i]@;
            assert(ids2.drop_last() == ids);
            assert(ids2.last() == n + 1);
            assert forall|j: int| 0 <= j < ids2.len() implies {
                &&& 1 <= #[trigger] ids2[j] <= ms2.len()
                &&& ms2[ids2[j] - 1].project_id == i + 1
                &&& ms2[ids2[j] - 1].order == j
            } by {
                if j < ids.len() {
                    assert(ids2[j] == ids[j]);
                    assert(ms2[ids[j] - 1] == ms[ids[j] - 1]);
                }
            }
        } else {
            assert(pm2[i] == pm[i]);
            assert forall|j: int| 0 <= j < ids.len() implies {
                &&& 1 <= #[trigger] ids[j] <= ms2.len()
                &&& ms2[ids[j] - 1].project_id == i + 1
                &&& ms2[ids[j] - 1].order == j
            } by {
                assert(ms2[ids[j] - 1] == ms[ids[j] - 1]);
            }
        }
    }
    assert forall|k: int| 0 <= k < ms2.len() implies #[trigger] milestone_ok(ps2, pm2, ms2, k) by {
        if k < n {
            assert(milestone_ok(ps, pm, ms, k));
            assert(ms2[k] == ms[k]);
            let q = ms[k].project_id - 1;
            if q == pi {
                assert(pm2[q]@[ms[k].order as int] == pm[q]@[ms[k].order as int]);
            } else {
                assert(pm2[q] == pm[q]);
            }
        } else {
            assert(pm2[pi]@[pm[pi]@.len() as int] == n + 1);
        }
    }
}

/// With amounts that are not negative, the sums of the prefixes of `inputs` grow.
proof fn lemma_input_prefixes(inputs: Seq<MilestoneInput>, i: int, j: int)
    requires
        0 <= i <= j <= inputs.len(),
        forall|k: int| 0 <= k < inputs.len() ==> (#[trigger] inputs[k]).payment_amount >= 0,
    ensures
        input_sum(inputs.take(i)) <= input_sum(inputs.take(j)),
    decreases j - i,
{
    if i < j {
        lemma_input_prefixes(inputs, i, j - 1);
        assert(inputs.take(j).drop_last() == inputs.take(j - 1));
        assert(inputs.take(j).last() == inputs[j - 1]);
    }
}

impl StellarGuildsContract {
    /// Appends a pending milestone to the project at `pi`, growing its total and its
    /// allocation by `amount`. Returns the new milestone's id.
    fn append_milestone(
        &mut self,
        pi: usize,
        title: String,
        description: String,
        amount: i128,
        deadline: u64,
        now: u64,
    ) -> (r: u64)
        requires
            old(self).wf(),
            pi < old(self).projects@.len(),
            amount >= 0,
            old(self).projects@[pi as int].total_amount + amount <= i128::MAX,
            old(self).milestones@.len() + 2 < u64::MAX,
            old(self).project_milestones@[pi as int]@.len() < u32::MAX,
        ensures
            final(self).wf(),
            r == old(self).milestones@.len() + 1,
            final(self).milestones@ == old(self).milestones@.push(
                new_milestone(
                    r,
                    (pi + 1) as u64,
                    old(self).project_milestones@[pi as int]@.len() as u32,
                    title,
                    description,
                    amount,
                    deadline,
                    now,
                ),
            ),
            final(self).projects@ == old(self).projects@.update(
                pi as int,
                (Project {
                    total_amount: (old(self).projects@[pi as int].total_amount + amount) as i128,
                    allocated_amount: (old(self).projects@[pi as int].allocated_amount
                        + amount) as i128,
                    ..old(self).projects@[pi as int]
                }),
            ),
            final(self).project_milestones@.len() == old(self).project_milestones@.len(),
            forall|x: int|
                0 <= x < old(self).project_milestones@.len() && x != pi ==> #[trigger] final(self).project_milestones@[x] == old(self).project_milestones@[x],
            final(self).project_milestones@[pi as int]@ == old(self).project_milestones@[pi as int]@.push(r),
            final(self).same_guild_tables(old(self)),
            final(self).same_pool_tables(old(self)),
            final(self).bounties == old(self).bounties,
            final(self).transfers == old(self).transfers,
            final(self).custody_log == old(self).custody_log,
            final(self).event_sequence == old(self).event_sequence,
            final(self).events == old(self).events,
    {
        let ghost ms = self.milestones@;
        let ghost ps = self.projects@;
        let ghost pm = self.project_milestones@;
        assert(project_ok(ps, pm, ms, pi as int));
        let id = self.milestones.len() as u64 + 1;
        let order = self.project_milestones[pi].len() as u32;
        self.milestones.push(
            Milestone {
                id,
                project_id: pi as u64 + 1,
                order,
                title,
                description,
                payment_amount: amount,
                deadline,
                status: MilestoneStatus::Pending,
                proof_url: None,
                rejection_reason: None,
                created_at: now,
                submitted_at: None,
                last_updated_at: now,
                version: 0,
                is_payment_released: false,
            },
        );
        self.project_milestones[pi].push(id);
        let total = self.projects[pi].total_amount + amount;
        let allocated = self.projects[pi].allocated_amount + amount;
        let p = &mut self.projects[pi];
        p.total_amount = total;
        p.allocated_amount = allocated;
        proof {
            lemma_append(
                ps,
                pm,
                ms,
                self.projects@,
                self.project_milestones@,
                self.milestones@,
                pi as int,
            );
        }
        id
    }

    /// What refuses `add_milestone`, if anything.
    pub open spec fn addition_refusal(&self, project_id: u64, amount: i128, caller: Seq<char>) -> Option<
        GuildsError,
    > {
        if !self.project_exists(project_id) {
            Some(GuildsError::NotFound)
        } else if !self.permits(self.project(project_id).guild_id, caller, Role::Admin) {
            Some(GuildsError::Unauthorized)
        } else if self.project(project_id).status != ProjectStatus::Active {
            Some(GuildsError::InvalidState)
        } else if amount < 0 {
            Some(GuildsError::InvalidInput)
        } else if self.project(project_id).total_amount + amount > i128::MAX
            || self.milestones@.len() + 2 >= u64::MAX || self.ids_of(project_id).len()
            >= u32::MAX {
            Some(GuildsError::ArithmeticOverflow)
        } else {
            None
        }
    }

    /// Appends a milestone paying `amount` to active project `project_id`, after all its
    /// milestones; the project's total and allocation grow by `amount`. The caller must
    /// hold at least the admin role in the project's guild. Returns the new id.
    pub fn add_milestone(
        &mut self,
        project_id: u64,
        title: String,
        description: String,
        amount: i128,
        deadline: u64,
        caller: String,
        now: u64,
    ) -> (r: Result<u64, GuildsError>)
        requires
            old(self).wf(),
            old(self).can_notify(),
        ensures
            final(self).wf(),
            match old(self).addition_refusal(project_id, amount, caller@) {
                Some(e) => r == Err::<u64, GuildsError>(e) && *final(self) == *old(self),
                None => {
                    let id = (old(self).milestones@.len() + 1) as u64;
                    let p = old(self).project(project_id);
                    let ids = old(self).ids_of(project_id);
                    &&& r == Ok::<u64, GuildsError>(id)
                    &&& final(self).milestones@ == old(self).milestones@.push(
                        new_milestone(
                            id,
                            project_id,
                            ids.len() as u32,
                            title,
                            description,
                            amount,
                            deadline,
                            now,
                        ),
                    )
                    &&& final(self).projects@ == old(self).projects@.update(
                        project_id - 1,
                        (Project {
                            total_amount: (p.total_amount + amount) as i128,
                            allocated_amount: (p.allocated_amount + amount) as i128,
                            ..p
                        }),
                    )
                    &&& final(self).ids_of(project_id) == ids.push(id)
                    &&& final(self).project_milestones@.len() == old(self).project_milestones@.len()
                    &&& forall|x: int|
                        0 <= x < old(self).project_milestones@.len() && x != project_id - 1
                            ==> #[trigger] final(self).project_milestones@[x] == old(self).project_milestones@[x]
                    &&& final(self).same_guild_tables(old(self))
                    &&& final(self).same_pool_tables(old(self))
                    &&& final(self).bounties == old(self).bounties
                    &&& final(self).transfers == old(self).transfers
                    &&& final(self).custody_log == old(self).custody_log
                    &&& final(self).notified(
                        old(self),
                        EventModule::Milestone,
                        EventAction::Created,
                        id,
                        Some(caller),
                        amount,
                        now,
                    )
                },
            },
    {
        let pi = match self.project_index(project_id) {
            Some(i) => i,
            None => {
                return Err(GuildsError::NotFound);
            },
        };
        assert(project_ok(self.projects@, self.project_milestones@, self.milestones@, pi as int));
        if !self.has_permission(self.projects[pi].guild_id, caller.clone(), Role::Admin) {
            return Err(GuildsError::Unauthorized);
        }
        if self.projects[pi].status != ProjectStatus::Active {
            return Err(GuildsError::InvalidState);
        }
        if amount < 0 {
            return Err(GuildsError::InvalidInput);
        }
        if self.projects[pi].total_amount > i128::MAX - amount || self.milestones.len() as u64
            >= u64::MAX - 2 || self.project_milestones[pi].len() as u64 >= u32::MAX as u64 {
            return Err(GuildsError::ArithmeticOverflow);
        }
        let id = self.append_milestone(pi, title, description, amount, deadline, now);
        self.emit_event(EventModule::Milestone, EventAction::Created, id, Some(caller), amount, now);
        Ok(id)
    }
}

/// The sum of the amounts of `inputs`: refused when an amount is negative, or when the
/// sum does not fit.
fn checked_input_sum(inputs: &Vec<MilestoneInput>) -> (r: Result<i128, GuildsError>)
    ensures
        (exists|k: int| 0 <= k < inputs@.len() && (#[trigger] inputs@[k]).payment_amount < 0)
            ==> r == Err::<i128, GuildsError>(GuildsError::InvalidInput),
        !(exists|k: int| 0 <= k < inputs@.len() && (#[trigger] inputs@[k]).payment_amount < 0)
            && input_sum(inputs@) > i128::MAX ==> r == Err::<i128, GuildsError>(
            GuildsError::ArithmeticOverflow,
        ),
        !(exists|k: int| 0 <= k < inputs@.len() && (#[trigger] inputs@[k]).payment_amount < 0)
            && input_sum(inputs@) <= i128::MAX ==> r == Ok::<i128, GuildsError>(
            input_sum(inputs@) as i128,
        ),
        r is Ok ==> 0 <= input_sum(inputs@) <= i128::MAX,
{
    let n = inputs.len();
    let mut j: usize = 0;
    while j < n
        invariant
            0 <= j <= n,
            n == inputs@.len(),
            forall|k: int| 0 <= k < j ==> (#[trigger] inputs@[k]).payment_amount >= 0,
        decreases n - j,
    {
        if inputs[j].payment_amount < 0 {
            return Err(GuildsError::InvalidInput);
        }
        j += 1;
    }
    let mut sum: i128 = 0;
    j = 0;
    while j < n
        invariant
            0 <= j <= n,
            n == inputs@.len(),
            forall|k: int| 0 <= k < n ==> (#[trigger] inputs@[k]).payment_amount >= 0,
            sum == input_sum(inputs@.take(j as int)),
        decreases n - j,
    {
        proof {
            assert(inputs@.take(j + 1).drop_last() == inputs@.take(j as int));
            assert(inputs@.take(j + 1).last() == inputs@[j as int]);
        }
        let a = inputs[j].payment_amount;
        if sum > i128::MAX - a {
            proof {
                lemma_input_prefixes(inputs@, j + 1, n as int);
                assert(inputs@.take(n as int) == inputs@);
            }
            return Err(GuildsError::ArithmeticOverflow);
        }
        sum = sum + a;
        j += 1;
    }
    proof {
        assert(inputs@.take(n as int) == inputs@);
        assert(inputs@.take(0) == Seq::<MilestoneInput>::empty());
        lemma_input_prefixes(inputs@, 0, n as int);
    }
    Ok(sum)
}

impl StellarGuildsContract {
    /// What refuses `create_project`, if anything.
    pub open spec fn project_creation_refusal(&self, inputs: Seq<MilestoneInput>, total_amount: i128) -> Option<
        GuildsError,
    > {
        if exists|k: int| 0 <= k < inputs.len() && (#[trigger] inputs[k]).payment_amount < 0 {
            Some(GuildsError::InvalidInput)
        } else if input_sum(inputs) > i128::MAX {
            Some(GuildsError::ArithmeticOverflow)
        } else if input_sum(inputs) != total_amount {
            Some(GuildsError::InvalidInput)
        } else if self.projects@.len() + 2 >= u64::MAX || self.milestones@.len() + inputs.len() + 2
            >= u64::MAX || inputs.len() > u32::MAX {
            Some(GuildsError::ArithmeticOverflow)
        } else {
            None
        }
    }

    /// Creates an active project for `contributor` with one pending milestone per input,
    /// in input order. The inputs' amounts must sum to exactly `total_amount`, which is
    /// allocated in full. Returns the new project's id.
    pub fn create_project(
        &mut self,
        guild_id: u64,
        contributor: String,
        milestones: Vec<MilestoneInput>,
        total_amount: i128,
        treasury_id: u64,
        token: Option<String>,
        is_sequential: bool,
        now: u64,
    ) -> (r: Result<u64, GuildsError>)
        requires
            old(self).wf(),
            old(self).can_notify(),
        ensures
            final(self).wf(),
            match old(self).project_creation_refusal(milestones@, total_amount) {
                Some(e) => r == Err::<u64, GuildsError>(e) && *final(self) == *old(self),
                None => {
                    let pid = (old(self).projects@.len() + 1) as u64;
                    let base = old(self).milestones@.len();
                    let n = milestones@.len();
                    &&& r == Ok::<u64, GuildsError>(pid)
                    &&& final(self).projects@ == old(self).projects@.push(
                        (Project {
                            id: pid,
                            guild_id,
                            contributor,
                            treasury_id,
                            token,
                            total_amount,
                            allocated_amount: total_amount,
                            released_amount: 0,
                            is_sequential,
                            created_at: now,
                            status: ProjectStatus::Active,
                        }),
                    )
                    &&& final(self).milestones@.len() == base + n
                    &&& forall|k: int| 0 <= k < base ==> #[trigger] final(self).milestones@[k] == old(self).milestones@[k]
                    &&& forall|q: int|
                        0 <= q < n ==> #[trigger] final(self).milestones@[base + q] == new_milestone(
                            (base + q + 1) as u64,
                            pid,
                            q as u32,
                            milestones@[q].title,
                            milestones@[q].description,
                            milestones@[q].payment_amount,
                            milestones@[q].deadline,
                            now,
                        )
                    &&& final(self).project_milestones@.len() == pid
                    &&& forall|x: int|
                        0 <= x < pid - 1 ==> #[trigger] final(self).project_milestones@[x] == old(self).project_milestones@[x]
                    &&& final(self).ids_of(pid).len() == n
                    &&& forall|q: int| 0 <= q < n ==> #[trigger] final(self).ids_of(pid)[q] == base + q + 1
                    &&& final(self).same_guild_tables(old(self))
                    &&& final(self).same_pool_tables(old(self))
                    &&& final(self).bounties == old(self).bounties
                    &&& final(self).transfers == old(self).transfers
                    &&& final(self).custody_log == old(self).custody_log
                    &&& final(self).notified(
                        old(self),
                        EventModule::Milestone,
                        EventAction::Created,
                        pid,
                        Some(contributor),
                        total_amount,
                        now,
                    )
                },
            },
    {
        let n = milestones.len();
        let sum = match checked_input_sum(&milestones) {
            Ok(v) => v,
            Err(e) => {
                return Err(e);
            },
        };
        let mut j: usize = 0;
        if sum != total_amount {
            return Err(GuildsError::InvalidInput);
        }
        if n as u64 > u32::MAX as u64 || self.projects.len() as u64 >= u64::MAX - 2
            || self.milestones.len() as u64 >= u64::MAX - 2 - n as u64 {
            return Err(GuildsError::ArithmeticOverflow);
        }
        let ghost old_self = *self;
        let pid = self.projects.len() as u64 + 1;
        let pi = self.projects.len();
        let base = self.milestones.len();
        let ghost ps = self.projects@;
        let ghost pm = self.project_milestones@;
        let ghost ms = self.milestones@;
        let party = Some(contributor.clone());
        self.projects.push(
            Project {
                id: pid,
                guild_id,
                contributor,
                treasury_id,
                token,
                total_amount: 0,
                allocated_amount: 0,
                released_amount: 0,
                is_sequential,
                created_at: now,
                status: ProjectStatus::Active,
            },
        );
        self.project_milestones.push(Vec::new());
        proof {
            assert forall|i: int| 0 <= i < self.projects@.len() implies #[trigger] project_ok(
                self.projects@,
                self.project_milestones@,
                ms,
                i,
            ) by {
                if i < ps.len() {
                    assert(project_ok(ps, pm, ms, i));
                    assert(self.project_milestones@[i] == pm[i]);
                } else {
                    assert(self.project_milestones@[i]@.len() == 0);
                }
            }
            assert forall|k: int| 0 <= k < ms.len() implies #[trigger] milestone_ok(
                self.projects@,
                self.project_milestones@,
                ms,
                k,
            ) by {
                assert(milestone_ok(ps, pm, ms, k));
                assert(self.project_milestones@[ms[k].project_id - 1] == pm[ms[k].project_id - 1]);
            }
        }
        let ghost p0 = self.projects@[pi as int];
        assert(p0 == Project {
            id: pid,
            guild_id,
            contributor,
            treasury_id,
            token,
            total_amount: 0,
            allocated_amount: 0,
            released_amount: 0,
            is_sequential,
            created_at: now,
            status: ProjectStatus::Active,
        });
        proof {
            assert(milestones@.take(0) == Seq::<MilestoneInput>::empty());
        }
        j = 0;
        while j < n
            invariant
                0 <= j <= n,
                n == milestones@.len(),
                n <= u32::MAX,
                forall|k: int| 0 <= k < n ==> (#[trigger] milestones@[k]).payment_amount >= 0,
                input_sum(milestones@) == total_amount,
                self.wf(),
                pi == ps.len(),
                pid == pi + 1,
                base == ms.len(),
                base + n + 2 < u64::MAX,
                self.projects@.len() == pi + 1,
                forall|x: int| 0 <= x < pi ==> #[trigger] self.projects@[x] == ps[x],
                self.projects@[pi as int] == (Project {
                    total_amount: input_sum(milestones@.take(j as int)) as i128,
                    allocated_amount: input_sum(milestones@.take(j as int)) as i128,
                    ..p0
                }),
                p0.status == ProjectStatus::Active,
                self.milestones@.len() == base + j,
                forall|k: int| 0 <= k < base ==> #[trigger] self.milestones@[k] == ms[k],
                forall|q: int|
                    0 <= q < j ==> #[trigger] self.milestones@[base + q] == new_milestone(
                        (base + q + 1) as u64,
                        pid,
                        q as u32,
                        milestones@[q].title,
                        milestones@[q].description,
                        milestones@[q].payment_amount,
                        milestones@[q].deadline,
                        now,
                    ),
                self.project_milestones@.len() == pi + 1,
                forall|x: int| 0 <= x < pi ==> #[trigger] self.project_milestones@[x] == pm[x],
                self.project_milestones@[pi as int]@.len() == j,
                forall|q: int| 0 <= q < j ==> #[trigger] self.project_milestones@[pi as int]@[q] == base + q + 1,
                self.same_guild_tables(&old_self),
                self.same_pool_tables(&old_self),
                self.bounties == old_self.bounties,
                self.transfers == old_self.transfers,
                self.custody_log == old_self.custody_log,
                self.event_sequence == old_self.event_sequence,
                self.events == old_self.events,
            decreases n - j,
        {
            proof {
                assert(milestones@.take(j + 1).drop_last() == milestones@.take(j as int));
                assert(milestones@.take(j + 1).last() == milestones@[j as int]);
                lemma_input_prefixes(milestones@, j + 1, n as int);
                lemma_input_prefixes(milestones@, 0, j as int);
                assert(milestones@.take(0) == Seq::<MilestoneInput>::empty());
                assert(milestones@.take(n as int) == milestones@);
            }
            let title = milestones[j].title.clone();
            let description = milestones[j].description.clone();
            let id = self.append_milestone(
                pi,
                title,
                description,
                milestones[j].payment_amount,
                milestones[j].deadline,
                now,
            );
            proof {
                assert(self.milestones@[base + j] == new_milestone(
                    (base + j + 1) as u64,
                    pid,
                    j as u32,
                    milestones@[j as int].title,
                    milestones@[j as int].description,
                    milestones@[j as int].payment_amount,
                    milestones@[j as int].deadline,
                    now,
                ));
            }
            j += 1;
        }
        proof {
            assert(milestones@.take(n as int) == milestones@);
            assert(self.projects@ =~= ps.push(Project {
                total_amount,
                allocated_amount: total_amount,
                ..p0
            }));
        }
        self.emit_event(EventModule::Milestone, EventAction::Created, pid, party, total_amount, now);
        Ok(pid)
    }
}

} // verus!
