use vstd::prelude::*;
use crate::bounty::{Bounty, bounty_record_ok};
use crate::custody::{Transfer, bounties_at_most, locked_total, released_total, releases_nonnegative};
use crate::events::EventEnvelope;
use crate::guild::{Guild, Member, unique_addresses};
use crate::payment::{PaymentPool, Recipient, pool_ok};
use crate::milestone::{Milestone, MilestoneStatus, Project, ProjectStatus, paid_sum, planned_sum};

verus! {

/// The whole record store of the platform. Guild `g` is kept at position `g - 1`, and
/// likewise bounty, project and milestone ids; `project_milestones` lists the milestones
/// of each project in their order. Notifications and custody instructions wait in `events` and
/// `transfers` until the host takes them; `custody_log` keeps every custody instruction
/// ever issued.
pub struct StellarGuildsContract {
    pub guilds: Vec<Guild>,
    pub members: Vec<Vec<Member>>,
    pub bounties: Vec<Bounty>,
    pub projects: Vec<Project>,
    pub milestones: Vec<Milestone>,
    pub project_milestones: Vec<Vec<u64>>,
    pub pools: Vec<PaymentPool>,
    pub pool_recipients: Vec<Vec<Recipient>>,
    pub event_sequence: u64,
    pub events: Vec<EventEnvelope>,
    pub transfers: Vec<Transfer>,
    pub custody_log: Ghost<Seq<Transfer>>,
}

/// Project at position `i` is consistent with its milestones.
pub open spec fn project_ok(ps: Seq<Project>, pm: Seq<Vec<u64>>, ms: Seq<Milestone>, i: int) -> bool {
    let p = ps[i];
    let ids = pm[i]@;
    &&& p.id == i + 1
    &&& ids.len() <= u32::MAX
    &&& forall|j: int|
        0 <= j < ids.len() ==> {
            &&& 1 <= #[trigger] ids[j] <= ms.len()
            &&& ms[ids[j] - 1].project_id == i + 1
            &&& ms[ids[j] - 1].order == j
        }
    &&& p.total_amount == planned_sum(ms, ids)
    &&& p.released_amount == paid_sum(ms, ids)
    &&& p.allocated_amount == p.total_amount
}

/// Milestone at position `k` belongs to the project it names, at its order.
pub open spec fn milestone_ok(ps: Seq<Project>, pm: Seq<Vec<u64>>, ms: Seq<Milestone>, k: int) -> bool {
    let m = ms[k];
    &&& m.id == k + 1
    &&& 1 <= m.project_id <= ps.len()
    &&& m.order < pm[m.project_id - 1]@.len()
    &&& pm[m.project_id - 1]@[m.order as int] == k + 1
    &&& m.payment_amount >= 0
    &&& m.is_payment_released == (m.status == MilestoneStatus::Approved)
}

/// Projects `ps`, their milestone lists `pm` and milestones `ms` are consistent.
pub open spec fn tables_ok(ps: Seq<Project>, pm: Seq<Vec<u64>>, ms: Seq<Milestone>) -> bool {
    &&& ps.len() < u64::MAX
    &&& ms.len() < u64::MAX
    &&& pm.len() == ps.len()
    &&& forall|i: int| 0 <= i < ps.len() ==> #[trigger] project_ok(ps, pm, ms, i)
    &&& forall|k: int| 0 <= k < ms.len() ==> #[trigger] milestone_ok(ps, pm, ms, k)
}

impl StellarGuildsContract {
    /// Well-formedness of the guild tables.
    pub open spec fn guilds_wf(&self) -> bool {
        &&& self.members@.len() == self.guilds@.len()
        &&& self.guilds@.len() < u64::MAX
        &&& forall|i: int|
            0 <= i < self.guilds@.len() ==> {
                &&& (#[trigger] self.guilds@[i]).id == i + 1
                &&& self.guilds@[i].member_count == self.members@[i]@.len()
                &&& unique_addresses(self.members@[i]@)
            }
    }

    /// Well-formedness of the bounty table: ids follow positions, each record is
    /// consistent, and each bounty's funded amount is what the custody journal locked
    /// for it minus what it released.
    pub open spec fn bounties_wf(&self) -> bool {
        &&& self.bounties@.len() < u64::MAX
        &&& bounties_at_most(self.custody_log@, self.bounties@.len())
        &&& releases_nonnegative(self.custody_log@)
        &&& forall|i: int|
            0 <= i < self.bounties@.len() ==> {
                &&& (#[trigger] self.bounties@[i]).id == i + 1
                &&& bounty_record_ok(self.bounties@[i])
                &&& self.bounties@[i].funded_amount == locked_total(
                    self.custody_log@,
                    (i + 1) as u64,
                ) - released_total(self.custody_log@, (i + 1) as u64)
            }
    }

    /// The milestone ids of project `p`, in order.
    pub open spec fn ids_of(&self, p: u64) -> Seq<u64> {
        self.project_milestones@[p - 1]@
    }

    /// Well-formedness of the project tables.
    pub open spec fn projects_wf(&self) -> bool {
        tables_ok(self.projects@, self.project_milestones@, self.milestones@)
    }

    /// Well-formedness of the payment pool tables.
    pub open spec fn pools_wf(&self) -> bool {
        &&& self.pools@.len() < u64::MAX
        &&& self.pool_recipients@.len() == self.pools@.len()
        &&& forall|i: int|
            0 <= i < self.pools@.len() ==> #[trigger] pool_ok(self.pools@[i], self.pool_recipients@[i]@, i)
    }

    pub open spec fn wf(&self) -> bool {
        &&& self.guilds_wf()
        &&& self.bounties_wf()
        &&& self.projects_wf()
        &&& self.pools_wf()
    }

    /// `self` and `o` hold the same payment pools.
    pub open spec fn same_pool_tables(&self, o: &Self) -> bool {
        &&& self.pools == o.pools
        &&& self.pool_recipients == o.pool_recipients
    }

    /// `self` and `o` hold the same project tables.
    pub open spec fn same_project_tables(&self, o: &Self) -> bool {
        &&& self.projects == o.projects
        &&& self.milestones == o.milestones
        &&& self.project_milestones == o.project_milestones
    }

    /// `self` and `o` hold the same guild tables.
    pub open spec fn same_guild_tables(&self, o: &Self) -> bool {
        &&& self.guilds == o.guilds
        &&& self.members == o.members
    }

    /// Everything but the guild tables and the notifications is the same in `self` and `o`.
    pub open spec fn same_outside_guilds(&self, o: &Self) -> bool {
        &&& self.bounties == o.bounties
        &&& self.same_project_tables(o)
        &&& self.same_pool_tables(o)
        &&& self.transfers == o.transfers
        &&& self.custody_log == o.custody_log
    }

    /// `self` and `o` hold the same records.
    pub open spec fn same_tables(&self, o: &Self) -> bool {
        &&& self.same_guild_tables(o)
        &&& self.bounties == o.bounties
        &&& self.same_project_tables(o)
        &&& self.same_pool_tables(o)
    }

    /// `self` and `o` hold the same records and custody instructions.
    pub open spec fn same_records(&self, o: &Self) -> bool {
        &&& self.same_tables(o)
        &&& self.transfers == o.transfers
        &&& self.custody_log == o.custody_log
    }

    /// The version of these rules and records.
    pub fn version(&self) -> (r: &'static str)
        ensures
            r@ == "0.1.0"@,
    {
        "0.1.0"
    }

    /// An empty store.
    pub fn new() -> (r: Self)
        ensures
            r.wf(),
            r.guilds@.len() == 0,
            r.bounties@.len() == 0,
            r.projects@.len() == 0,
            r.milestones@.len() == 0,
            r.event_sequence == 0,
            r.events@.len() == 0,
            r.transfers@.len() == 0,
    {
        StellarGuildsContract {
            guilds: Vec::new(),
            members: Vec::new(),
            bounties: Vec::new(),
            projects: Vec::new(),
            milestones: Vec::new(),
            project_milestones: Vec::new(),
            pools: Vec::new(),
            pool_recipients: Vec::new(),
            event_sequence: 0,
            events: Vec::new(),
            transfers: Vec::new(),
            custody_log: Ghost(Seq::empty()),
        }
    }
}

} // verus!
