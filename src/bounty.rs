use vstd::prelude::*;
use vstd::string::*;
use crate::contract::StellarGuildsContract;
use crate::custody::{Transfer, lemma_journal_push, lemma_totals_fresh};
use crate::error::GuildsError;
use crate::events::{EventAction, EventModule};
use crate::roles::Role;

verus! {

/// Where a bounty stands in its lifecycle.
#[derive(Clone, Copy, Debug, PartialEq, Eq, Structural)]
pub enum BountyStatus {
    Open,
    Claimed,
    UnderReview,
    Completed,
    Cancelled,
    Expired,
    AwaitingFunds,
}

/// A single work item with a single payout, claimed first come, first served.
#[derive(Clone, Debug, PartialEq, Eq)]
pub struct Bounty {
    pub id: u64,
    pub guild_id: u64,
    pub creator: String,
    pub title: String,
    pub description: String,
    pub reward_amount: i128,
    /// What custody currently holds for this bounty.
    pub funded_amount: i128,
    pub token: String,
    pub status: BountyStatus,
    pub claimer: Option<String>,
    pub submission_url: Option<String>,
    pub created_at: u64,
    pub expires_at: u64,
}

pub const MAX_TITLE_LEN: usize = 256;

pub const MAX_DESCRIPTION_LEN: usize = 2048;

pub const MAX_SUBMISSION_LEN: usize = 512;

/// Completed, Cancelled and Expired bounties never change status again.
pub open spec fn is_terminal(s: BountyStatus) -> bool {
    s == BountyStatus::Completed || s == BountyStatus::Cancelled || s == BountyStatus::Expired
}

/// A bounty in one of these statuses has a recorded claimer.
pub open spec fn needs_claimer(s: BountyStatus) -> bool {
    s == BountyStatus::Claimed || s == BountyStatus::UnderReview || s == BountyStatus::Completed
}

/// The consistency every stored bounty keeps.
pub open spec fn bounty_record_ok(b: Bounty) -> bool {
    &&& b.reward_amount >= 0
    &&& b.funded_amount >= 0
    &&& needs_claimer(b.status) ==> b.claimer is Some
}

/// The bounty's expiry has passed while it was still live: the next touch expires it.
pub open spec fn lapsed(b: Bounty, now: u64) -> bool {
    !is_terminal(b.status) && now > b.expires_at
}

/// The status a new bounty starts in.
pub open spec fn initial_status(reward: i128) -> BountyStatus {
    if reward == 0 {
        BountyStatus::Open
    } else {
        BountyStatus::AwaitingFunds
    }
}

/// A title holds 1 to 256 characters.
pub open spec fn title_ok(s: Seq<char>) -> bool {
    1 <= s.len() <= MAX_TITLE_LEN
}

/// A submission reference holds 1 to 512 characters.
pub open spec fn submission_ok(s: Seq<char>) -> bool {
    1 <= s.len() <= MAX_SUBMISSION_LEN
}

/// `claimer` is the account recorded as the bounty's claimer.
pub open spec fn is_claimer(b: Bounty, claimer: Seq<char>) -> bool {
    b.claimer is Some && b.claimer->0@ == claimer
}

/// The refund that empties the custody of `b` to `payee`, if it holds anything.
pub open spec fn payout_of(b: Bounty, payee: String) -> Seq<Transfer> {
    if b.funded_amount > 0 {
        seq![Transfer::Release { bounty_id: b.id, token: b.token, payee, amount: b.funded_amount }]
    } else {
        seq![]
    }
}

fn terminal(s: BountyStatus) -> (r: bool)
    ensures
        r == is_terminal(s),
{
    s == BountyStatus::Completed || s == BountyStatus::Cancelled || s == BountyStatus::Expired
}

impl Bounty {
    /// A field-by-field copy.
    fn duplicate(&self) -> (r: Bounty)
        ensures
            r == *self,
    {
        let claimer = match &self.claimer {
            Some(c) => Some(c.clone()),
            None => None,
        };
        let submission_url = match &self.submission_url {
            Some(s) => Some(s.clone()),
            None => None,
        };
        Bounty {
            id: self.id,
            guild_id: self.guild_id,
            creator: self.creator.clone(),
            title: self.title.clone(),
            description: self.description.clone(),
            reward_amount: self.reward_amount,
            funded_amount: self.funded_amount,
            token: self.token.clone(),
            status: self.status,
            claimer,
            submission_url,
            created_at: self.created_at,
            expires_at: self.expires_at,
        }
    }
}

impl StellarGuildsContract {
    pub open spec fn bounty_exists(&self, id: u64) -> bool {
        1 <= id <= self.bounties@.len()
    }

    /// The stored record of bounty `id`.
    pub open spec fn bounty(&self, id: u64) -> Bounty {
        self.bounties@[id - 1]
    }

    /// `self` is `old` with bounty `id` replaced by `nb`, the transfers `moved` issued,
    /// and one notification `(bounty, action, id)` concerning `party` and `amount`.
    pub open spec fn bounty_step(
        &self,
        old: &Self,
        id: u64,
        nb: Bounty,
        moved: Seq<Transfer>,
        action: EventAction,
        party: Option<String>,
        amount: i128,
        now: u64,
    ) -> bool {
        &&& self.bounties@ == old.bounties@.update(id - 1, nb)
        &&& self.transfers@ == old.transfers@ + moved
        &&& self.custody_log@ == old.custody_log@ + moved
        &&& self.same_guild_tables(old)
        &&& self.same_pool_tables(old)
        &&& self.same_project_tables(old)
        &&& self.notified(old, EventModule::Bounty, action, id, party, amount, now)
    }

    /// No bounty of `self` is `Completed` unless it already was in `old`.
    pub open spec fn no_new_completion(&self, old: &Self) -> bool {
        forall|k: int|
            0 <= k < self.bounties@.len() && (#[trigger] self.bounties@[k]).status
                == BountyStatus::Completed ==> k < old.bounties@.len() && old.bounties@[k].status
                == BountyStatus::Completed
    }

    /// The lazy expiry that a touch of lapsed bounty `id` commits.
    pub open spec fn lapse_step(&self, old: &Self, id: u64, now: u64) -> bool {
        self.bounty_step(
            old,
            id,
            (Bounty { status: BountyStatus::Expired, ..old.bounty(id) }),
            seq![],
            EventAction::Expired,
            None,
            0,
            now,
        )
    }

    /// What refuses `create_bounty`, if anything.
    pub open spec fn creation_refusal(
        &self,
        guild_id: u64,
        creator: Seq<char>,
        title: Seq<char>,
        description: Seq<char>,
        reward: i128,
        expiry: u64,
        now: u64,
    ) -> Option<GuildsError> {
        if !self.permits(guild_id, creator, Role::Admin) {
            Some(GuildsError::Unauthorized)
        } else if reward < 0 || expiry <= now || !title_ok(title) || description.len()
            > MAX_DESCRIPTION_LEN {
            Some(GuildsError::InvalidInput)
        } else if self.bounties@.len() + 2 >= u64::MAX {
            Some(GuildsError::ArithmeticOverflow)
        } else {
            None
        }
    }

    /// What refuses `fund_bounty`, if anything.
    pub open spec fn funding_refusal(&self, id: u64, amount: i128, now: u64) -> Option<GuildsError> {
        if amount <= 0 {
            Some(GuildsError::InvalidInput)
        } else if !self.bounty_exists(id) {
            Some(GuildsError::NotFound)
        } else if lapsed(self.bounty(id), now) {
            Some(GuildsError::Expired)
        } else if !(self.bounty(id).status == BountyStatus::AwaitingFunds || self.bounty(id).status
            == BountyStatus::Open) {
            Some(GuildsError::InvalidState)
        } else if self.bounty(id).funded_amount + amount > i128::MAX {
            Some(GuildsError::ArithmeticOverflow)
        } else {
            None
        }
    }

    /// Bounty `id` after `amount` more is locked for it.
    pub open spec fn funded_record(&self, id: u64, amount: i128) -> Bounty {
        let b = self.bounty(id);
        let total = (b.funded_amount + amount) as i128;
        Bounty {
            funded_amount: total,
            status: if total >= b.reward_amount && b.status == BountyStatus::AwaitingFunds {
                BountyStatus::Open
            } else {
                b.status
            },
            ..b
        }
    }

    /// What refuses `claim_bounty`, if anything.
    pub open spec fn claim_refusal(&self, id: u64, now: u64) -> Option<GuildsError> {
        if !self.bounty_exists(id) {
            Some(GuildsError::NotFound)
        } else if lapsed(self.bounty(id), now) {
            Some(GuildsError::Expired)
        } else if self.bounty(id).status != BountyStatus::Open {
            Some(GuildsError::InvalidState)
        } else {
            None
        }
    }

    /// The complete outcome of `claim_bounty(id, claimer, now)` on `old`, leaving `new`.
    pub open spec fn claim_outcome(
        old: &Self,
        new: &Self,
        id: u64,
        claimer: String,
        now: u64,
        r: Result<bool, GuildsError>,
    ) -> bool {
        match old.claim_refusal(id, now) {
            Some(e) => r == Err::<bool, GuildsError>(e) && if e == GuildsError::Expired {
                new.lapse_step(old, id, now)
            } else {
                *new == *old
            },
            None => r == Ok::<bool, GuildsError>(true) && new.bounty_step(
                old,
                id,
                (Bounty {
                    status: BountyStatus::Claimed,
                    claimer: Some(claimer),
                    ..old.bounty(id)
                }),
                seq![],
                EventAction::Claimed,
                Some(claimer),
                0,
                now,
            ),
        }
    }

    /// What refuses `submit_work`, if anything.
    pub open spec fn submission_refusal(&self, id: u64, caller: Seq<char>, url: Seq<char>) -> Option<
        GuildsError,
    > {
        if !self.bounty_exists(id) {
            Some(GuildsError::NotFound)
        } else if !is_claimer(self.bounty(id), caller) {
            Some(GuildsError::Unauthorized)
        } else if self.bounty(id).status != BountyStatus::Claimed {
            Some(GuildsError::InvalidState)
        } else if !submission_ok(url) {
            Some(GuildsError::InvalidInput)
        } else {
            None
        }
    }

    /// What refuses `approve_completion`, if anything.
    pub open spec fn approval_refusal(&self, id: u64, approver: Seq<char>) -> Option<GuildsError> {
        if !self.bounty_exists(id) {
            Some(GuildsError::NotFound)
        } else if !self.permits(self.bounty(id).guild_id, approver, Role::Admin) {
            Some(GuildsError::Unauthorized)
        } else if self.bounty(id).status != BountyStatus::UnderReview {
            Some(GuildsError::InvalidState)
        } else {
            None
        }
    }

    /// What refuses `release_escrow`, if anything.
    pub open spec fn release_refusal(&self, id: u64, dispute_locked: bool) -> Option<GuildsError> {
        if dispute_locked {
            Some(GuildsError::DisputeLocked)
        } else if !self.bounty_exists(id) {
            Some(GuildsError::NotFound)
        } else if self.bounty(id).status != BountyStatus::Completed {
            Some(GuildsError::InvalidState)
        } else {
            None
        }
    }

    /// What refuses `cancel_bounty`, if anything.
    pub open spec fn cancel_refusal(&self, id: u64, canceller: Seq<char>, dispute_locked: bool) -> Option<
        GuildsError,
    > {
        if dispute_locked {
            Some(GuildsError::DisputeLocked)
        } else if !self.bounty_exists(id) {
            Some(GuildsError::NotFound)
        } else if self.bounty(id).status == BountyStatus::Completed || self.bounty(id).status
            == BountyStatus::Cancelled {
            Some(GuildsError::InvalidState)
        } else if !(self.bounty(id).creator@ == canceller || self.permits(
            self.bounty(id).guild_id,
            canceller,
            Role::Admin,
        )) {
            Some(GuildsError::Unauthorized)
        } else {
            None
        }
    }

    /// The index of bounty `id` in the table, if it exists.
    fn bounty_index(&self, id: u64) -> (r: Option<usize>)
        ensures
            r is Some <==> self.bounty_exists(id),
            r is Some ==> r->0 == id - 1,
    {
        if id == 0 || id > self.bounties.len() as u64 {
            None
        } else {
            Some((id - 1) as usize)
        }
    }
}

impl StellarGuildsContract {
    /// Creates a bounty in guild `guild_id` on behalf of `creator`, who must hold at least
    /// the admin role there. It starts `Open` when the reward is zero, else
    /// `AwaitingFunds`. Returns the new id; no funds move.
    pub fn create_bounty(
        &mut self,
        guild_id: u64,
        creator: String,
        title: String,
        description: String,
        reward_amount: i128,
        token: String,
        expiry: u64,
        now: u64,
    ) -> (r: Result<u64, GuildsError>)
        requires
            old(self).wf(),
            old(self).can_notify(),
        ensures
            final(self).wf(),
            final(self).no_new_completion(old(self)),
            match old(self).creation_refusal(
                guild_id,
                creator@,
                title@,
                description@,
                reward_amount,
                expiry,
                now,
            ) {
                Some(e) => r == Err::<u64, GuildsError>(e) && *final(self) == *old(self),
                None => {
                    let id = (old(self).bounties@.len() + 1) as u64;
                    &&& r == Ok::<u64, GuildsError>(id)
                    &&& final(self).bounties@ == old(self).bounties@.push(
                        (Bounty {
                            id,
                            guild_id,
                            creator,
                            title,
                            description,
                            reward_amount,
                            funded_amount: 0,
                            token,
                            status: initial_status(reward_amount),
                            claimer: None,
                            submission_url: None,
                            created_at: now,
                            expires_at: expiry,
                        }),
                    )
                    &&& final(self).transfers == old(self).transfers
                    &&& final(self).custody_log == old(self).custody_log
                    &&& final(self).same_guild_tables(old(self))
                    &&& final(self).same_pool_tables(old(self))
                    &&& final(self).same_project_tables(old(self))
                    &&& final(self).notified(
                        old(self),
                        EventModule::Bounty,
                        EventAction::Created,
                        id,
                        Some(creator),
                        reward_amount,
                        now,
                    )
                },
            },
    {
        if !self.has_permission(guild_id, creator.clone(), Role::Admin) {
            return Err(GuildsError::Unauthorized);
        }
        if reward_amount < 0 {
            return Err(GuildsError::InvalidInput);
        }
        if expiry <= now {
            return Err(GuildsError::InvalidInput);
        }
        let title_len = title.as_str().unicode_len();
        if title_len == 0 || title_len > MAX_TITLE_LEN {
            return Err(GuildsError::InvalidInput);
        }
        if description.as_str().unicode_len() > MAX_DESCRIPTION_LEN {
            return Err(GuildsError::InvalidInput);
        }
        if self.bounties.len() as u64 >= u64::MAX - 2 {
            return Err(GuildsError::ArithmeticOverflow);
        }
        let id = self.bounties.len() as u64 + 1;
        let status = if reward_amount == 0 {
            BountyStatus::Open
        } else {
            BountyStatus::AwaitingFunds
        };
        proof {
            lemma_totals_fresh(self.custody_log@, self.bounties@.len(), id);
        }
        let party = Some(creator.clone());
        self.bounties.push(
            Bounty {
                id,
                guild_id,
                creator,
                title,
                description,
                reward_amount,
                funded_amount: 0,
                token,
                status,
                claimer: None,
                submission_url: None,
                created_at: now,
                expires_at: expiry,
            },
        );
        self.emit_event(EventModule::Bounty, EventAction::Created, id, party, reward_amount, now);
        Ok(id)
    }

    /// Commits the expiry of lapsed bounty `id`, stored at `bi`.
    fn lapse(&mut self, bi: usize, id: u64, now: u64)
        requires
            old(self).wf(),
            old(self).can_notify(),
            bi < old(self).bounties@.len(),
            bi == id - 1,
        ensures
            final(self).wf(),
            final(self).lapse_step(old(self), id, now),
    {
        assert(self.bounties@[bi as int].id == id);
        self.bounties[bi].status = BountyStatus::Expired;
        self.emit_event(EventModule::Bounty, EventAction::Expired, id, None, 0, now);
    }

    /// Locks `amount` from `funder` into custody for bounty `bounty_id`. A bounty
    /// awaiting funds opens once what it holds reaches its reward; funding beyond the
    /// reward is accepted. A touch of a live bounty after its expiry expires it and fails.
    pub fn fund_bounty(&mut self, bounty_id: u64, funder: String, amount: i128, now: u64) -> (r:
        Result<bool, GuildsError>)
        requires
            old(self).wf(),
            old(self).can_notify(),
        ensures
            final(self).wf(),
            final(self).no_new_completion(old(self)),
            match old(self).funding_refusal(bounty_id, amount, now) {
                Some(e) => r == Err::<bool, GuildsError>(e) && if e == GuildsError::Expired {
                    final(self).lapse_step(old(self), bounty_id, now)
                } else {
                    *final(self) == *old(self)
                },
                None => r == Ok::<bool, GuildsError>(true) && final(self).bounty_step(
                    old(self),
                    bounty_id,
                    old(self).funded_record(bounty_id, amount),
                    seq![
                        Transfer::Lock {
                            bounty_id,
                            token: old(self).bounty(bounty_id).token,
                            payer: funder,
                            amount,
                        },
                    ],
                    EventAction::Funded,
                    Some(funder),
                    amount,
                    now,
                ),
            },
    {
        if amount <= 0 {
            return Err(GuildsError::InvalidInput);
        }
        let bi = match self.bounty_index(bounty_id) {
            Some(i) => i,
            None => {
                return Err(GuildsError::NotFound);
            },
        };
        assert(self.bounties@[bi as int].id == bounty_id);
        let status = self.bounties[bi].status;
        if !terminal(status) && now > self.bounties[bi].expires_at {
            self.lapse(bi, bounty_id, now);
            return Err(GuildsError::Expired);
        }
        if !(status == BountyStatus::AwaitingFunds || status == BountyStatus::Open) {
            return Err(GuildsError::InvalidState);
        }
        let funded = self.bounties[bi].funded_amount;
        if funded > i128::MAX - amount {
            return Err(GuildsError::ArithmeticOverflow);
        }
        let total = funded + amount;
        let reward = self.bounties[bi].reward_amount;
        let party = Some(funder.clone());
        let t = Transfer::Lock {
            bounty_id,
            token: self.bounties[bi].token.clone(),
            payer: funder,
            amount,
        };
        proof {
            lemma_journal_push(self.custody_log@, t, self.bounties@.len());
        }
        self.record_transfer(t);
        let b = &mut self.bounties[bi];
        b.funded_amount = total;
        if total >= reward && status == BountyStatus::AwaitingFunds {
            b.status = BountyStatus::Open;
        }
        self.emit_event(EventModule::Bounty, EventAction::Funded, bounty_id, party, amount, now);
        Ok(true)
    }

    /// Claims open bounty `bounty_id` for `claimer`: the first claim wins. A touch of a
    /// live bounty after its expiry expires it and fails.
    pub fn claim_bounty(&mut self, bounty_id: u64, claimer: String, now: u64) -> (r: Result<
        bool,
        GuildsError,
    >)
        requires
            old(self).wf(),
            old(self).can_notify(),
        ensures
            final(self).wf(),
            final(self).no_new_completion(old(self)),
            Self::claim_outcome(old(self), final(self), bounty_id, claimer, now, r),
    {
        let bi = match self.bounty_index(bounty_id) {
            Some(i) => i,
            None => {
                return Err(GuildsError::NotFound);
            },
        };
        assert(self.bounties@[bi as int].id == bounty_id);
        let status = self.bounties[bi].status;
        if !terminal(status) && now > self.bounties[bi].expires_at {
            self.lapse(bi, bounty_id, now);
            return Err(GuildsError::Expired);
        }
        if status != BountyStatus::Open {
            return Err(GuildsError::InvalidState);
        }
        let party = Some(claimer.clone());
        let b = &mut self.bounties[bi];
        b.status = BountyStatus::Claimed;
        b.claimer = Some(claimer);
        self.emit_event(EventModule::Bounty, EventAction::Claimed, bounty_id, party, 0, now);
        Ok(true)
    }
}

impl StellarGuildsContract {
    /// Records `submission_url` as the work for bounty `bounty_id` and puts it under
    /// review. Only the recorded claimer may submit, and only while the bounty is claimed.
    pub fn submit_work(&mut self, bounty_id: u64, caller: String, submission_url: String, now: u64) -> (r:
        Result<bool, GuildsError>)
        requires
            old(self).wf(),
            old(self).can_notify(),
        ensures
            final(self).wf(),
            final(self).no_new_completion(old(self)),
            match old(self).submission_refusal(bounty_id, caller@, submission_url@) {
                Some(e) => r == Err::<bool, GuildsError>(e) && *final(self) == *old(self),
                None => r == Ok::<bool, GuildsError>(true) && final(self).bounty_step(
                    old(self),
                    bounty_id,
                    (Bounty {
                        status: BountyStatus::UnderReview,
                        submission_url: Some(submission_url),
                        ..old(self).bounty(bounty_id)
                    }),
                    seq![],
                    EventAction::Submitted,
                    Some(caller),
                    0,
                    now,
                ),
            },
    {
        let bi = match self.bounty_index(bounty_id) {
            Some(i) => i,
            None => {
                return Err(GuildsError::NotFound);
            },
        };
        assert(self.bounties@[bi as int].id == bounty_id);
        let is_claimer = match &self.bounties[bi].claimer {
            Some(c) => *c == caller,
            None => false,
        };
        if !is_claimer {
            return Err(GuildsError::Unauthorized);
        }
        if self.bounties[bi].status != BountyStatus::Claimed {
            return Err(GuildsError::InvalidState);
        }
        let len = submission_url.as_str().unicode_len();
        if len == 0 || len > MAX_SUBMISSION_LEN {
            return Err(GuildsError::InvalidInput);
        }
        let b = &mut self.bounties[bi];
        b.status = BountyStatus::UnderReview;
        b.submission_url = Some(submission_url);
        self.emit_event(EventModule::Bounty, EventAction::Submitted, bounty_id, Some(caller), 0, now);
        Ok(true)
    }

    /// Marks bounty `bounty_id`, under review, as completed. The approver must hold at
    /// least the admin role in the bounty's guild. No funds move.
    pub fn approve_completion(&mut self, bounty_id: u64, approver: String, now: u64) -> (r: Result<
        bool,
        GuildsError,
    >)
        requires
            old(self).wf(),
            old(self).can_notify(),
        ensures
            final(self).wf(),
            match old(self).approval_refusal(bounty_id, approver@) {
                Some(e) => r == Err::<bool, GuildsError>(e) && *final(self) == *old(self),
                None => r == Ok::<bool, GuildsError>(true) && final(self).bounty_step(
                    old(self),
                    bounty_id,
                    (Bounty { status: BountyStatus::Completed, ..old(self).bounty(bounty_id) }),
                    seq![],
                    EventAction::Approved,
                    Some(approver),
                    0,
                    now,
                ),
            },
    {
        let bi = match self.bounty_index(bounty_id) {
            Some(i) => i,
            None => {
                return Err(GuildsError::NotFound);
            },
        };
        assert(self.bounties@[bi as int].id == bounty_id);
        if !self.has_permission(self.bounties[bi].guild_id, approver.clone(), Role::Admin) {
            return Err(GuildsError::Unauthorized);
        }
        if self.bounties[bi].status != BountyStatus::UnderReview {
            return Err(GuildsError::InvalidState);
        }
        self.bounties[bi].status = BountyStatus::Completed;
        self.emit_event(EventModule::Bounty, EventAction::Approved, bounty_id, Some(approver), 0, now);
        Ok(true)
    }

    /// Empties the custody of the bounty at `bi` to `payee` and gives it `status`.
    fn settle(&mut self, bi: usize, id: u64, payee: String, status: BountyStatus)
        requires
            old(self).wf(),
            bi < old(self).bounties@.len(),
            bi == id - 1,
            !needs_claimer(status) || old(self).bounties@[bi as int].claimer is Some,
        ensures
            final(self).wf(),
            final(self).bounties@ == old(self).bounties@.update(
                bi as int,
                (Bounty { funded_amount: 0, status, ..old(self).bounties@[bi as int] }),
            ),
            final(self).transfers@ == old(self).transfers@ + payout_of(old(self).bounty(id), payee),
            final(self).custody_log@ == old(self).custody_log@ + payout_of(
                old(self).bounty(id),
                payee,
            ),
            final(self).same_guild_tables(old(self)),
            final(self).same_pool_tables(old(self)),
            final(self).same_project_tables(old(self)),
            final(self).event_sequence == old(self).event_sequence,
            final(self).events == old(self).events,
    {
        assert(self.bounties@[bi as int].id == id);
        let funded = self.bounties[bi].funded_amount;
        if funded > 0 {
            let t = Transfer::Release {
                bounty_id: id,
                token: self.bounties[bi].token.clone(),
                payee,
                amount: funded,
            };
            proof {
                lemma_journal_push(self.custody_log@, t, self.bounties@.len());
            }
            self.record_transfer(t);
        } else {
            assert(self.transfers@ + seq![] =~= self.transfers@);
            assert(self.custody_log@ + seq![] =~= self.custody_log@);
        }
        let b = &mut self.bounties[bi];
        b.funded_amount = 0;
        b.status = status;
    }

    /// Pays everything held for completed bounty `bounty_id` to its claimer. Anyone may
    /// call it: payee and amount are fixed by the record. Nothing moves when nothing is
    /// held.
    pub fn release_escrow(&mut self, bounty_id: u64, dispute_locked: bool, now: u64) -> (r: Result<
        bool,
        GuildsError,
    >)
        requires
            old(self).wf(),
            old(self).can_notify(),
        ensures
            final(self).wf(),
            final(self).no_new_completion(old(self)),
            match old(self).release_refusal(bounty_id, dispute_locked) {
                Some(e) => r == Err::<bool, GuildsError>(e) && *final(self) == *old(self),
                None => {
                    let b = old(self).bounty(bounty_id);
                    &&& r == Ok::<bool, GuildsError>(true)
                    &&& b.funded_amount > 0 ==> final(self).bounty_step(
                        old(self),
                        bounty_id,
                        (Bounty { funded_amount: 0, ..b }),
                        payout_of(b, b.claimer->0),
                        EventAction::Released,
                        b.claimer,
                        b.funded_amount,
                        now,
                    )
                    &&& b.funded_amount == 0 ==> *final(self) == *old(self)
                },
            },
    {
        if dispute_locked {
            return Err(GuildsError::DisputeLocked);
        }
        let bi = match self.bounty_index(bounty_id) {
            Some(i) => i,
            None => {
                return Err(GuildsError::NotFound);
            },
        };
        assert(self.bounties@[bi as int].id == bounty_id);
        if self.bounties[bi].status != BountyStatus::Completed {
            return Err(GuildsError::InvalidState);
        }
        let payee = match &self.bounties[bi].claimer {
            Some(c) => c.clone(),
            None => {
                return Err(GuildsError::InvalidState);
            },
        };
        if self.bounties[bi].funded_amount > 0 {
            let party = Some(payee.clone());
            let paid = self.bounties[bi].funded_amount;
            self.settle(bi, bounty_id, payee, BountyStatus::Completed);
            self.emit_event(EventModule::Bounty, EventAction::Released, bounty_id, party, paid, now);
        }
        Ok(true)
    }

    /// Cancels bounty `bounty_id` on behalf of its creator or of an admin of its guild,
    /// refunding everything held to the creator, whoever funded it.
    pub fn cancel_bounty(&mut self, bounty_id: u64, canceller: String, dispute_locked: bool, now: u64) -> (r:
        Result<bool, GuildsError>)
        requires
            old(self).wf(),
            old(self).can_notify(),
        ensures
            final(self).wf(),
            final(self).no_new_completion(old(self)),
            match old(self).cancel_refusal(bounty_id, canceller@, dispute_locked) {
                Some(e) => r == Err::<bool, GuildsError>(e) && *final(self) == *old(self),
                None => {
                    let b = old(self).bounty(bounty_id);
                    &&& r == Ok::<bool, GuildsError>(true)
                    &&& final(self).bounty_step(
                        old(self),
                        bounty_id,
                        (Bounty { funded_amount: 0, status: BountyStatus::Cancelled, ..b }),
                        payout_of(b, b.creator),
                        EventAction::Cancelled,
                        Some(b.creator),
                        b.funded_amount,
                        now,
                    )
                },
            },
    {
        if dispute_locked {
            return Err(GuildsError::DisputeLocked);
        }
        let bi = match self.bounty_index(bounty_id) {
            Some(i) => i,
            None => {
                return Err(GuildsError::NotFound);
            },
        };
        assert(self.bounties@[bi as int].id == bounty_id);
        let status = self.bounties[bi].status;
        if status == BountyStatus::Completed || status == BountyStatus::Cancelled {
            return Err(GuildsError::InvalidState);
        }
        let is_creator = self.bounties[bi].creator == canceller;
        if !is_creator && !self.has_permission(self.bounties[bi].guild_id, canceller, Role::Admin) {
            return Err(GuildsError::Unauthorized);
        }
        let creator = self.bounties[bi].creator.clone();
        let party = Some(creator.clone());
        let refund = self.bounties[bi].funded_amount;
        self.settle(bi, bounty_id, creator, BountyStatus::Cancelled);
        self.emit_event(EventModule::Bounty, EventAction::Cancelled, bounty_id, party, refund, now);
        Ok(true)
    }

    /// Expires bounty `bounty_id` once its expiry has passed, refunding everything held
    /// to the creator. Returns `false`, changing nothing, when the bounty is already
    /// completed, cancelled or expired, or when its expiry has not passed.
    pub fn expire_bounty(&mut self, bounty_id: u64, dispute_locked: bool, now: u64) -> (r: Result<
        bool,
        GuildsError,
    >)
        requires
            old(self).wf(),
            old(self).can_notify(),
        ensures
            final(self).wf(),
            final(self).no_new_completion(old(self)),
            !old(self).bounty_exists(bounty_id) ==> r == Err::<bool, GuildsError>(
                GuildsError::NotFound,
            ) && *final(self) == *old(self),
            old(self).bounty_exists(bounty_id) ==> {
                let b = old(self).bounty(bounty_id);
                if is_terminal(b.status) {
                    r == Ok::<bool, GuildsError>(false) && *final(self) == *old(self)
                } else if dispute_locked {
                    r == Err::<bool, GuildsError>(GuildsError::DisputeLocked) && *final(self)
                        == *old(self)
                } else if now <= b.expires_at {
                    r == Ok::<bool, GuildsError>(false) && *final(self) == *old(self)
                } else {
                    r == Ok::<bool, GuildsError>(true) && final(self).bounty_step(
                        old(self),
                        bounty_id,
                        (Bounty { funded_amount: 0, status: BountyStatus::Expired, ..b }),
                        payout_of(b, b.creator),
                        EventAction::Expired,
                        Some(b.creator),
                        b.funded_amount,
                        now,
                    )
                }
            },
    {
        let bi = match self.bounty_index(bounty_id) {
            Some(i) => i,
            None => {
                return Err(GuildsError::NotFound);
            },
        };
        assert(self.bounties@[bi as int].id == bounty_id);
        if terminal(self.bounties[bi].status) {
            return Ok(false);
        }
        if dispute_locked {
            return Err(GuildsError::DisputeLocked);
        }
        if now <= self.bounties[bi].expires_at {
            return Ok(false);
        }
        let creator = self.bounties[bi].creator.clone();
        let party = Some(creator.clone());
        let refund = self.bounties[bi].funded_amount;
        self.settle(bi, bounty_id, creator, BountyStatus::Expired);
        self.emit_event(EventModule::Bounty, EventAction::Expired, bounty_id, party, refund, now);
        Ok(true)
    }

    /// The record of bounty `bounty_id`, if there is one.
    pub fn get_bounty(&self, bounty_id: u64) -> (r: Option<&Bounty>)
        requires
            self.wf(),
        ensures
            r is Some <==> self.bounty_exists(bounty_id),
            r is Some ==> *r->0 == self.bounty(bounty_id),
    {
        match self.bounty_index(bounty_id) {
            Some(i) => Some(&self.bounties[i]),
            None => None,
        }
    }

    /// The bounties of guild `guild_id`, oldest first.
    pub fn get_guild_bounties(&self, guild_id: u64) -> (r: Vec<Bounty>)
        requires
            self.wf(),
        ensures
            r@ == self.bounties@.filter(|b: Bounty| b.guild_id == guild_id),
    {
        let mut out: Vec<Bounty> = Vec::new();
        let mut i: usize = 0;
        while i < self.bounties.len()
            invariant
                0 <= i <= self.bounties@.len(),
                out@ == self.bounties@.take(i as int).filter(|b: Bounty| b.guild_id == guild_id),
            decreases self.bounties@.len() - i,
        {
            proof {
                assert(self.bounties@.take(i + 1).drop_last() == self.bounties@.take(i as int));
                reveal(Seq::filter);
            }
            if self.bounties[i].guild_id == guild_id {
                out.push(self.bounties[i].duplicate());
            }
            i += 1;
        }
        proof {
            assert(self.bounties@.take(self.bounties@.len() as int) == self.bounties@);
        }
        out
    }
}

} // verus!
