use vstd::prelude::*;
use crate::contract::StellarGuildsContract;
use crate::custody::{Transfer, bounty_of, lemma_journal_extend, release_amount_ok};
use crate::events::{EventAction, EventModule};

verus! {

/// Why a payment pool operation was refused.
#[derive(Clone, Copy, Debug, PartialEq, Eq, Structural)]
pub enum PaymentError {
    PoolNotFound,
    PoolNotPending,
    Unauthorized,
    InvalidShare,
    DuplicateRecipient,
    SharesNot100Percent,
    NoRecipients,
    InsufficientBalance,
    TransferFailed,
    ArithmeticOverflow,
    InvalidAmount,
}

/// How a pool splits its amount.
#[derive(Clone, Copy, Debug, PartialEq, Eq, Structural)]
pub enum DistributionRule {
    /// Each recipient's share is a percentage; the shares must sum to 100.
    Percentage,
    /// Every recipient receives the same amount.
    EqualSplit,
    /// Each recipient receives in proportion to its weight.
    Weighted,
}

/// Where a pool stands.
#[derive(Clone, Copy, Debug, PartialEq, Eq, Structural)]
pub enum DistributionStatus {
    /// Recipients may still be added.
    Pending,
    Executed,
    /// The platform held less than the pool's amount when it was executed.
    Failed,
    Cancelled,
}

/// An amount to split between recipients.
#[derive(Clone, Debug, PartialEq, Eq)]
pub struct PaymentPool {
    pub id: u64,
    pub total_amount: i128,
    /// The asset paid out; the native asset when absent.
    pub token: Option<String>,
    pub status: DistributionStatus,
    pub created_by: String,
    pub rule: DistributionRule,
    pub created_at: u64,
}

/// One recipient of a pool: a percentage or a weight, depending on the pool's rule.
#[derive(Clone, Debug, PartialEq, Eq)]
pub struct Recipient {
    pub address: String,
    pub share: u32,
}

/// Amounts below this are not paid out.
pub const MIN_SHARE_AMOUNT: i128 = 1;

/// A share that the rule accepts.
pub open spec fn share_ok(rule: DistributionRule, share: u32) -> bool {
    match rule {
        DistributionRule::Percentage => 1 <= share <= 100,
        _ => share >= 1,
    }
}

/// No address is listed twice in `rs`.
pub open spec fn unique_recipients(rs: Seq<Recipient>) -> bool {
    forall|i: int, j: int|
        0 <= i < rs.len() && 0 <= j < rs.len() && i != j ==> #[trigger] rs[i].address@
            != #[trigger] rs[j].address@
}

/// `a` is listed in `rs`.
pub open spec fn lists(rs: Seq<Recipient>, a: Seq<char>) -> bool {
    exists|i: int| 0 <= i < rs.len() && (#[trigger] rs[i]).address@ == a
}

/// Pool `p`, kept at position `i` with recipients `rs`, is consistent.
pub open spec fn pool_ok(p: PaymentPool, rs: Seq<Recipient>, i: int) -> bool {
    &&& p.id == i + 1
    &&& p.total_amount > 0
    &&& rs.len() < u32::MAX
    &&& unique_recipients(rs)
    &&& forall|k: int| 0 <= k < rs.len() ==> share_ok(p.rule, (#[trigger] rs[k]).share)
}

/// The sum of the shares of `rs`.
pub open spec fn share_sum(rs: Seq<Recipient>) -> int
    decreases rs.len(),
{
    if rs.len() == 0 {
        0
    } else {
        share_sum(rs.drop_last()) + rs.last().share
    }
}

/// What a recipient with `share` receives from pool `p`, among `n` recipients whose
/// weights sum to `weight` (absent outside weighted pools); `None` where the computation
/// overflows or divides by zero.
pub open spec fn recipient_amount(p: PaymentPool, share: u32, n: u32, weight: Option<u64>) -> Option<int> {
    match p.rule {
        DistributionRule::Percentage => if p.total_amount * share > i128::MAX {
            None
        } else {
            Some(p.total_amount * share / 100)
        },
        DistributionRule::EqualSplit => if n == 0 {
            None
        } else {
            Some((p.total_amount as int) / (n as int))
        },
        DistributionRule::Weighted => match weight {
            Some(w) => if p.total_amount * share > i128::MAX || w == 0 {
                None
            } else {
                Some(p.total_amount * share / (w as int))
            },
            None => None,
        },
    }
}

/// The weight sum a pool's computation uses: the shares' sum for weighted pools.
pub open spec fn weight_of(p: PaymentPool, rs: Seq<Recipient>) -> Option<u64> {
    if p.rule == DistributionRule::Weighted {
        Some(share_sum(rs) as u64)
    } else {
        None
    }
}

/// What recipient `r` of pool `p`, among all recipients `all`, receives.
pub open spec fn amount_in(p: PaymentPool, all: Seq<Recipient>, r: Recipient) -> Option<int> {
    recipient_amount(p, r.share, all.len() as u32, weight_of(p, all))
}

/// Every recipient's amount can be computed.
pub open spec fn computable(p: PaymentPool, all: Seq<Recipient>) -> bool {
    forall|k: int| 0 <= k < all.len() ==> (#[trigger] amount_in(p, all, all[k])) is Some
}

/// The payouts of pool `p` (id `pool_id`) to the recipients `rs`, in order, skipping
/// amounts below the minimum.
pub open spec fn payouts(p: PaymentPool, pool_id: u64, all: Seq<Recipient>, rs: Seq<Recipient>) -> Seq<
    Transfer,
>
    decreases rs.len(),
{
    if rs.len() == 0 {
        seq![]
    } else {
        let before = payouts(p, pool_id, all, rs.drop_last());
        let a = amount_in(p, all, rs.last())->0;
        if a >= MIN_SHARE_AMOUNT {
            before.push(
                Transfer::PoolPayout {
                    pool_id,
                    currency: p.token,
                    payee: rs.last().address,
                    amount: a as i128,
                },
            )
        } else {
            before
        }
    }
}

/// The sum of the payouts of pool `p` to the recipients `rs`.
pub open spec fn paid_total(p: PaymentPool, all: Seq<Recipient>, rs: Seq<Recipient>) -> int
    decreases rs.len(),
{
    if rs.len() == 0 {
        0
    } else {
        let a = amount_in(p, all, rs.last())->0;
        paid_total(p, all, rs.drop_last()) + if a >= MIN_SHARE_AMOUNT {
            a
        } else {
            0
        }
    }
}

/// What recipient `recipient` of `pool` receives, among `total_recipients` recipients
/// whose weights sum to `total_weight` (given for weighted pools).
fn calculate_recipient_amount(
    pool: &PaymentPool,
    recipient: &Recipient,
    total_recipients: u32,
    total_weight: Option<u64>,
) -> (r: Result<i128, PaymentError>)
    requires
        pool.total_amount > 0,
    ensures
        match recipient_amount(*pool, recipient.share, total_recipients, total_weight) {
            Some(a) => r == Ok::<i128, PaymentError>(a as i128) && 0 <= a,
            None => r == Err::<i128, PaymentError>(PaymentError::ArithmeticOverflow),
        },
{
    match pool.rule {
        DistributionRule::Percentage => {
            match pool.total_amount.checked_mul(recipient.share as i128) {
                Some(product) => {
                    assert(product >= 0) by (nonlinear_arith)
                        requires
                            product == pool.total_amount * recipient.share,
                            pool.total_amount > 0,
                            recipient.share >= 0,
                    ;
                    Ok(product / 100)
                },
                None => Err(PaymentError::ArithmeticOverflow),
            }
        },
        DistributionRule::EqualSplit => {
            if total_recipients == 0 {
                Err(PaymentError::ArithmeticOverflow)
            } else {
                Ok(pool.total_amount / (total_recipients as i128))
            }
        },
        DistributionRule::Weighted => {
            match total_weight {
                Some(w) => {
                    if w == 0 {
                        return Err(PaymentError::ArithmeticOverflow);
                    }
                    match pool.total_amount.checked_mul(recipient.share as i128) {
                        Some(product) => {
                            assert(product >= 0) by (nonlinear_arith)
                                requires
                                    product == pool.total_amount * recipient.share,
                                    pool.total_amount > 0,
                                    recipient.share >= 0,
                            ;
                            assert((product as int) / (w as int) <= product) by (nonlinear_arith)
                                requires
                                    product >= 0,
                                    w > 0,
                            ;
                            Ok(product / (w as i128))
                        },
                        None => Err(PaymentError::ArithmeticOverflow),
                    }
                },
                None => Err(PaymentError::ArithmeticOverflow),
            }
        },
    }
}

proof fn lemma_paid_total_grows(p: PaymentPool, all: Seq<Recipient>, rs: Seq<Recipient>, i: int)
    requires
        0 <= i <= rs.len(),
    ensures
        paid_total(p, all, rs.take(i)) <= paid_total(p, all, rs),
    decreases rs.len() - i,
{
    if i < rs.len() {
        lemma_paid_total_grows(p, all, rs, i + 1);
        assert(rs.take(i + 1).drop_last() == rs.take(i));
    } else {
        assert(rs.take(i) == rs);
    }
}

proof fn lemma_unique_recipients_push(rs: Seq<Recipient>, r: Recipient)
    requires
        unique_recipients(rs),
        !lists(rs, r.address@),
    ensures
        unique_recipients(rs.push(r)),
{
    let l = rs.push(r);
    assert forall|x: int, y: int|
        0 <= x < l.len() && 0 <= y < l.len() && x != y implies #[trigger] l[x].address@
        != #[trigger] l[y].address@ by {
        if x == rs.len() {
            assert(l[y] == rs[y]);
        } else if y == rs.len() {
            assert(l[x] == rs[x]);
        } else {
            assert(l[x] == rs[x] && l[y] == rs[y]);
        }
    }
}

/// Where `a` is listed in `rs`, if it is.
fn find_recipient(rs: &Vec<Recipient>, a: &String) -> (r: Option<usize>)
    ensures
        match r {
            Some(i) => i < rs@.len() && rs@[i as int].address@ == a@,
            None => !lists(rs@, a@),
        },
{
    let mut i: usize = 0;
    while i < rs.len()
        invariant
            0 <= i <= rs@.len(),
            forall|k: int| 0 <= k < i ==> rs@[k].address@ != a@,
        decreases rs@.len() - i,
    {
        if rs[i].address == *a {
            return Some(i);
        }
        i += 1;
    }
    None
}

/// The sum of the shares of `rs`.
fn sum_shares(rs: &Vec<Recipient>) -> (r: u64)
    requires
        rs@.len() < u32::MAX,
    ensures
        r == share_sum(rs@),
{
    let mut sum: u64 = 0;
    let mut i: usize = 0;
    while i < rs.len()
        invariant
            0 <= i <= rs@.len(),
            rs@.len() < u32::MAX,
            sum == share_sum(rs@.take(i as int)),
            sum <= i * (u32::MAX as int),
        decreases rs@.len() - i,
    {
        proof {
            assert(rs@.take(i + 1).drop_last() == rs@.take(i as int));
            assert(rs@.take(i + 1).last() == rs@[i as int]);
        }
        let share = rs[i].share;
        assert(sum + share <= (i + 1) * (u32::MAX as int) <= u32::MAX as int * u32::MAX as int)
            by (nonlinear_arith)
            requires
                sum <= i * (u32::MAX as int),
                share <= u32::MAX,
                i + 1 <= u32::MAX,
        ;
        sum = sum + share as u64;
        i += 1;
    }
    proof {
        assert(rs@.take(rs@.len() as int) == rs@);
    }
    sum
}

impl StellarGuildsContract {
    pub open spec fn pool_exists(&self, id: u64) -> bool {
        1 <= id <= self.pools@.len()
    }

    /// The stored record of pool `id`.
    pub open spec fn pool(&self, id: u64) -> PaymentPool {
        self.pools@[id - 1]
    }

    /// The recipients of pool `id`, in the order they were added.
    pub open spec fn recipients_of(&self, id: u64) -> Seq<Recipient> {
        self.pool_recipients@[id - 1]@
    }

    /// `self` is `old` with pool `id` replaced by `np` and its recipients by `nrs`, the
    /// transfers `moved` issued, and one notification `(payment, action, id)` concerning
    /// `party` and `amount`.
    pub open spec fn pool_step(
        &self,
        old: &Self,
        id: u64,
        np: PaymentPool,
        nrs: Seq<Recipient>,
        moved: Seq<Transfer>,
        action: EventAction,
        party: Option<String>,
        amount: i128,
        now: u64,
    ) -> bool {
        &&& self.pools@ == old.pools@.update(id - 1, np)
        &&& self.pool_recipients@.len() == old.pool_recipients@.len()
        &&& forall|x: int|
            0 <= x < old.pool_recipients@.len() && x != id - 1 ==> #[trigger] self.pool_recipients@[x]
                == old.pool_recipients@[x]
        &&& self.recipients_of(id) == nrs
        &&& self.same_guild_tables(old)
        &&& self.bounties == old.bounties
        &&& self.same_project_tables(old)
        &&& self.transfers@ == old.transfers@ + moved
        &&& self.custody_log@ == old.custody_log@ + moved
        &&& self.notified(old, EventModule::Payment, action, id, party, amount, now)
    }

    /// What refuses `add_recipient`, if anything.
    pub open spec fn recipient_refusal(&self, id: u64, a: Seq<char>, share: u32, caller: Seq<char>) -> Option<
        PaymentError,
    > {
        if !self.pool_exists(id) {
            Some(PaymentError::PoolNotFound)
        } else if self.pool(id).created_by@ != caller {
            Some(PaymentError::Unauthorized)
        } else if self.pool(id).status != DistributionStatus::Pending {
            Some(PaymentError::PoolNotPending)
        } else if lists(self.recipients_of(id), a) {
            Some(PaymentError::DuplicateRecipient)
        } else if !share_ok(self.pool(id).rule, share) {
            Some(PaymentError::InvalidShare)
        } else if self.recipients_of(id).len() + 1 >= u32::MAX {
            Some(PaymentError::ArithmeticOverflow)
        } else {
            None
        }
    }

    /// What `validate_distribution` reports on pool `id`.
    pub open spec fn validation(&self, id: u64) -> Result<bool, PaymentError> {
        if !self.pool_exists(id) {
            Err(PaymentError::PoolNotFound)
        } else if self.recipients_of(id).len() == 0 {
            Err(PaymentError::NoRecipients)
        } else if self.pool(id).rule == DistributionRule::Percentage && share_sum(
            self.recipients_of(id),
        ) != 100 {
            Err(PaymentError::SharesNot100Percent)
        } else {
            Ok(true)
        }
    }

    /// What refuses `execute_distribution`, if anything.
    pub open spec fn execution_refusal(&self, id: u64, caller: Seq<char>, balance: i128) -> Option<
        PaymentError,
    > {
        let p = self.pool(id);
        let rs = self.recipients_of(id);
        if !self.pool_exists(id) {
            Some(PaymentError::PoolNotFound)
        } else if p.created_by@ != caller {
            Some(PaymentError::Unauthorized)
        } else if p.status != DistributionStatus::Pending {
            Some(PaymentError::PoolNotPending)
        } else if self.validation(id) is Err {
            Some(self.validation(id)->Err_0)
        } else if balance < p.total_amount {
            Some(PaymentError::InsufficientBalance)
        } else if !computable(p, rs) || paid_total(p, rs, rs) > i128::MAX {
            Some(PaymentError::ArithmeticOverflow)
        } else {
            None
        }
    }

    fn pool_index(&self, id: u64) -> (r: Option<usize>)
        ensures
            r is Some <==> self.pool_exists(id),
            r is Some ==> r->0 == id - 1,
    {
        if id == 0 || id > self.pools.len() as u64 {
            None
        } else {
            Some((id - 1) as usize)
        }
    }

    /// Creates a pending pool that will split `amount` of `token` by `rule`. Returns its id.
    pub fn create_payment_pool(
        &mut self,
        amount: i128,
        token: Option<String>,
        rule: DistributionRule,
        creator: String,
        now: u64,
    ) -> (r: Result<u64, PaymentError>)
        requires
            old(self).wf(),
            old(self).can_notify(),
        ensures
            final(self).wf(),
            amount <= 0 ==> r == Err::<u64, PaymentError>(PaymentError::InvalidAmount) && *final(self) == *old(self),
            amount > 0 && old(self).pools@.len() + 2 >= u64::MAX ==> r == Err::<u64, PaymentError>(
                PaymentError::ArithmeticOverflow,
            ) && *final(self) == *old(self),
            amount > 0 && old(self).pools@.len() + 2 < u64::MAX ==> {
                let id = (old(self).pools@.len() + 1) as u64;
                &&& r == Ok::<u64, PaymentError>(id)
                &&& final(self).pools@ == old(self).pools@.push(
                    (PaymentPool {
                        id,
                        total_amount: amount,
                        token,
                        status: DistributionStatus::Pending,
                        created_by: creator,
                        rule,
                        created_at: now,
                    }),
                )
                &&& final(self).pool_recipients@.len() == id
                &&& final(self).recipients_of(id).len() == 0
                &&& forall|x: int|
                    0 <= x < id - 1 ==> #[trigger] final(self).pool_recipients@[x] == old(self).pool_recipients@[x]
                &&& final(self).same_guild_tables(old(self))
                &&& final(self).bounties == old(self).bounties
                &&& final(self).same_project_tables(old(self))
                &&& final(self).transfers == old(self).transfers
                &&& final(self).custody_log == old(self).custody_log
                &&& final(self).notified(old(self), EventModule::Payment, EventAction::Created, id, Some(creator), amount, now)
            },
    {
        if amount <= 0 {
            return Err(PaymentError::InvalidAmount);
        }
        if self.pools.len() as u64 >= u64::MAX - 2 {
            return Err(PaymentError::ArithmeticOverflow);
        }
        let id = self.pools.len() as u64 + 1;
        let party = Some(creator.clone());
        self.pools.push(
            PaymentPool {
                id,
                total_amount: amount,
                token,
                status: DistributionStatus::Pending,
                created_by: creator,
                rule,
                created_at: now,
            },
        );
        self.pool_recipients.push(Vec::new());
        proof {
            let n = self.pools@.len() - 1;
            assert(self.pool_recipients@[n]@.len() == 0);
            assert(pool_ok(self.pools@[n], self.pool_recipients@[n]@, n));
        }
        self.emit_event(EventModule::Payment, EventAction::Created, id, party, amount, now);
        Ok(id)
    }

    /// Adds `address` to pending pool `pool_id` with `share`, on behalf of the pool's
    /// creator. A percentage share lies in 1..=100; a weight is at least 1.
    pub fn add_recipient(&mut self, pool_id: u64, address: String, share: u32, caller: String, now: u64) -> (r:
        Result<bool, PaymentError>)
        requires
            old(self).wf(),
            old(self).can_notify(),
        ensures
            final(self).wf(),
            match old(self).recipient_refusal(pool_id, address@, share, caller@) {
                Some(e) => r == Err::<bool, PaymentError>(e) && *final(self) == *old(self),
                None => r == Ok::<bool, PaymentError>(true) && final(self).pool_step(
                    old(self),
                    pool_id,
                    old(self).pool(pool_id),
                    old(self).recipients_of(pool_id).push((Recipient { address, share })),
                    seq![],
                    EventAction::RecipientAdded,
                    Some(address),
                    share as i128,
                    now,
                ),
            },
    {
        let pi = match self.pool_index(pool_id) {
            Some(i) => i,
            None => {
                return Err(PaymentError::PoolNotFound);
            },
        };
        assert(pool_ok(self.pools@[pi as int], self.pool_recipients@[pi as int]@, pi as int));
        if !(self.pools[pi].created_by == caller) {
            return Err(PaymentError::Unauthorized);
        }
        if self.pools[pi].status != DistributionStatus::Pending {
            return Err(PaymentError::PoolNotPending);
        }
        if find_recipient(&self.pool_recipients[pi], &address).is_some() {
            return Err(PaymentError::DuplicateRecipient);
        }
        let valid = match self.pools[pi].rule {
            DistributionRule::Percentage => share >= 1 && share <= 100,
            _ => share >= 1,
        };
        if !valid {
            return Err(PaymentError::InvalidShare);
        }
        if self.pool_recipients[pi].len() as u64 + 1 >= u32::MAX as u64 {
            return Err(PaymentError::ArithmeticOverflow);
        }
        let ghost before = self.pool_recipients@;
        let party = Some(address.clone());
        let recipient = Recipient { address, share };
        proof {
            lemma_unique_recipients_push(before[pi as int]@, recipient);
        }
        self.pool_recipients[pi].push(recipient);
        proof {
            let rs = self.pool_recipients@[pi as int]@;
            assert forall|k: int| 0 <= k < rs.len() implies share_ok(self.pools@[pi as int].rule, (#[trigger] rs[k]).share) by {
                if k < before[pi as int]@.len() {
                    assert(rs[k] == before[pi as int]@[k]);
                }
            }
            assert(pool_ok(self.pools@[pi as int], rs, pi as int));
            assert forall|i: int| 0 <= i < self.pools@.len() implies #[trigger] pool_ok(self.pools@[i], self.pool_recipients@[i]@, i) by {
                if i != pi {
                    assert(self.pool_recipients@[i] == before[i]);
                }
            }
            assert(self.transfers@ + seq![] =~= self.transfers@);
            assert(self.custody_log@ + seq![] =~= self.custody_log@);
            assert(self.pools@ =~= self.pools@.update(pi as int, self.pools@[pi as int]));
        }
        self.emit_event(EventModule::Payment, EventAction::RecipientAdded, pool_id, party, share as i128, now);
        Ok(true)
    }

    /// Whether pool `pool_id` can be distributed: it has recipients and, for a percentage
    /// pool, the shares sum to exactly 100.
    pub fn validate_distribution(&self, pool_id: u64) -> (r: Result<bool, PaymentError>)
        requires
            self.wf(),
        ensures
            r == self.validation(pool_id),
    {
        let pi = match self.pool_index(pool_id) {
            Some(i) => i,
            None => {
                return Err(PaymentError::PoolNotFound);
            },
        };
        assert(pool_ok(self.pools@[pi as int], self.pool_recipients@[pi as int]@, pi as int));
        let rs = &self.pool_recipients[pi];
        if rs.len() == 0 {
            return Err(PaymentError::NoRecipients);
        }
        if self.pools[pi].rule == DistributionRule::Percentage && sum_shares(rs) != 100 {
            return Err(PaymentError::SharesNot100Percent);
        }
        Ok(true)
    }

    /// The amount recipient `address` of pool `pool_id` would receive.
    pub fn get_recipient_amount(&self, pool_id: u64, address: String) -> (r: Result<i128, PaymentError>)
        requires
            self.wf(),
        ensures
            !self.pool_exists(pool_id) || !lists(self.recipients_of(pool_id), address@) ==> r == Err::<
                i128,
                PaymentError,
            >(PaymentError::PoolNotFound),
            self.pool_exists(pool_id) && lists(self.recipients_of(pool_id), address@) ==> {
                let rs = self.recipients_of(pool_id);
                let k = choose|k: int| 0 <= k < rs.len() && (#[trigger] rs[k]).address@ == address@;
                match amount_in(self.pool(pool_id), rs, rs[k]) {
                    Some(a) => r == Ok::<i128, PaymentError>(a as i128),
                    None => r == Err::<i128, PaymentError>(PaymentError::ArithmeticOverflow),
                }
            },
    {
        let pi = match self.pool_index(pool_id) {
            Some(i) => i,
            None => {
                return Err(PaymentError::PoolNotFound);
            },
        };
        let ghost p = self.pools@[pi as int];
        assert(pool_ok(p, self.pool_recipients@[pi as int]@, pi as int));
        let rs = &self.pool_recipients[pi];
        let k = match find_recipient(rs, &address) {
            Some(k) => k,
            None => {
                return Err(PaymentError::PoolNotFound);
            },
        };
        proof {
            let c = choose|c: int| 0 <= c < rs@.len() && (#[trigger] rs@[c]).address@ == address@;
            assert(rs@[c].address@ == rs@[k as int].address@);
            if c != k {
                assert(rs@[c].address@ != rs@[k as int].address@);
            }
        }
        let total_weight = if self.pools[pi].rule == DistributionRule::Weighted {
            Some(sum_shares(rs))
        } else {
            None
        };
        calculate_recipient_amount(&self.pools[pi], &rs[k], rs.len() as u32, total_weight)
    }

    /// The status of pool `pool_id`.
    pub fn get_pool_status(&self, pool_id: u64) -> (r: Result<DistributionStatus, PaymentError>)
        ensures
            self.pool_exists(pool_id) ==> r == Ok::<DistributionStatus, PaymentError>(
                self.pool(pool_id).status,
            ),
            !self.pool_exists(pool_id) ==> r == Err::<DistributionStatus, PaymentError>(
                PaymentError::PoolNotFound,
            ),
    {
        match self.pool_index(pool_id) {
            Some(i) => Ok(self.pools[i].status),
            None => Err(PaymentError::PoolNotFound),
        }
    }

    /// Cancels pending pool `pool_id` on behalf of its creator and clears its recipients.
    pub fn cancel_distribution(&mut self, pool_id: u64, caller: String, now: u64) -> (r: Result<
        bool,
        PaymentError,
    >)
        requires
            old(self).wf(),
            old(self).can_notify(),
        ensures
            final(self).wf(),
            !old(self).pool_exists(pool_id) ==> r == Err::<bool, PaymentError>(PaymentError::PoolNotFound)
                && *final(self) == *old(self),
            old(self).pool_exists(pool_id) ==> if old(self).pool(pool_id).created_by@ != caller@ {
                r == Err::<bool, PaymentError>(PaymentError::Unauthorized) && *final(self) == *old(self)
            } else if old(self).pool(pool_id).status != DistributionStatus::Pending {
                r == Err::<bool, PaymentError>(PaymentError::PoolNotPending) && *final(self) == *old(self)
            } else {
                r == Ok::<bool, PaymentError>(true) && final(self).pool_step(
                    old(self),
                    pool_id,
                    (PaymentPool { status: DistributionStatus::Cancelled, ..old(self).pool(pool_id) }),
                    seq![],
                    seq![],
                    EventAction::Cancelled,
                    Some(caller),
                    0,
                    now,
                )
            },
    {
        let pi = match self.pool_index(pool_id) {
            Some(i) => i,
            None => {
                return Err(PaymentError::PoolNotFound);
            },
        };
        if !(self.pools[pi].created_by == caller) {
            return Err(PaymentError::Unauthorized);
        }
        if self.pools[pi].status != DistributionStatus::Pending {
            return Err(PaymentError::PoolNotPending);
        }
        let ghost before_pools = self.pools@;
        let ghost before_rs = self.pool_recipients@;
        self.pools[pi].status = DistributionStatus::Cancelled;
        self.pool_recipients[pi] = Vec::new();
        proof {
            assert forall|i: int| 0 <= i < self.pools@.len() implies #[trigger] pool_ok(self.pools@[i], self.pool_recipients@[i]@, i) by {
                assert(pool_ok(before_pools[i], before_rs[i]@, i));
            }
            assert(self.transfers@ + seq![] =~= self.transfers@);
            assert(self.custody_log@ + seq![] =~= self.custody_log@);
        }
        self.emit_event(EventModule::Payment, EventAction::Cancelled, pool_id, Some(caller), 0, now);
        Ok(true)
    }
}

impl StellarGuildsContract {
    /// Executes pending pool `pool_id` on behalf of its creator: each recipient is paid its
    /// amount under the pool's rule, in the order recipients were added; amounts below the
    /// minimum are skipped. `contract_balance` is what the platform holds of the pool's
    /// asset; when it is below the pool's amount, the pool is marked failed and nothing is
    /// paid.
    pub fn execute_distribution(&mut self, pool_id: u64, caller: String, contract_balance: i128, now: u64) -> (r:
        Result<bool, PaymentError>)
        requires
            old(self).wf(),
            old(self).can_notify(),
        ensures
            final(self).wf(),
            match old(self).execution_refusal(pool_id, caller@, contract_balance) {
                Some(e) => r == Err::<bool, PaymentError>(e) && if e == PaymentError::InsufficientBalance {
                    final(self).pool_step(
                        old(self),
                        pool_id,
                        (PaymentPool { status: DistributionStatus::Failed, ..old(self).pool(pool_id) }),
                        old(self).recipients_of(pool_id),
                        seq![],
                        EventAction::Failed,
                        Some(caller),
                        old(self).pool(pool_id).total_amount,
                        now,
                    )
                } else {
                    *final(self) == *old(self)
                },
                None => r == Ok::<bool, PaymentError>(true) && final(self).pool_step(
                    old(self),
                    pool_id,
                    (PaymentPool { status: DistributionStatus::Executed, ..old(self).pool(pool_id) }),
                    old(self).recipients_of(pool_id),
                    payouts(
                        old(self).pool(pool_id),
                        pool_id,
                        old(self).recipients_of(pool_id),
                        old(self).recipients_of(pool_id),
                    ),
                    EventAction::Distributed,
                    Some(caller),
                    paid_total(old(self).pool(pool_id), old(self).recipients_of(pool_id), old(self).recipients_of(pool_id)) as i128,
                    now,
                ),
            },
    {
        let pi = match self.pool_index(pool_id) {
            Some(i) => i,
            None => {
                return Err(PaymentError::PoolNotFound);
            },
        };
        assert(pool_ok(self.pools@[pi as int], self.pool_recipients@[pi as int]@, pi as int));
        if !(self.pools[pi].created_by == caller) {
            return Err(PaymentError::Unauthorized);
        }
        if self.pools[pi].status != DistributionStatus::Pending {
            return Err(PaymentError::PoolNotPending);
        }
        match self.validate_distribution(pool_id) {
            Err(e) => {
                return Err(e);
            },
            Ok(_) => {},
        }
        let ghost s0 = *self;
        let ghost p = self.pools@[pi as int];
        let ghost rs = self.pool_recipients@[pi as int]@;
        let n = self.pool_recipients[pi].len();
        let total_weight = if self.pools[pi].rule == DistributionRule::Weighted {
            Some(sum_shares(&self.pool_recipients[pi]))
        } else {
            None
        };
        if contract_balance < self.pools[pi].total_amount {
            let ghost before = self.pools@;
            self.pools[pi].status = DistributionStatus::Failed;
            proof {
                assert forall|i: int| 0 <= i < self.pools@.len() implies #[trigger] pool_ok(self.pools@[i], self.pool_recipients@[i]@, i) by {
                    assert(pool_ok(before[i], self.pool_recipients@[i]@, i));
                }
                assert(self.transfers@ + seq![] =~= self.transfers@);
                assert(self.custody_log@ + seq![] =~= self.custody_log@);
            }
            let pool_amount = self.pools[pi].total_amount;
            self.emit_event(EventModule::Payment, EventAction::Failed, pool_id, Some(caller), pool_amount, now);
            return Err(PaymentError::InsufficientBalance);
        }
        let currency = match &self.pools[pi].token {
            Some(t) => Some(t.clone()),
            None => None,
        };
        let mut out: Vec<Transfer> = Vec::new();
        let mut total: i128 = 0;
        let mut i: usize = 0;
        while i < n
            invariant
                0 <= i <= n,
                *self == s0,
                s0 == *old(self),
                s0.wf(),
                pi == pool_id - 1,
                s0.pool_exists(pool_id),
                p.created_by@ == caller@,
                p.status == DistributionStatus::Pending,
                s0.validation(pool_id) is Ok,
                contract_balance >= p.total_amount,
                pi < self.pools@.len(),
                self.pool_recipients@.len() == self.pools@.len(),
                p == self.pools@[pi as int],
                rs == self.pool_recipients@[pi as int]@,
                n == rs.len(),
                n < u32::MAX,
                p.total_amount > 0,
                currency == p.token,
                total_weight == weight_of(p, rs),
                out@ == payouts(p, pool_id, rs, rs.take(i as int)),
                total == paid_total(p, rs, rs.take(i as int)),
                forall|k: int| 0 <= k < i ==> (#[trigger] amount_in(p, rs, rs[k])) is Some,
                forall|k: int| 0 <= k < out@.len() ==> bounty_of(#[trigger] out@[k]) == 0,
                forall|k: int| 0 <= k < out@.len() ==> release_amount_ok(#[trigger] out@[k]),
            decreases n - i,
        {
            proof {
                assert(rs.take(i + 1).drop_last() == rs.take(i as int));
                assert(rs.take(i + 1).last() == rs[i as int]);
            }
            let a = match calculate_recipient_amount(
                &self.pools[pi],
                &self.pool_recipients[pi][i],
                n as u32,
                total_weight,
            ) {
                Ok(a) => a,
                Err(e) => {
                    proof {
                        assert(amount_in(p, rs, rs[i as int]) is None);
                    }
                    return Err(e);
                },
            };
            if a >= MIN_SHARE_AMOUNT {
                if total > i128::MAX - a {
                    proof {
                        lemma_paid_total_grows(p, rs, rs, i + 1);
                    }
                    return Err(PaymentError::ArithmeticOverflow);
                }
                total = total + a;
                let payee = self.pool_recipients[pi][i].address.clone();
                let cur = match &currency {
                    Some(t) => Some(t.clone()),
                    None => None,
                };
                out.push(Transfer::PoolPayout { pool_id, currency: cur, payee, amount: a });
            }
            i += 1;
        }
        proof {
            assert(rs.take(n as int) == rs);
            assert forall|k: int| 0 <= k < rs.len() implies (#[trigger] amount_in(p, rs, rs[k])) is Some by {}
        }
        let ghost before = self.pools@;
        self.pools[pi].status = DistributionStatus::Executed;
        proof {
            assert forall|j: int| 0 <= j < self.pools@.len() implies #[trigger] pool_ok(self.pools@[j], self.pool_recipients@[j]@, j) by {
                assert(pool_ok(before[j], self.pool_recipients@[j]@, j));
            }
            lemma_journal_extend(self.custody_log@, out@, self.bounties@.len());
        }
        self.record_transfers(out);
        self.emit_event(EventModule::Payment, EventAction::Distributed, pool_id, Some(caller), total, now);
        Ok(true)
    }
}

} // verus!
