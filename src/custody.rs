use vstd::prelude::*;
use crate::contract::StellarGuildsContract;

verus! {

/// An instruction to the fund custody primitive. The host carries it out after the
/// operation that produced it; if it fails, the whole operation is void.
#[derive(Clone, Debug, PartialEq, Eq)]
pub enum Transfer {
    /// Move `amount` of `token` from `payer` into custody, for bounty `bounty_id`.
    Lock { bounty_id: u64, token: String, payer: String, amount: i128 },
    /// Move `amount` of `token` out of custody to `payee`, for bounty `bounty_id`.
    Release { bounty_id: u64, token: String, payee: String, amount: i128 },
    /// Pay `amount` of `currency` (the native asset when absent) from treasury
    /// `treasury_id` to `payee`, for milestone `milestone_id`.
    TreasuryPayout {
        milestone_id: u64,
        treasury_id: u64,
        currency: Option<String>,
        payee: String,
        amount: i128,
    },
    /// Pay `amount` of `currency` (the native asset when absent) out of the platform's
    /// holdings to `payee`, as `payee`'s share of payment pool `pool_id`.
    PoolPayout { pool_id: u64, currency: Option<String>, payee: String, amount: i128 },
}

/// What `t` locks for bounty `id`.
pub open spec fn locked_by(t: Transfer, id: u64) -> int {
    match t {
        Transfer::Lock { bounty_id, amount, .. } => if bounty_id == id {
            amount as int
        } else {
            0
        },
        _ => 0,
    }
}

/// What `t` releases or refunds from custody for bounty `id`.
pub open spec fn released_by(t: Transfer, id: u64) -> int {
    match t {
        Transfer::Release { bounty_id, amount, .. } => if bounty_id == id {
            amount as int
        } else {
            0
        },
        _ => 0,
    }
}

/// Everything ever locked into custody for bounty `id` by the transfers of `log`.
pub open spec fn locked_total(log: Seq<Transfer>, id: u64) -> int
    decreases log.len(),
{
    if log.len() == 0 {
        0
    } else {
        locked_total(log.drop_last(), id) + locked_by(log.last(), id)
    }
}

/// Everything ever released or refunded from custody for bounty `id` by `log`.
pub open spec fn released_total(log: Seq<Transfer>, id: u64) -> int
    decreases log.len(),
{
    if log.len() == 0 {
        0
    } else {
        released_total(log.drop_last(), id) + released_by(log.last(), id)
    }
}

/// The bounty a custody transfer belongs to; 0 for a payout from elsewhere.
pub open spec fn bounty_of(t: Transfer) -> u64 {
    match t {
        Transfer::Lock { bounty_id, .. } => bounty_id,
        Transfer::Release { bounty_id, .. } => bounty_id,
        Transfer::TreasuryPayout { .. } => 0,
        Transfer::PoolPayout { .. } => 0,
    }
}

/// Every transfer of `log` belongs to a bounty numbered at most `n`.
pub open spec fn bounties_at_most(log: Seq<Transfer>, n: nat) -> bool {
    forall|k: int| 0 <= k < log.len() ==> bounty_of(#[trigger] log[k]) <= n
}

/// `t` releases no negative amount.
pub open spec fn release_amount_ok(t: Transfer) -> bool {
    match t {
        Transfer::Release { amount, .. } => amount >= 0,
        _ => true,
    }
}

/// No transfer of `log` releases a negative amount.
pub open spec fn releases_nonnegative(log: Seq<Transfer>) -> bool {
    forall|k: int| 0 <= k < log.len() ==> release_amount_ok(#[trigger] log[k])
}

pub proof fn lemma_released_nonnegative(log: Seq<Transfer>, id: u64)
    requires
        releases_nonnegative(log),
    ensures
        released_total(log, id) >= 0,
    decreases log.len(),
{
    if log.len() > 0 {
        let init = log.drop_last();
        assert forall|k: int| 0 <= k < init.len() implies release_amount_ok(#[trigger] init[k]) by {
            assert(init[k] == log[k]);
        }
        lemma_released_nonnegative(init, id);
        assert(release_amount_ok(log[log.len() - 1]));
    }
}

pub proof fn lemma_totals_push(log: Seq<Transfer>, t: Transfer, id: u64)
    ensures
        locked_total(log.push(t), id) == locked_total(log, id) + locked_by(t, id),
        released_total(log.push(t), id) == released_total(log, id) + released_by(t, id),
{
    assert(log.push(t).drop_last() == log);
}

pub proof fn lemma_totals_fresh(log: Seq<Transfer>, n: nat, id: u64)
    requires
        bounties_at_most(log, n),
        id > n,
    ensures
        locked_total(log, id) == 0,
        released_total(log, id) == 0,
    decreases log.len(),
{
    if log.len() > 0 {
        let init = log.drop_last();
        assert forall|k: int| 0 <= k < init.len() implies bounty_of(#[trigger] init[k]) <= n by {
            assert(init[k] == log[k]);
        }
        lemma_totals_fresh(init, n, id);
        assert(bounty_of(log[log.len() - 1]) <= n);
    }
}

pub proof fn lemma_journal_push(log: Seq<Transfer>, t: Transfer, n: nat)
    requires
        bounties_at_most(log, n),
        bounty_of(t) <= n,
    ensures
        bounties_at_most(log + seq![t], n),
        releases_nonnegative(log) && release_amount_ok(t) ==> releases_nonnegative(log + seq![t]),
        forall|j: u64| #[trigger]
            locked_total(log + seq![t], j) == locked_total(log, j) + locked_by(t, j),
        forall|j: u64| #[trigger]
            released_total(log + seq![t], j) == released_total(log, j) + released_by(t, j),
{
    let l = log + seq![t];
    assert(l =~= log.push(t));
    assert forall|k: int| 0 <= k < l.len() implies bounty_of(#[trigger] l[k]) <= n by {
        if k < log.len() {
            assert(l[k] == log[k]);
        }
    }
    if releases_nonnegative(log) && release_amount_ok(t) {
        assert forall|k: int| 0 <= k < l.len() implies release_amount_ok(#[trigger] l[k]) by {
            if k < log.len() {
                assert(l[k] == log[k]);
            }
        }
    }
    assert forall|j: u64| #[trigger]
        locked_total(log + seq![t], j) == locked_total(log, j) + locked_by(t, j) by {
        lemma_totals_push(log, t, j);
    }
    assert forall|j: u64| #[trigger]
        released_total(log + seq![t], j) == released_total(log, j) + released_by(t, j) by {
        lemma_totals_push(log, t, j);
    }
}

/// Appending transfers that belong to no bounty leaves every bounty's totals alone.
pub proof fn lemma_journal_extend(log: Seq<Transfer>, ts: Seq<Transfer>, n: nat)
    requires
        bounties_at_most(log, n),
        forall|k: int| 0 <= k < ts.len() ==> bounty_of(#[trigger] ts[k]) == 0,
        forall|k: int| 0 <= k < ts.len() ==> release_amount_ok(#[trigger] ts[k]),
    ensures
        bounties_at_most(log + ts, n),
        releases_nonnegative(log) ==> releases_nonnegative(log + ts),
        forall|j: u64| j >= 1 ==> #[trigger] locked_total(log + ts, j) == locked_total(log, j),
        forall|j: u64| j >= 1 ==> #[trigger] released_total(log + ts, j) == released_total(log, j),
    decreases ts.len(),
{
    if ts.len() == 0 {
        assert(log + ts =~= log);
    } else {
        let init = ts.drop_last();
        assert forall|k: int| 0 <= k < init.len() implies bounty_of(#[trigger] init[k]) == 0 by {
            assert(init[k] == ts[k]);
        }
        assert forall|k: int| 0 <= k < init.len() implies release_amount_ok(#[trigger] init[k]) by {
            assert(init[k] == ts[k]);
        }
        lemma_journal_extend(log, init, n);
        assert(release_amount_ok(ts[ts.len() - 1]));
        let t = ts.last();
        assert(bounty_of(ts[ts.len() - 1]) == 0);
        lemma_journal_push(log + init, t, n);
        assert((log + init) + seq![t] =~= log + ts);
    }
}

impl StellarGuildsContract {
    /// Queues `t` for the host and writes it into the custody journal.
    pub(crate) fn record_transfer(&mut self, t: Transfer)
        ensures
            final(self).transfers@ == old(self).transfers@ + seq![t],
            final(self).custody_log@ == old(self).custody_log@ + seq![t],
            final(self).same_tables(old(self)),
            final(self).event_sequence == old(self).event_sequence,
            final(self).events == old(self).events,
    {
        let ghost before = self.transfers@;
        proof {
            assert(self.custody_log@.push(t) =~= self.custody_log@ + seq![t]);
            self.custody_log@ = self.custody_log@.push(t);
        }
        self.transfers.push(t);
        assert(self.transfers@ =~= before + seq![t]);
    }

    /// Queues the transfers `ts`, none of which belongs to a bounty, and writes them into
    /// the custody journal.
    pub(crate) fn record_transfers(&mut self, ts: Vec<Transfer>)
        requires
            forall|k: int| 0 <= k < ts@.len() ==> bounty_of(#[trigger] ts@[k]) == 0,
        ensures
            final(self).transfers@ == old(self).transfers@ + ts@,
            final(self).custody_log@ == old(self).custody_log@ + ts@,
            final(self).same_tables(old(self)),
            final(self).event_sequence == old(self).event_sequence,
            final(self).events == old(self).events,
    {
        let mut ts = ts;
        proof {
            self.custody_log@ = self.custody_log@ + ts@;
        }
        self.transfers.append(&mut ts);
    }

    /// Hands out the transfers queued since the last call, oldest first.
    pub fn take_transfers(&mut self) -> (r: Vec<Transfer>)
        ensures
            r@ == old(self).transfers@,
            final(self).transfers@.len() == 0,
            final(self).custody_log == old(self).custody_log,
            final(self).same_tables(old(self)),
            final(self).event_sequence == old(self).event_sequence,
            final(self).events == old(self).events,
    {
        let mut taken = Vec::new();
        std::mem::swap(&mut taken, &mut self.transfers);
        taken
    }
}

} // verus!
