use vstd::prelude::*;
use crate::contract::StellarGuildsContract;

verus! {

/// Version of the envelope layout carried by every notification.
pub const EVENT_SCHEMA_VERSION: u32 = 1;

/// The part of the platform a notification comes from.
#[derive(Clone, Copy, Debug, PartialEq, Eq, Structural)]
pub enum EventModule {
    Guild,
    Bounty,
    Milestone,
    Payment,
}

/// What happened.
#[derive(Clone, Copy, Debug, PartialEq, Eq, Structural)]
pub enum EventAction {
    Created,
    MemberAdded,
    MemberRemoved,
    RoleUpdated,
    Funded,
    Claimed,
    Submitted,
    Approved,
    Rejected,
    Released,
    Cancelled,
    Expired,
    Started,
    Updated,
    RecipientAdded,
    Distributed,
    Failed,
}

/// A domain notification: module, action, a sequence number that grows by one with each
/// notification, so that a subscriber can detect a gap, and the payload: the id of the
/// record it concerns, the account it concerns (the one acting, or the one paid or
/// refunded), and the amount it moved or set (0 when none).
#[derive(Clone, Debug, PartialEq, Eq)]
pub struct EventEnvelope {
    pub version: u32,
    pub timestamp: u64,
    pub module: EventModule,
    pub action: EventAction,
    pub sequence: u64,
    pub subject: u64,
    pub party: Option<String>,
    pub amount: i128,
}

/// The envelope that the next notification on `(module, action, subject)` carries.
pub open spec fn next_envelope(
    seq: u64,
    module: EventModule,
    action: EventAction,
    subject: u64,
    party: Option<String>,
    amount: i128,
    now: u64,
) -> EventEnvelope {
    EventEnvelope {
        version: EVENT_SCHEMA_VERSION,
        timestamp: now,
        module,
        action,
        sequence: (seq + 1) as u64,
        subject,
        party,
        amount,
    }
}

impl StellarGuildsContract {
    /// Whether one more notification can be numbered.
    pub open spec fn can_notify(&self) -> bool {
        self.event_sequence < u64::MAX
    }

    /// `self` is `old` with one more notification on `(module, action, subject)`,
    /// concerning `party` and `amount`.
    pub open spec fn notified(
        &self,
        old: &Self,
        module: EventModule,
        action: EventAction,
        subject: u64,
        party: Option<String>,
        amount: i128,
        now: u64,
    ) -> bool {
        &&& self.event_sequence == old.event_sequence + 1
        &&& self.events@ == old.events@.push(
            next_envelope(old.event_sequence, module, action, subject, party, amount, now),
        )
    }

    /// Records the notification `(module, action, subject)`, concerning `party` and `amount`.
    pub(crate) fn emit_event(
        &mut self,
        module: EventModule,
        action: EventAction,
        subject: u64,
        party: Option<String>,
        amount: i128,
        now: u64,
    )
        requires
            old(self).can_notify(),
        ensures
            final(self).notified(old(self), module, action, subject, party, amount, now),
            final(self).same_records(old(self)),
    {
        let sequence = self.event_sequence + 1;
        self.event_sequence = sequence;
        self.events.push(
            EventEnvelope {
                version: EVENT_SCHEMA_VERSION,
                timestamp: now,
                module,
                action,
                sequence,
                subject,
                party,
                amount,
            },
        );
    }

    /// Hands out the notifications recorded since the last call, oldest first.
    pub fn take_events(&mut self) -> (r: Vec<EventEnvelope>)
        ensures
            r@ == old(self).events@,
            final(self).events@.len() == 0,
            final(self).event_sequence == old(self).event_sequence,
            final(self).same_records(old(self)),
    {
        let mut taken = Vec::new();
        std::mem::swap(&mut taken, &mut self.events);
        taken
    }
}

} // verus!
