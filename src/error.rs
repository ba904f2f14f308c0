use vstd::prelude::*;

verus! {

/// Why an operation was refused. Every refusal leaves the records as they were,
/// except `Expired`, which commits the lapse it discovered.
#[derive(Clone, Copy, Debug, PartialEq, Eq, Structural)]
pub enum GuildsError {
    /// No record under the given id, or no such member.
    NotFound,
    /// The acting account lacks the identity or the role the operation demands.
    Unauthorized,
    /// The operation is not valid from the record's current status.
    InvalidState,
    /// A length or an amount is out of bounds.
    InvalidInput,
    /// The deadline has lapsed; the record was moved to its expired status.
    Expired,
    /// The item is frozen by an active dispute.
    DisputeLocked,
    /// An amount computation would overflow.
    ArithmeticOverflow,
    /// The custody primitive rejected a transfer. The library never returns it: transfers
    /// are carried out by the host after an operation, and the host reports their failure.
    CustodyFailure,
    /// In a sequential project, the preceding milestone is not approved yet.
    PreviousMilestoneNotCompleted,
}

} // verus!
