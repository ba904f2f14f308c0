use vstd::prelude::*;

verus! {

/// Kinds of contribution that earn reputation.
#[derive(Clone, Copy, Debug, PartialEq, Eq, Structural)]
pub enum ContributionType {
    BountyCompleted,
    MilestoneApproved,
    ProposalCreated,
    VoteCast,
    DisputeResolved,
}

/// Achievements a member can hold.
#[derive(Clone, Copy, Debug, PartialEq, Eq, Structural)]
pub enum BadgeType {
    /// First ever contribution.
    FirstContribution,
    /// Five or more bounties completed.
    BountyHunter,
    /// Ten or more milestones approved.
    Mentor,
    /// Ten or more votes cast.
    Governor,
    /// A reputation score above 1000.
    Veteran,
}

pub const POINTS_BOUNTY_COMPLETED: u32 = 100;

pub const POINTS_MILESTONE_APPROVED: u32 = 50;

pub const POINTS_PROPOSAL_CREATED: u32 = 20;

pub const POINTS_VOTE_CAST: u32 = 5;

pub const POINTS_DISPUTE_RESOLVED: u32 = 30;

/// The points a contribution of kind `ct` earns.
pub open spec fn contribution_points(ct: ContributionType) -> u32 {
    match ct {
        ContributionType::BountyCompleted => POINTS_BOUNTY_COMPLETED,
        ContributionType::MilestoneApproved => POINTS_MILESTONE_APPROVED,
        ContributionType::ProposalCreated => POINTS_PROPOSAL_CREATED,
        ContributionType::VoteCast => POINTS_VOTE_CAST,
        ContributionType::DisputeResolved => POINTS_DISPUTE_RESOLVED,
    }
}

/// The points a contribution of kind `ct` earns.
pub fn points_for_contribution(ct: &ContributionType) -> (r: u32)
    ensures
        r == contribution_points(*ct),
{
    match ct {
        ContributionType::BountyCompleted => POINTS_BOUNTY_COMPLETED,
        ContributionType::MilestoneApproved => POINTS_MILESTONE_APPROVED,
        ContributionType::ProposalCreated => POINTS_PROPOSAL_CREATED,
        ContributionType::VoteCast => POINTS_VOTE_CAST,
        ContributionType::DisputeResolved => POINTS_DISPUTE_RESOLVED,
    }
}

} // verus!
