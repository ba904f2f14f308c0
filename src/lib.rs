//! Escrow-backed work commitments for guilds: role-based membership, single-payout
//! bounties and milestone projects, with every transition and every movement of
//! funds stated as a contract and proved.

pub mod bounty;
pub mod contract;
pub mod custody;
pub mod error;
pub mod events;
pub mod guild;
pub mod laws;
pub mod milestone;
pub mod payment;
pub mod reputation;
pub mod roles;

pub use bounty::{Bounty, BountyStatus};
pub use contract::StellarGuildsContract;
pub use custody::Transfer;
pub use error::GuildsError;
pub use events::{EventAction, EventEnvelope, EventModule};
pub use guild::{Guild, Member};
pub use milestone::{Milestone, MilestoneInput, MilestoneStatus, Project, ProjectStatus};
pub use payment::{DistributionRule, DistributionStatus, PaymentError, PaymentPool, Recipient};
pub use reputation::{BadgeType, ContributionType, points_for_contribution};
pub use roles::Role;
