use vstd::prelude::*;

verus! {

/// Role of a guild member. Roles are totally ordered:
/// Owner > Admin > Member > Contributor.
#[derive(Clone, Copy, Debug, PartialEq, Eq, Structural)]
pub enum Role {
    Owner,
    Admin,
    Member,
    Contributor,
}

/// Position of a role in the hierarchy; a higher rank holds more rights.
pub open spec fn rank(r: Role) -> nat {
    match r {
        Role::Owner => 3,
        Role::Admin => 2,
        Role::Member => 1,
        Role::Contributor => 0,
    }
}

impl Role {
    /// Whether a holder of this role may act where `required_role` is demanded.
    pub fn has_permission(&self, required_role: &Role) -> (r: bool)
        ensures
            r == (rank(*self) >= rank(*required_role)),
    {
        match (self, required_role) {
            (Role::Owner, _) => true,
            (Role::Admin, Role::Admin) | (Role::Admin, Role::Member) | (Role::Admin, Role::Contributor) => true,
            (Role::Member, Role::Member) | (Role::Member, Role::Contributor) => true,
            (Role::Contributor, Role::Contributor) => true,
            _ => false,
        }
    }
}

} // verus!
