use vstd::prelude::*;
use vstd::string::*;
use crate::contract::StellarGuildsContract;
use crate::error::GuildsError;
use crate::events::{EventAction, EventModule};
use crate::roles::{Role, rank};

verus! {

/// A guild: the group whose roles gate bounties and projects.
#[derive(Clone, Debug, PartialEq, Eq)]
pub struct Guild {
    pub id: u64,
    pub name: String,
    pub description: String,
    pub owner: String,
    pub created_at: u64,
    pub member_count: u32,
}

/// One account's membership of a guild.
#[derive(Clone, Debug, PartialEq, Eq)]
pub struct Member {
    pub address: String,
    pub role: Role,
    pub joined_at: u64,
}

pub const MAX_GUILD_NAME_LEN: usize = 256;

pub const MAX_GUILD_DESCRIPTION_LEN: usize = 512;

/// Member `i` of `ms` has address `a`.
pub open spec fn at_address(ms: Seq<Member>, a: Seq<char>, i: int) -> bool {
    0 <= i < ms.len() && ms[i].address@ == a
}

/// Some member of `ms` has address `a`.
pub open spec fn listed(ms: Seq<Member>, a: Seq<char>) -> bool {
    exists|i: int| at_address(ms, a, i)
}

/// The position of address `a` in `ms` (meaningful when `listed(ms, a)`).
pub open spec fn index_of(ms: Seq<Member>, a: Seq<char>) -> int {
    choose|i: int| at_address(ms, a, i)
}

/// No address occurs twice in `ms`.
pub open spec fn unique_addresses(ms: Seq<Member>) -> bool {
    forall|i: int, j: int|
        0 <= i < ms.len() && 0 <= j < ms.len() && i != j ==> #[trigger] ms[i].address@
            != #[trigger] ms[j].address@
}

/// How many members of `ms` are owners.
pub open spec fn owner_count(ms: Seq<Member>) -> nat
    decreases ms.len(),
{
    if ms.len() == 0 {
        0
    } else {
        owner_count(ms.drop_last()) + if ms.last().role == Role::Owner {
            1nat
        } else {
            0nat
        }
    }
}

/// A guild name holds 1 to 256 characters.
pub open spec fn guild_name_ok(s: Seq<char>) -> bool {
    1 <= s.len() <= MAX_GUILD_NAME_LEN
}

/// A guild description holds at most 512 characters.
pub open spec fn guild_description_ok(s: Seq<char>) -> bool {
    s.len() <= MAX_GUILD_DESCRIPTION_LEN
}

/// Whether a member with role `acting` may add, or remove, a member with role `target`.
pub open spec fn may_manage(acting: Role, target: Role) -> bool {
    match target {
        Role::Owner => acting == Role::Owner,
        Role::Admin => acting == Role::Owner || acting == Role::Admin,
        _ => rank(acting) >= rank(Role::Member),
    }
}

/// Whether a member with role `acting` may change the role of a member with role `target`.
pub open spec fn may_change_role(acting: Role, target: Role) -> bool {
    match target {
        Role::Owner => acting == Role::Owner,
        _ => acting == Role::Owner || acting == Role::Admin,
    }
}

proof fn lemma_index_of_unique(ms: Seq<Member>, a: Seq<char>, i: int)
    requires
        unique_addresses(ms),
        at_address(ms, a, i),
    ensures
        listed(ms, a),
        index_of(ms, a) == i,
{
    assert(at_address(ms, a, i));
    let k = index_of(ms, a);
    assert(at_address(ms, a, k));
    if k != i {
        assert(ms[k].address@ != ms[i].address@);
    }
}

proof fn lemma_unique_remove(ms: Seq<Member>, i: int)
    requires
        unique_addresses(ms),
        0 <= i < ms.len(),
    ensures
        unique_addresses(ms.remove(i)),
{
    let r = ms.remove(i);
    assert forall|x: int, y: int|
        0 <= x < r.len() && 0 <= y < r.len() && x != y implies #[trigger] r[x].address@
        != #[trigger] r[y].address@ by {
        let ox = if x < i { x } else { x + 1 };
        let oy = if y < i { y } else { y + 1 };
        assert(r[x] == ms[ox]);
        assert(r[y] == ms[oy]);
        assert(ms[ox].address@ != ms[oy].address@);
    }
}

proof fn lemma_unique_push(ms: Seq<Member>, m: Member)
    requires
        unique_addresses(ms),
        !listed(ms, m.address@),
    ensures
        unique_addresses(ms.push(m)),
{
    let r = ms.push(m);
    assert forall|x: int, y: int|
        0 <= x < r.len() && 0 <= y < r.len() && x != y implies #[trigger] r[x].address@
        != #[trigger] r[y].address@ by {
        if x == ms.len() {
            assert(!at_address(ms, m.address@, y));
        } else if y == ms.len() {
            assert(!at_address(ms, m.address@, x));
        } else {
            assert(ms[x].address@ != ms[y].address@);
        }
    }
}

/// The index of `a` in `ms`, if it is there.
fn locate(ms: &Vec<Member>, a: &String) -> (r: Option<usize>)
    requires
        unique_addresses(ms@),
    ensures
        match r {
            Some(i) => at_address(ms@, a@, i as int) && index_of(ms@, a@) == i && listed(ms@, a@),
            None => !listed(ms@, a@),
        },
{
    let mut i: usize = 0;
    while i < ms.len()
        invariant
            0 <= i <= ms@.len(),
            unique_addresses(ms@),
            forall|k: int| 0 <= k < i ==> ms@[k].address@ != a@,
        decreases ms@.len() - i,
    {
        if ms[i].address == *a {
            proof {
                lemma_index_of_unique(ms@, a@, i as int);
            }
            return Some(i);
        }
        i += 1;
    }
    None
}

impl Member {
    /// A field-by-field copy.
    fn duplicate(&self) -> (r: Member)
        ensures
            r == *self,
    {
        Member { address: self.address.clone(), role: self.role, joined_at: self.joined_at }
    }
}

impl StellarGuildsContract {
    pub open spec fn guild_exists(&self, g: u64) -> bool {
        1 <= g <= self.guilds@.len()
    }

    /// The members of guild `g`, in the order they joined.
    pub open spec fn roster(&self, g: u64) -> Seq<Member> {
        self.members@[g - 1]@
    }

    /// The role of account `a` in guild `g`, if it is a member.
    pub open spec fn role_in(&self, g: u64, a: Seq<char>) -> Option<Role> {
        if self.guild_exists(g) && listed(self.roster(g), a) {
            Some(self.roster(g)[index_of(self.roster(g), a)].role)
        } else {
            None
        }
    }

    /// Account `a` holds at least role `required` in guild `g`.
    pub open spec fn permits(&self, g: u64, a: Seq<char>, required: Role) -> bool {
        match self.role_in(g, a) {
            Some(r) => rank(r) >= rank(required),
            None => false,
        }
    }

    /// Only guild `g`'s roster and record may differ between `self` and `old`.
    pub open spec fn other_guilds_kept(&self, old: &Self, g: u64) -> bool {
        &&& self.same_outside_guilds(old)
        &&& self.members@.len() == old.members@.len()
        &&& self.guilds@.len() == old.guilds@.len()
        &&& forall|i: int|
            0 <= i < old.members@.len() && i != g - 1 ==> #[trigger] self.members@[i]
                == old.members@[i]
        &&& forall|i: int|
            0 <= i < old.guilds@.len() && i != g - 1 ==> #[trigger] self.guilds@[i]
                == old.guilds@[i]
    }

    /// What refuses `remove_member(g, a, c)`, if anything.
    pub open spec fn removal_refusal(&self, g: u64, a: Seq<char>, c: Seq<char>) -> Option<
        GuildsError,
    > {
        if !self.guild_exists(g) || self.role_in(g, a) is None {
            Some(GuildsError::NotFound)
        } else if self.role_in(g, a) == Some(Role::Owner) && owner_count(self.roster(g)) <= 1 {
            Some(GuildsError::InvalidState)
        } else if c != a && (self.role_in(g, c) is None || !may_manage(
            self.role_in(g, c)->0,
            self.role_in(g, a)->0,
        )) {
            Some(GuildsError::Unauthorized)
        } else {
            None
        }
    }

    /// What refuses `update_role(g, a, new_role, c)`, if anything.
    pub open spec fn role_change_refusal(
        &self,
        g: u64,
        a: Seq<char>,
        new_role: Role,
        c: Seq<char>,
    ) -> Option<GuildsError> {
        if !self.guild_exists(g) || self.role_in(g, a) is None {
            Some(GuildsError::NotFound)
        } else if self.role_in(g, c) is None || !may_change_role(
            self.role_in(g, c)->0,
            self.role_in(g, a)->0,
        ) {
            Some(GuildsError::Unauthorized)
        } else if self.role_in(g, a) == Some(Role::Owner) && new_role != Role::Owner
            && owner_count(self.roster(g)) <= 1 {
            Some(GuildsError::InvalidState)
        } else {
            None
        }
    }

    /// What refuses `add_member(g, a, role, c)`, if anything.
    pub open spec fn admission_refusal(&self, g: u64, a: Seq<char>, role: Role, c: Seq<char>) -> Option<
        GuildsError,
    > {
        if !self.guild_exists(g) {
            Some(GuildsError::NotFound)
        } else if self.role_in(g, a) is Some {
            Some(GuildsError::InvalidState)
        } else if self.role_in(g, c) is None || !may_manage(self.role_in(g, c)->0, role) {
            Some(GuildsError::Unauthorized)
        } else if self.roster(g).len() >= u32::MAX {
            Some(GuildsError::ArithmeticOverflow)
        } else {
            None
        }
    }
}

impl StellarGuildsContract {
    /// Creates a guild whose only member is `owner`, as an owner. Returns the new id.
    pub fn create_guild(&mut self, name: String, description: String, owner: String, now: u64) -> (r:
        Result<u64, GuildsError>)
        requires
            old(self).wf(),
            old(self).can_notify(),
        ensures
            final(self).wf(),
            !guild_name_ok(name@) || !guild_description_ok(description@) ==> r == Err::<
                u64,
                GuildsError,
            >(GuildsError::InvalidInput),
            guild_name_ok(name@) && guild_description_ok(description@) && old(self).guilds@.len()
                + 2 >= u64::MAX ==> r == Err::<u64, GuildsError>(GuildsError::ArithmeticOverflow),
            guild_name_ok(name@) && guild_description_ok(description@) && old(self).guilds@.len()
                + 2 < u64::MAX ==> r is Ok,
            r is Err ==> *final(self) == *old(self),
            r is Ok ==> {
                let g = r->Ok_0;
                &&& g == old(self).guilds@.len() + 1
                &&& final(self).guilds@ == old(self).guilds@.push(
                    (Guild { id: g, name, description, owner, created_at: now, member_count: 1 }),
                )
                &&& final(self).members@.len() == g
                &&& final(self).same_outside_guilds(old(self))
                &&& forall|i: int| 0 <= i < g - 1 ==> #[trigger] final(self).members@[i] == old(self).members@[i]
                &&& final(self).roster(g) == seq![(Member { address: owner, role: Role::Owner, joined_at: now })]
                &&& final(self).notified(old(self), EventModule::Guild, EventAction::Created, g, Some(owner), 0, now)
            },
    {
        let name_len = name.as_str().unicode_len();
        if name_len == 0 || name_len > MAX_GUILD_NAME_LEN {
            return Err(GuildsError::InvalidInput);
        }
        if description.as_str().unicode_len() > MAX_GUILD_DESCRIPTION_LEN {
            return Err(GuildsError::InvalidInput);
        }
        if self.guilds.len() as u64 >= u64::MAX - 2 {
            return Err(GuildsError::ArithmeticOverflow);
        }
        let guild_id = self.guilds.len() as u64 + 1;
        let first = Member { address: owner.clone(), role: Role::Owner, joined_at: now };
        let party = Some(owner.clone());
        self.guilds.push(
            Guild { id: guild_id, name, description, owner, created_at: now, member_count: 1 },
        );
        let mut roster: Vec<Member> = Vec::new();
        roster.push(first);
        self.members.push(roster);
        self.emit_event(EventModule::Guild, EventAction::Created, guild_id, party, 0, now);
        Ok(guild_id)
    }

    /// The membership of `address` in guild `guild_id`.
    pub fn get_member(&self, guild_id: u64, address: String) -> (r: Result<&Member, GuildsError>)
        requires
            self.wf(),
        ensures
            match r {
                Ok(m) => self.role_in(guild_id, address@) is Some && *m == self.roster(
                    guild_id,
                )[index_of(self.roster(guild_id), address@)],
                Err(e) => e == GuildsError::NotFound && self.role_in(guild_id, address@) is None,
            },
    {
        if guild_id == 0 || guild_id > self.guilds.len() as u64 {
            return Err(GuildsError::NotFound);
        }
        let gi = (guild_id - 1) as usize;
        assert(self.guilds@[gi as int].id == guild_id);
        match locate(&self.members[gi], &address) {
            Some(i) => Ok(&self.members[gi][i]),
            None => Err(GuildsError::NotFound),
        }
    }

    /// The members of guild `guild_id` in the order they joined; empty for an unknown guild.
    pub fn get_all_members(&self, guild_id: u64) -> (r: Vec<Member>)
        requires
            self.wf(),
        ensures
            self.guild_exists(guild_id) ==> r@ == self.roster(guild_id),
            !self.guild_exists(guild_id) ==> r@.len() == 0,
    {
        let mut out: Vec<Member> = Vec::new();
        if guild_id == 0 || guild_id > self.guilds.len() as u64 {
            return out;
        }
        let ms = &self.members[(guild_id - 1) as usize];
        let mut i: usize = 0;
        while i < ms.len()
            invariant
                0 <= i <= ms@.len(),
                out@ == ms@.take(i as int),
            decreases ms@.len() - i,
        {
            out.push(ms[i].duplicate());
            proof {
                assert(ms@.take(i + 1) == ms@.take(i as int).push(ms@[i as int]));
            }
            i += 1;
        }
        proof {
            assert(ms@.take(ms@.len() as int) == ms@);
        }
        out
    }

    /// Whether `address` is a member of guild `guild_id`.
    pub fn is_member(&self, guild_id: u64, address: String) -> (r: bool)
        requires
            self.wf(),
        ensures
            r == self.role_in(guild_id, address@) is Some,
    {
        self.get_member(guild_id, address).is_ok()
    }

    /// Whether `address` holds at least `required_role` in guild `guild_id`.
    pub fn has_permission(&self, guild_id: u64, address: String, required_role: Role) -> (r: bool)
        requires
            self.wf(),
        ensures
            r == self.permits(guild_id, address@, required_role),
    {
        match self.get_member(guild_id, address) {
            Ok(m) => m.role.has_permission(&required_role),
            Err(_) => false,
        }
    }

    /// The number of owners of guild `guild_id`; 0 for an unknown guild.
    pub fn count_owners(&self, guild_id: u64) -> (r: u32)
        requires
            self.wf(),
        ensures
            self.guild_exists(guild_id) ==> r == owner_count(self.roster(guild_id)),
            !self.guild_exists(guild_id) ==> r == 0,
    {
        if guild_id == 0 || guild_id > self.guilds.len() as u64 {
            return 0;
        }
        let gi = (guild_id - 1) as usize;
        let ms = &self.members[gi];
        assert(self.guilds@[gi as int].member_count == ms@.len());
        let mut count: u32 = 0;
        let mut i: usize = 0;
        while i < ms.len()
            invariant
                0 <= i <= ms@.len(),
                ms@.len() <= u32::MAX,
                count == owner_count(ms@.take(i as int)),
                count <= i,
            decreases ms@.len() - i,
        {
            proof {
                assert(ms@.take(i + 1).drop_last() == ms@.take(i as int));
            }
            if ms[i].role == Role::Owner {
                count += 1;
            }
            i += 1;
        }
        proof {
            assert(ms@.take(ms@.len() as int) == ms@);
        }
        count
    }
}

impl StellarGuildsContract {
    /// Role of the member at position `i` of guild `gi + 1`, with what the tables guarantee.
    fn role_at(&self, gi: usize, i: usize) -> (r: Role)
        requires
            gi < self.members@.len(),
            i < self.members@[gi as int]@.len(),
        ensures
            r == self.members@[gi as int]@[i as int].role,
    {
        self.members[gi][i].role
    }

    /// Adds `address` to guild `guild_id` with `role`, on behalf of `caller`. Owners may
    /// add anyone; admins may add admins, members and contributors; members may add
    /// members and contributors.
    pub fn add_member(
        &mut self,
        guild_id: u64,
        address: String,
        role: Role,
        caller: String,
        now: u64,
    ) -> (r: Result<bool, GuildsError>)
        requires
            old(self).wf(),
            old(self).can_notify(),
        ensures
            final(self).wf(),
            match old(self).admission_refusal(guild_id, address@, role, caller@) {
                Some(e) => r == Err::<bool, GuildsError>(e) && *final(self) == *old(self),
                None => {
                    &&& r == Ok::<bool, GuildsError>(true)
                    &&& final(self).roster(guild_id) == old(self).roster(guild_id).push(
                        (Member { address, role, joined_at: now }),
                    )
                    &&& final(self).guilds@[guild_id - 1] == (Guild {
                        member_count: (old(self).guilds@[guild_id - 1].member_count + 1) as u32,
                        ..old(self).guilds@[guild_id - 1]
                    })
                    &&& final(self).other_guilds_kept(old(self), guild_id)
                    &&& final(self).notified(
                        old(self),
                        EventModule::Guild,
                        EventAction::MemberAdded,
                        guild_id,
                        Some(address),
                        0,
                        now,
                    )
                },
            },
    {
        if guild_id == 0 || guild_id > self.guilds.len() as u64 {
            return Err(GuildsError::NotFound);
        }
        let gi = (guild_id - 1) as usize;
        assert(self.guilds@[gi as int].id == guild_id);
        if locate(&self.members[gi], &address).is_some() {
            return Err(GuildsError::InvalidState);
        }
        let acting = match locate(&self.members[gi], &caller) {
            Some(i) => self.role_at(gi, i),
            None => {
                return Err(GuildsError::Unauthorized);
            },
        };
        let allowed = match role {
            Role::Owner => acting == Role::Owner,
            Role::Admin => acting == Role::Owner || acting == Role::Admin,
            _ => acting.has_permission(&Role::Member),
        };
        if !allowed {
            return Err(GuildsError::Unauthorized);
        }
        if self.guilds[gi].member_count == u32::MAX {
            return Err(GuildsError::ArithmeticOverflow);
        }
        let ghost before = self.members@[gi as int]@;
        let party = Some(address.clone());
        let member = Member { address, role, joined_at: now };
        proof {
            lemma_unique_push(before, member);
        }
        self.members[gi].push(member);
        assert(unique_addresses(self.members@[gi as int]@));
        self.guilds[gi].member_count = self.guilds[gi].member_count + 1;
        proof {
            assert forall|i: int| 0 <= i < self.guilds@.len() implies {
                &&& (#[trigger] self.guilds@[i]).id == i + 1
                &&& self.guilds@[i].member_count == self.members@[i]@.len()
                &&& unique_addresses(self.members@[i]@)
            } by {
                if i != gi {
                    assert(old(self).guilds@[i].id == i + 1);
                }
            }
        }
        self.emit_event(EventModule::Guild, EventAction::MemberAdded, guild_id, party, 0, now);
        Ok(true)
    }

    /// Removes `address` from guild `guild_id` on behalf of `caller`. A member may always
    /// remove itself; the last owner may never be removed.
    pub fn remove_member(&mut self, guild_id: u64, address: String, caller: String, now: u64) -> (r:
        Result<bool, GuildsError>)
        requires
            old(self).wf(),
            old(self).can_notify(),
        ensures
            final(self).wf(),
            match old(self).removal_refusal(guild_id, address@, caller@) {
                Some(e) => r == Err::<bool, GuildsError>(e) && *final(self) == *old(self),
                None => {
                    &&& r == Ok::<bool, GuildsError>(true)
                    &&& final(self).roster(guild_id) == old(self).roster(guild_id).remove(
                        index_of(old(self).roster(guild_id), address@),
                    )
                    &&& final(self).guilds@[guild_id - 1] == (Guild {
                        member_count: (old(self).guilds@[guild_id - 1].member_count - 1) as u32,
                        ..old(self).guilds@[guild_id - 1]
                    })
                    &&& final(self).other_guilds_kept(old(self), guild_id)
                    &&& final(self).notified(
                        old(self),
                        EventModule::Guild,
                        EventAction::MemberRemoved,
                        guild_id,
                        Some(address),
                        0,
                        now,
                    )
                },
            },
    {
        if guild_id == 0 || guild_id > self.guilds.len() as u64 {
            return Err(GuildsError::NotFound);
        }
        let gi = (guild_id - 1) as usize;
        assert(self.guilds@[gi as int].id == guild_id);
        let idx = match locate(&self.members[gi], &address) {
            Some(i) => i,
            None => {
                return Err(GuildsError::NotFound);
            },
        };
        let target = self.role_at(gi, idx);
        if target == Role::Owner && self.count_owners(guild_id) <= 1 {
            return Err(GuildsError::InvalidState);
        }
        if !(caller == address) {
            let acting = match locate(&self.members[gi], &caller) {
                Some(i) => self.role_at(gi, i),
                None => {
                    return Err(GuildsError::Unauthorized);
                },
            };
            let allowed = match target {
                Role::Owner => acting == Role::Owner,
                Role::Admin => acting == Role::Owner || acting == Role::Admin,
                _ => acting.has_permission(&Role::Member),
            };
            if !allowed {
                return Err(GuildsError::Unauthorized);
            }
        }
        proof {
            lemma_unique_remove(self.members@[gi as int]@, idx as int);
        }
        self.members[gi].remove(idx);
        self.guilds[gi].member_count = self.guilds[gi].member_count - 1;
        self.emit_event(EventModule::Guild, EventAction::MemberRemoved, guild_id, Some(address), 0, now);
        Ok(true)
    }

    /// Gives `address` the role `new_role` in guild `guild_id`, on behalf of `caller`.
    /// Only an owner may change an owner's role, and the last owner keeps it.
    pub fn update_role(
        &mut self,
        guild_id: u64,
        address: String,
        new_role: Role,
        caller: String,
        now: u64,
    ) -> (r: Result<bool, GuildsError>)
        requires
            old(self).wf(),
            old(self).can_notify(),
        ensures
            final(self).wf(),
            match old(self).role_change_refusal(guild_id, address@, new_role, caller@) {
                Some(e) => r == Err::<bool, GuildsError>(e) && *final(self) == *old(self),
                None => {
                    let ms = old(self).roster(guild_id);
                    let k = index_of(ms, address@);
                    &&& r == Ok::<bool, GuildsError>(true)
                    &&& final(self).roster(guild_id) == ms.update(
                        k,
                        (Member { role: new_role, ..ms[k] }),
                    )
                    &&& final(self).guilds == old(self).guilds
                    &&& final(self).other_guilds_kept(old(self), guild_id)
                    &&& final(self).notified(
                        old(self),
                        EventModule::Guild,
                        EventAction::RoleUpdated,
                        guild_id,
                        Some(address),
                        0,
                        now,
                    )
                },
            },
    {
        if guild_id == 0 || guild_id > self.guilds.len() as u64 {
            return Err(GuildsError::NotFound);
        }
        let gi = (guild_id - 1) as usize;
        assert(self.guilds@[gi as int].id == guild_id);
        let idx = match locate(&self.members[gi], &address) {
            Some(i) => i,
            None => {
                return Err(GuildsError::NotFound);
            },
        };
        let target = self.role_at(gi, idx);
        let acting = match locate(&self.members[gi], &caller) {
            Some(i) => self.role_at(gi, i),
            None => {
                return Err(GuildsError::Unauthorized);
            },
        };
        let allowed = match target {
            Role::Owner => acting == Role::Owner,
            _ => acting == Role::Owner || acting == Role::Admin,
        };
        if !allowed {
            return Err(GuildsError::Unauthorized);
        }
        if target == Role::Owner && new_role != Role::Owner && self.count_owners(guild_id) <= 1 {
            return Err(GuildsError::InvalidState);
        }
        let ghost before = self.members@[gi as int]@;
        self.members[gi][idx].role = new_role;
        proof {
            let after = self.members@[gi as int]@;
            assert forall|x: int, y: int|
                0 <= x < after.len() && 0 <= y < after.len() && x != y implies #[trigger] after[x].address@
                != #[trigger] after[y].address@ by {
                assert(after[x].address == before[x].address);
                assert(after[y].address == before[y].address);
                assert(before[x].address@ != before[y].address@);
            }
        }
        self.emit_event(EventModule::Guild, EventAction::RoleUpdated, guild_id, Some(address), 0, now);
        Ok(true)
    }
}

} // verus!
