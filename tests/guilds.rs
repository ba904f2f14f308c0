use stellar_guilds::{GuildsError, Role, StellarGuildsContract};

fn s(text: &str) -> String {
    String::from(text)
}

fn setup() -> (StellarGuildsContract, String, String, String, String) {
    (StellarGuildsContract::new(), s("owner"), s("admin"), s("member"), s("non_member"))
}

fn guild(c: &mut StellarGuildsContract, owner: &str) -> u64 {
    c.create_guild(s("Guild"), s("Description"), s(owner), 0).unwrap()
}

#[test]
fn test_create_guild_success() {
    let (mut c, owner, _, _, _) = setup();
    let result = c.create_guild(s("Test Guild"), s("A test guild"), owner, 0);
    assert!(result.is_ok());
    assert_eq!(result.unwrap(), 1u64);
}

#[test]
fn test_create_guild_owner_is_member() {
    let (mut c, owner, _, _, _) = setup();
    let guild_id = c.create_guild(s("Guild"), s("Description"), owner.clone(), 0).unwrap();
    assert_eq!(c.is_member(guild_id, owner.clone()), true);
    let member = c.get_member(guild_id, owner).unwrap();
    assert_eq!(member.role, Role::Owner);
}

#[test]
fn test_create_guild_invalid_name_empty() {
    let (mut c, owner, _, _, _) = setup();
    let result = c.create_guild(s(""), s("Description"), owner, 0);
    assert!(result.is_err());
}

#[test]
fn test_create_guild_invalid_description_too_long() {
    let (mut c, owner, _, _, _) = setup();
    let long_desc = "x".repeat(513);
    let result = c.create_guild(s("Guild"), long_desc, owner, 0);
    assert!(result.is_err());
}

#[test]
fn test_create_multiple_guilds() {
    let (mut c, owner, _, _, _) = setup();
    let guild_id_1 = c.create_guild(s("Guild 1"), s("First guild"), owner.clone(), 0).unwrap();
    let guild_id_2 = c.create_guild(s("Guild 2"), s("Second guild"), owner, 0).unwrap();
    assert_eq!(guild_id_1, 1u64);
    assert_eq!(guild_id_2, 2u64);
}

#[test]
fn test_add_member_by_owner() {
    let (mut c, owner, admin, _, _) = setup();
    let guild_id = guild(&mut c, &owner);
    let result = c.add_member(guild_id, admin.clone(), Role::Admin, owner, 1);
    assert!(result.is_ok());
    let member = c.get_member(guild_id, admin).unwrap();
    assert_eq!(member.role, Role::Admin);
}

#[test]
fn test_add_member_duplicate() {
    let (mut c, owner, admin, _, _) = setup();
    let guild_id = guild(&mut c, &owner);
    c.add_member(guild_id, admin.clone(), Role::Member, owner.clone(), 1).unwrap();
    let result = c.add_member(guild_id, admin, Role::Member, owner, 2);
    assert!(result.is_err());
}

#[test]
fn test_add_member_permission_denied() {
    let (mut c, owner, admin, member, non_member) = setup();
    let guild_id = guild(&mut c, &owner);
    c.add_member(guild_id, admin, Role::Admin, owner.clone(), 1).unwrap();
    c.add_member(guild_id, member.clone(), Role::Member, owner, 2).unwrap();
    let result = c.add_member(guild_id, non_member.clone(), Role::Member, non_member, 3);
    assert!(result.is_err());
    let another = s("another");
    let result = c.add_member(guild_id, another, Role::Admin, member, 4);
    assert!(result.is_err());
}

#[test]
fn test_add_admin_by_non_owner() {
    let (mut c, owner, _, member, _) = setup();
    let guild_id = guild(&mut c, &owner);
    c.add_member(guild_id, member.clone(), Role::Member, owner, 1).unwrap();
    let new_owner = s("new_owner");
    let result = c.add_member(guild_id, new_owner, Role::Owner, member, 2);
    assert!(result.is_err());
}

#[test]
fn test_remove_member_by_owner() {
    let (mut c, owner, member, _, _) = setup();
    let guild_id = guild(&mut c, &owner);
    c.add_member(guild_id, member.clone(), Role::Member, owner.clone(), 1).unwrap();
    assert_eq!(c.is_member(guild_id, member.clone()), true);
    let result = c.remove_member(guild_id, member.clone(), owner, 2);
    assert!(result.is_ok());
    assert_eq!(c.is_member(guild_id, member), false);
}

#[test]
fn test_self_removal() {
    let (mut c, owner, member, _, _) = setup();
    let guild_id = guild(&mut c, &owner);
    c.add_member(guild_id, member.clone(), Role::Member, owner, 1).unwrap();
    let result = c.remove_member(guild_id, member.clone(), member.clone(), 2);
    assert!(result.is_ok());
    assert_eq!(c.is_member(guild_id, member), false);
}

#[test]
fn test_remove_last_owner_fails() {
    let (mut c, owner, _, _, _) = setup();
    let guild_id = guild(&mut c, &owner);
    let result = c.remove_member(guild_id, owner.clone(), owner, 1);
    assert!(result.is_err());
}

#[test]
fn test_remove_non_owner_by_non_owner_fails() {
    let (mut c, owner, admin, member, _) = setup();
    let guild_id = guild(&mut c, &owner);
    c.add_member(guild_id, member.clone(), Role::Member, owner.clone(), 1).unwrap();
    c.add_member(guild_id, admin.clone(), Role::Admin, owner, 2).unwrap();
    let result = c.remove_member(guild_id, admin, member, 3);
    assert!(result.is_err());
}

#[test]
fn test_update_role_by_owner() {
    let (mut c, owner, member, _, _) = setup();
    let guild_id = guild(&mut c, &owner);
    c.add_member(guild_id, member.clone(), Role::Member, owner.clone(), 1).unwrap();
    let result = c.update_role(guild_id, member.clone(), Role::Admin, owner, 2);
    assert!(result.is_ok());
    let updated_member = c.get_member(guild_id, member).unwrap();
    assert_eq!(updated_member.role, Role::Admin);
}

#[test]
fn test_update_role_permission_denied() {
    let (mut c, owner, member1, member2, _) = setup();
    let guild_id = guild(&mut c, &owner);
    c.add_member(guild_id, member1.clone(), Role::Member, owner.clone(), 1).unwrap();
    c.add_member(guild_id, member2.clone(), Role::Member, owner, 2).unwrap();
    let result = c.update_role(guild_id, member2, Role::Admin, member1, 3);
    assert!(result.is_err());
}

#[test]
fn test_cannot_demote_last_owner() {
    let (mut c, owner, admin, _, _) = setup();
    let guild_id = guild(&mut c, &owner);
    c.add_member(guild_id, admin, Role::Admin, owner.clone(), 1).unwrap();
    let result = c.update_role(guild_id, owner.clone(), Role::Admin, owner, 2);
    assert!(result.is_err());
}

#[test]
fn test_can_demote_owner_if_multiple() {
    let (mut c, owner1, owner2, _, _) = setup();
    let guild_id = guild(&mut c, &owner1);
    c.add_member(guild_id, owner2, Role::Owner, owner1.clone(), 1).unwrap();
    let result = c.update_role(guild_id, owner1.clone(), Role::Admin, owner1, 2);
    assert!(result.is_ok());
}

#[test]
fn test_get_member() {
    let (mut c, owner, member, _, _) = setup();
    let guild_id = guild(&mut c, &owner);
    c.add_member(guild_id, member.clone(), Role::Member, owner, 1).unwrap();
    let result = c.get_member(guild_id, member.clone());
    assert!(result.is_ok());
    let member_data = result.unwrap();
    assert_eq!(member_data.address, member);
    assert_eq!(member_data.role, Role::Member);
}

#[test]
fn test_get_member_not_found() {
    let (mut c, owner, member, non_member, _) = setup();
    let guild_id = guild(&mut c, &owner);
    c.add_member(guild_id, member, Role::Member, owner, 1).unwrap();
    let result = c.get_member(guild_id, non_member);
    assert!(result.is_err());
}

#[test]
fn test_get_all_members() {
    let (mut c, owner, member1, member2, member3) = setup();
    let guild_id = guild(&mut c, &owner);
    let members = c.get_all_members(guild_id);
    assert_eq!(members.len(), 1);
    c.add_member(guild_id, member1, Role::Member, owner.clone(), 1).unwrap();
    c.add_member(guild_id, member2, Role::Admin, owner.clone(), 2).unwrap();
    c.add_member(guild_id, member3, Role::Contributor, owner, 3).unwrap();
    let members = c.get_all_members(guild_id);
    assert_eq!(members.len(), 4);
}

#[test]
fn test_is_member() {
    let (mut c, owner, member, non_member, _) = setup();
    let guild_id = guild(&mut c, &owner);
    assert_eq!(c.is_member(guild_id, owner.clone()), true);
    assert_eq!(c.is_member(guild_id, non_member), false);
    c.add_member(guild_id, member.clone(), Role::Member, owner, 1).unwrap();
    assert_eq!(c.is_member(guild_id, member), true);
}

#[test]
fn test_has_permission() {
    let (mut c, owner, admin, member, contributor) = setup();
    let guild_id = guild(&mut c, &owner);
    c.add_member(guild_id, admin.clone(), Role::Admin, owner.clone(), 1).unwrap();
    c.add_member(guild_id, member.clone(), Role::Member, owner.clone(), 2).unwrap();
    c.add_member(guild_id, contributor.clone(), Role::Contributor, owner.clone(), 3).unwrap();

    assert_eq!(c.has_permission(guild_id, owner.clone(), Role::Owner), true);
    assert_eq!(c.has_permission(guild_id, owner.clone(), Role::Admin), true);
    assert_eq!(c.has_permission(guild_id, owner.clone(), Role::Member), true);
    assert_eq!(c.has_permission(guild_id, owner, Role::Contributor), true);

    assert_eq!(c.has_permission(guild_id, admin.clone(), Role::Owner), false);
    assert_eq!(c.has_permission(guild_id, admin.clone(), Role::Admin), true);
    assert_eq!(c.has_permission(guild_id, admin.clone(), Role::Member), true);
    assert_eq!(c.has_permission(guild_id, admin, Role::Contributor), true);

    assert_eq!(c.has_permission(guild_id, member.clone(), Role::Owner), false);
    assert_eq!(c.has_permission(guild_id, member.clone(), Role::Admin), false);
    assert_eq!(c.has_permission(guild_id, member.clone(), Role::Member), true);
    assert_eq!(c.has_permission(guild_id, member, Role::Contributor), true);

    assert_eq!(c.has_permission(guild_id, contributor.clone(), Role::Owner), false);
    assert_eq!(c.has_permission(guild_id, contributor.clone(), Role::Admin), false);
    assert_eq!(c.has_permission(guild_id, contributor.clone(), Role::Member), false);
    assert_eq!(c.has_permission(guild_id, contributor, Role::Contributor), true);
}

#[test]
fn test_full_guild_lifecycle() {
    let (mut c, owner, admin, member1, member2) = setup();
    let guild_id = c.create_guild(s("Community Guild"), s("A thriving community"), owner.clone(), 0).unwrap();
    assert_eq!(guild_id, 1u64);
    c.add_member(guild_id, admin.clone(), Role::Admin, owner.clone(), 1).unwrap();
    c.add_member(guild_id, member1.clone(), Role::Member, admin.clone(), 2).unwrap();
    c.add_member(guild_id, member2.clone(), Role::Contributor, owner, 3).unwrap();
    let members = c.get_all_members(guild_id);
    assert_eq!(members.len(), 4);
    c.update_role(guild_id, member1.clone(), Role::Member, admin, 4).unwrap();
    c.remove_member(guild_id, member1.clone(), member1.clone(), 5).unwrap();
    let members = c.get_all_members(guild_id);
    assert_eq!(members.len(), 3);
    assert_eq!(c.is_member(guild_id, member1), false);
    assert_eq!(c.is_member(guild_id, member2), true);
}

#[test]
fn test_admin_can_add_members_and_contributors() {
    let (mut c, owner, admin, member, contributor) = setup();
    let guild_id = guild(&mut c, &owner);
    c.add_member(guild_id, admin.clone(), Role::Admin, owner, 1).unwrap();
    let result1 = c.add_member(guild_id, member.clone(), Role::Member, admin.clone(), 2);
    assert!(result1.is_ok());
    let result2 = c.add_member(guild_id, contributor.clone(), Role::Contributor, admin, 3);
    assert!(result2.is_ok());
    assert_eq!(c.is_member(guild_id, member), true);
    assert_eq!(c.is_member(guild_id, contributor), true);
}

#[test]
fn test_admin_cannot_add_owner() {
    let (mut c, owner, admin, new_owner, _) = setup();
    let guild_id = guild(&mut c, &owner);
    c.add_member(guild_id, admin.clone(), Role::Admin, owner, 1).unwrap();
    let result = c.add_member(guild_id, new_owner, Role::Owner, admin, 2);
    assert!(result.is_err());
}

#[test]
fn test_version() {
    let c = StellarGuildsContract::new();
    assert_eq!(c.version(), "0.1.0");
}

#[test]
fn guild_errors_name_their_kind() {
    let (mut c, owner, admin, member, _) = setup();
    assert_eq!(c.add_member(9, admin.clone(), Role::Member, owner.clone(), 0), Err(GuildsError::NotFound));
    let guild_id = guild(&mut c, &owner);
    c.add_member(guild_id, member.clone(), Role::Member, owner.clone(), 1).unwrap();
    assert_eq!(
        c.add_member(guild_id, member.clone(), Role::Member, owner.clone(), 2),
        Err(GuildsError::InvalidState)
    );
    assert_eq!(
        c.add_member(guild_id, admin.clone(), Role::Admin, member.clone(), 3),
        Err(GuildsError::Unauthorized)
    );
    assert_eq!(c.remove_member(guild_id, owner.clone(), owner.clone(), 4), Err(GuildsError::InvalidState));
    assert_eq!(c.remove_member(guild_id, admin.clone(), owner.clone(), 5), Err(GuildsError::NotFound));
    assert_eq!(c.get_member(guild_id, admin), Err(GuildsError::NotFound));
    assert_eq!(c.create_guild(s(""), s("d"), owner, 6), Err(GuildsError::InvalidInput));
}

#[test]
fn member_counts_and_owner_counts_follow_the_roster() {
    let (mut c, owner, admin, member, _) = setup();
    let guild_id = guild(&mut c, &owner);
    c.add_member(guild_id, admin.clone(), Role::Owner, owner.clone(), 1).unwrap();
    c.add_member(guild_id, member.clone(), Role::Member, owner.clone(), 2).unwrap();
    assert_eq!(c.count_owners(guild_id), 2);
    assert_eq!(c.guilds[0].member_count, 3);
    c.remove_member(guild_id, member, owner.clone(), 3).unwrap();
    assert_eq!(c.guilds[0].member_count, 2);
    c.update_role(guild_id, admin, Role::Admin, owner, 4).unwrap();
    assert_eq!(c.count_owners(guild_id), 1);
    assert_eq!(c.count_owners(42), 0);
}

#[test]
fn names_of_exactly_256_chars_are_accepted() {
    let (mut c, owner, _, _, _) = setup();
    assert!(c.create_guild("n".repeat(256), "d".repeat(512), owner.clone(), 0).is_ok());
    assert_eq!(c.create_guild("n".repeat(257), s("d"), owner, 0), Err(GuildsError::InvalidInput));
}

#[test]
fn every_guild_change_is_numbered_in_sequence() {
    let (mut c, owner, admin, _, _) = setup();
    let guild_id = guild(&mut c, &owner);
    c.add_member(guild_id, admin, Role::Admin, owner, 7).unwrap();
    let events = c.take_events();
    assert_eq!(events.len(), 2);
    assert_eq!(events[0].sequence, 1);
    assert_eq!(events[1].sequence, 2);
    assert_eq!(events[1].timestamp, 7);
    assert!(c.take_events().is_empty());
}
