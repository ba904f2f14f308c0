use stellar_guilds::{BountyStatus, EventAction, EventModule, GuildsError, Role, StellarGuildsContract, Transfer};

fn s(text: &str) -> String {
    String::from(text)
}

/// A store with one guild owned by "owner", and the guild's id.
fn with_guild(name: &str, description: &str) -> (StellarGuildsContract, u64) {
    let mut c = StellarGuildsContract::new();
    let guild_id = c.create_guild(s(name), s(description), s("owner"), 0).unwrap();
    (c, guild_id)
}

/// What the transfers move to or from `party`, as seen by that party's balance.
fn balance_change(transfers: &[Transfer], party: &str) -> i128 {
    let mut change = 0i128;
    for t in transfers {
        match t {
            Transfer::Lock { payer, amount, .. } if payer == party => change -= amount,
            Transfer::Release { payee, amount, .. } if payee == party => change += amount,
            Transfer::TreasuryPayout { payee, amount, .. } if payee == party => change += amount,
            _ => {}
        }
    }
    change
}

/// What custody holds after the transfers.
fn custody_held(transfers: &[Transfer]) -> i128 {
    let mut held = 0i128;
    for t in transfers {
        match t {
            Transfer::Lock { amount, .. } => held += amount,
            Transfer::Release { amount, .. } => held -= amount,
            _ => {}
        }
    }
    held
}

#[test]
fn test_bounty_lifecycle_success() {
    let (mut c, guild_id) = with_guild("Dev Guild", "Developers");
    let reward = 500i128;
    let expiry = 86400u64;
    let bounty_id = c
        .create_bounty(guild_id, s("owner"), s("Fix Bug"), s("Fix specific bug"), reward, s("token"), expiry, 0)
        .unwrap();
    let bounty = c.get_bounty(bounty_id).unwrap();
    assert_eq!(bounty.status, BountyStatus::AwaitingFunds);
    assert_eq!(bounty.reward_amount, reward);

    let result = c.fund_bounty(bounty_id, s("funder"), reward, 1).unwrap();
    assert!(result);
    let bounty = c.get_bounty(bounty_id).unwrap();
    assert_eq!(bounty.status, BountyStatus::Open);
    assert_eq!(bounty.funded_amount, reward);
    let mut moved = c.take_transfers();
    assert_eq!(custody_held(&moved), reward);

    c.claim_bounty(bounty_id, s("claimer"), 2).unwrap();
    let bounty = c.get_bounty(bounty_id).unwrap();
    assert_eq!(bounty.status, BountyStatus::Claimed);
    assert_eq!(bounty.claimer, Some(s("claimer")));

    c.submit_work(bounty_id, s("claimer"), s("http://github.com/pr"), 3).unwrap();
    assert_eq!(c.get_bounty(bounty_id).unwrap().status, BountyStatus::UnderReview);

    c.approve_completion(bounty_id, s("owner"), 4).unwrap();
    assert_eq!(c.get_bounty(bounty_id).unwrap().status, BountyStatus::Completed);

    c.release_escrow(bounty_id, false, 5).unwrap();
    let released = c.take_transfers();
    assert_eq!(balance_change(&released, "claimer"), reward);
    moved.extend(released);
    assert_eq!(custody_held(&moved), 0);
}

#[test]
fn test_cancel_bounty_refund() {
    let (mut c, guild_id) = with_guild("G", "D");
    let reward = 200i128;
    let bounty_id = c
        .create_bounty(guild_id, s("owner"), s("T"), s("D"), reward, s("token"), 100000, 0)
        .unwrap();
    c.fund_bounty(bounty_id, s("funder"), reward, 1).unwrap();
    let mut moved = c.take_transfers();
    assert_eq!(custody_held(&moved), reward);

    c.cancel_bounty(bounty_id, s("owner"), false, 2).unwrap();
    let bounty = c.get_bounty(bounty_id).unwrap();
    assert_eq!(bounty.status, BountyStatus::Cancelled);
    assert_eq!(bounty.funded_amount, 0);

    let refund = c.take_transfers();
    assert_eq!(balance_change(&refund, "owner"), reward);
    moved.extend(refund);
    assert_eq!(custody_held(&moved), 0);
}

#[test]
fn test_claim_expired_bounty() {
    let (mut c, guild_id) = with_guild("G", "D");
    let created_at = 0u64;
    let bounty_id = c
        .create_bounty(guild_id, s("owner"), s("T"), s("D"), 0, s("token"), created_at + 1, created_at)
        .unwrap();
    let result = c.claim_bounty(bounty_id, s("claimer"), created_at + 100);
    assert_eq!(result, Err(GuildsError::Expired));
    assert_eq!(c.get_bounty(bounty_id).unwrap().status, BountyStatus::Expired);
}

#[test]
fn reward_500_scenario_pays_the_claimer_exactly_once() {
    let (mut c, guild_id) = with_guild("G", "D");
    let id = c.create_bounty(guild_id, s("owner"), s("T"), s("D"), 500, s("xlm"), 1000, 0).unwrap();
    c.fund_bounty(id, s("funder"), 500, 1).unwrap();
    assert_eq!(c.get_bounty(id).unwrap().status, BountyStatus::Open);
    c.claim_bounty(id, s("dev"), 2).unwrap();
    assert_eq!(c.get_bounty(id).unwrap().status, BountyStatus::Claimed);
    c.submit_work(id, s("dev"), s("https://pr/1"), 3).unwrap();
    assert_eq!(c.get_bounty(id).unwrap().status, BountyStatus::UnderReview);
    c.approve_completion(id, s("owner"), 4).unwrap();
    assert_eq!(c.get_bounty(id).unwrap().status, BountyStatus::Completed);
    c.take_transfers();
    c.release_escrow(id, false, 5).unwrap();
    let out = c.take_transfers();
    assert_eq!(out.len(), 1);
    assert_eq!(balance_change(&out, "dev"), 500);
    assert_eq!(c.get_bounty(id).unwrap().funded_amount, 0);
    // A second release finds nothing held and moves nothing.
    assert_eq!(c.release_escrow(id, false, 6), Ok(true));
    assert!(c.take_transfers().is_empty());
}

#[test]
fn funded_amount_is_locked_minus_released_at_every_step() {
    let (mut c, guild_id) = with_guild("G", "D");
    let id = c.create_bounty(guild_id, s("owner"), s("T"), s("D"), 300, s("xlm"), 1000, 0).unwrap();
    let mut journal: Vec<Transfer> = Vec::new();
    c.fund_bounty(id, s("a"), 100, 1).unwrap();
    journal.extend(c.take_transfers());
    assert_eq!(c.get_bounty(id).unwrap().funded_amount, custody_held(&journal));
    assert_eq!(c.get_bounty(id).unwrap().status, BountyStatus::AwaitingFunds);
    c.fund_bounty(id, s("b"), 250, 2).unwrap();
    journal.extend(c.take_transfers());
    assert_eq!(c.get_bounty(id).unwrap().funded_amount, 350);
    assert_eq!(c.get_bounty(id).unwrap().funded_amount, custody_held(&journal));
    assert_eq!(c.get_bounty(id).unwrap().status, BountyStatus::Open);
    c.expire_bounty(id, false, 1001).unwrap();
    journal.extend(c.take_transfers());
    assert_eq!(c.get_bounty(id).unwrap().funded_amount, 0);
    assert_eq!(custody_held(&journal), 0);
    assert_eq!(balance_change(&journal, "owner"), 350);
}

#[test]
fn completion_only_through_review_and_approval() {
    let (mut c, guild_id) = with_guild("G", "D");
    let id = c.create_bounty(guild_id, s("owner"), s("T"), s("D"), 0, s("xlm"), 1000, 0).unwrap();
    assert_eq!(c.approve_completion(id, s("owner"), 1), Err(GuildsError::InvalidState));
    c.claim_bounty(id, s("dev"), 1).unwrap();
    assert_eq!(c.approve_completion(id, s("owner"), 2), Err(GuildsError::InvalidState));
    assert_eq!(c.get_bounty(id).unwrap().status, BountyStatus::Claimed);
    c.submit_work(id, s("dev"), s("u"), 3).unwrap();
    assert_eq!(c.approve_completion(id, s("dev"), 4), Err(GuildsError::Unauthorized));
    c.approve_completion(id, s("owner"), 5).unwrap();
    assert_eq!(c.get_bounty(id).unwrap().status, BountyStatus::Completed);
}

#[test]
fn second_claim_observes_invalid_state() {
    let (mut c, guild_id) = with_guild("G", "D");
    let id = c.create_bounty(guild_id, s("owner"), s("T"), s("D"), 0, s("xlm"), 1000, 0).unwrap();
    assert_eq!(c.claim_bounty(id, s("first"), 10), Ok(true));
    assert_eq!(c.claim_bounty(id, s("second"), 11), Err(GuildsError::InvalidState));
    assert_eq!(c.get_bounty(id).unwrap().claimer, Some(s("first")));
}

#[test]
fn expire_on_terminal_bounties_is_a_quiet_no_op() {
    let (mut c, guild_id) = with_guild("G", "D");
    let cancelled = c.create_bounty(guild_id, s("owner"), s("T"), s("D"), 10, s("xlm"), 100, 0).unwrap();
    c.fund_bounty(cancelled, s("f"), 10, 1).unwrap();
    c.cancel_bounty(cancelled, s("owner"), false, 2).unwrap();
    let expired = c.create_bounty(guild_id, s("owner"), s("T"), s("D"), 10, s("xlm"), 100, 0).unwrap();
    c.fund_bounty(expired, s("f"), 10, 1).unwrap();
    assert_eq!(c.expire_bounty(expired, false, 101), Ok(true));
    let completed = c.create_bounty(guild_id, s("owner"), s("T"), s("D"), 0, s("xlm"), 100, 0).unwrap();
    c.claim_bounty(completed, s("dev"), 1).unwrap();
    c.submit_work(completed, s("dev"), s("u"), 2).unwrap();
    c.approve_completion(completed, s("owner"), 3).unwrap();
    c.take_transfers();
    for id in [cancelled, expired, completed] {
        assert_eq!(c.expire_bounty(id, false, 500), Ok(false));
        assert_eq!(c.expire_bounty(id, true, 500), Ok(false));
    }
    assert!(c.take_transfers().is_empty());
}

#[test]
fn expire_before_expiry_and_under_dispute() {
    let (mut c, guild_id) = with_guild("G", "D");
    let id = c.create_bounty(guild_id, s("owner"), s("T"), s("D"), 0, s("xlm"), 100, 0).unwrap();
    assert_eq!(c.expire_bounty(id, false, 100), Ok(false));
    assert_eq!(c.expire_bounty(id, true, 101), Err(GuildsError::DisputeLocked));
    assert_eq!(c.expire_bounty(77, false, 101), Err(GuildsError::NotFound));
    assert_eq!(c.expire_bounty(id, false, 101), Ok(true));
    assert_eq!(c.get_bounty(id).unwrap().status, BountyStatus::Expired);
}

#[test]
fn creation_is_validated() {
    let (mut c, guild_id) = with_guild("G", "D");
    c.add_member(guild_id, s("m"), Role::Member, s("owner"), 0).unwrap();
    let create = |c: &mut StellarGuildsContract, who: &str, title: String, desc: String, reward: i128, expiry: u64| {
        c.create_bounty(guild_id, s(who), title, desc, reward, s("xlm"), expiry, 10)
    };
    assert_eq!(create(&mut c, "m", s("T"), s("D"), 1, 20), Err(GuildsError::Unauthorized));
    assert_eq!(create(&mut c, "owner", s("T"), s("D"), -1, 20), Err(GuildsError::InvalidInput));
    assert_eq!(create(&mut c, "owner", s("T"), s("D"), 1, 10), Err(GuildsError::InvalidInput));
    assert_eq!(create(&mut c, "owner", s(""), s("D"), 1, 20), Err(GuildsError::InvalidInput));
    assert_eq!(create(&mut c, "owner", "t".repeat(257), s("D"), 1, 20), Err(GuildsError::InvalidInput));
    assert_eq!(create(&mut c, "owner", s("T"), "d".repeat(2049), 1, 20), Err(GuildsError::InvalidInput));
    assert_eq!(create(&mut c, "owner", "t".repeat(256), "d".repeat(2048), 0, 20), Ok(1));
    assert_eq!(c.get_bounty(1).unwrap().status, BountyStatus::Open);
    assert!(c.get_bounty(2).is_none());
}

#[test]
fn funding_errors_and_overfunding() {
    let (mut c, guild_id) = with_guild("G", "D");
    let id = c.create_bounty(guild_id, s("owner"), s("T"), s("D"), 100, s("xlm"), 50, 0).unwrap();
    assert_eq!(c.fund_bounty(id, s("f"), 0, 1), Err(GuildsError::InvalidInput));
    assert_eq!(c.fund_bounty(9, s("f"), 5, 1), Err(GuildsError::NotFound));
    assert_eq!(c.fund_bounty(id, s("f"), 150, 1), Ok(true));
    assert_eq!(c.get_bounty(id).unwrap().funded_amount, 150);
    assert_eq!(c.fund_bounty(id, s("f"), i128::MAX, 2), Err(GuildsError::ArithmeticOverflow));
    c.claim_bounty(id, s("dev"), 3).unwrap();
    assert_eq!(c.fund_bounty(id, s("f"), 5, 4), Err(GuildsError::InvalidState));
    // A touch after expiry expires the bounty and fails, without moving funds.
    c.take_transfers();
    assert_eq!(c.fund_bounty(id, s("f"), 5, 51), Err(GuildsError::Expired));
    assert_eq!(c.get_bounty(id).unwrap().status, BountyStatus::Expired);
    assert_eq!(c.get_bounty(id).unwrap().funded_amount, 150);
    assert!(c.take_transfers().is_empty());
    // The creator can still recover what is held.
    c.cancel_bounty(id, s("owner"), false, 52).unwrap();
    assert_eq!(balance_change(&c.take_transfers(), "owner"), 150);
}

#[test]
fn submission_rules() {
    let (mut c, guild_id) = with_guild("G", "D");
    let id = c.create_bounty(guild_id, s("owner"), s("T"), s("D"), 0, s("xlm"), 50, 0).unwrap();
    assert_eq!(c.submit_work(id, s("dev"), s("u"), 1), Err(GuildsError::Unauthorized));
    c.claim_bounty(id, s("dev"), 1).unwrap();
    assert_eq!(c.submit_work(id, s("other"), s("u"), 2), Err(GuildsError::Unauthorized));
    assert_eq!(c.submit_work(id, s("dev"), s(""), 2), Err(GuildsError::InvalidInput));
    assert_eq!(c.submit_work(id, s("dev"), "u".repeat(513), 2), Err(GuildsError::InvalidInput));
    assert_eq!(c.submit_work(id, s("dev"), "u".repeat(512), 2), Ok(true));
    assert_eq!(c.submit_work(id, s("dev"), s("u"), 3), Err(GuildsError::InvalidState));
    assert_eq!(c.get_bounty(id).unwrap().submission_url, Some("u".repeat(512)));
}

#[test]
fn release_and_cancel_rules() {
    let (mut c, guild_id) = with_guild("G", "D");
    c.add_member(guild_id, s("admin"), Role::Admin, s("owner"), 0).unwrap();
    let id = c.create_bounty(guild_id, s("owner"), s("T"), s("D"), 0, s("xlm"), 50, 0).unwrap();
    assert_eq!(c.release_escrow(id, true, 1), Err(GuildsError::DisputeLocked));
    assert_eq!(c.release_escrow(id, false, 1), Err(GuildsError::InvalidState));
    assert_eq!(c.release_escrow(8, false, 1), Err(GuildsError::NotFound));
    assert_eq!(c.cancel_bounty(id, s("stranger"), false, 1), Err(GuildsError::Unauthorized));
    assert_eq!(c.cancel_bounty(id, s("admin"), true, 1), Err(GuildsError::DisputeLocked));
    assert_eq!(c.cancel_bounty(id, s("admin"), false, 1), Ok(true));
    assert_eq!(c.cancel_bounty(id, s("admin"), false, 2), Err(GuildsError::InvalidState));
    assert!(c.take_transfers().is_empty());
}

#[test]
fn guild_bounties_are_listed_in_creation_order() {
    let mut c = StellarGuildsContract::new();
    let g1 = c.create_guild(s("A"), s(""), s("owner"), 0).unwrap();
    let g2 = c.create_guild(s("B"), s(""), s("owner"), 0).unwrap();
    c.create_bounty(g1, s("owner"), s("one"), s(""), 0, s("xlm"), 9, 0).unwrap();
    c.create_bounty(g2, s("owner"), s("two"), s(""), 0, s("xlm"), 9, 0).unwrap();
    c.create_bounty(g1, s("owner"), s("three"), s(""), 0, s("xlm"), 9, 0).unwrap();
    let listed = c.get_guild_bounties(g1);
    assert_eq!(listed.len(), 2);
    assert_eq!(listed[0].title, s("one"));
    assert_eq!(listed[1].title, s("three"));
    assert!(c.get_guild_bounties(5).is_empty());
}

#[test]
fn notifications_carry_party_and_amount() {
    let (mut c, guild_id) = with_guild("G", "D");
    c.take_events();
    let id = c.create_bounty(guild_id, s("owner"), s("T"), s("D"), 70, s("xlm"), 1000, 5).unwrap();
    c.fund_bounty(id, s("funder"), 70, 6).unwrap();
    c.cancel_bounty(id, s("owner"), false, 7).unwrap();
    let events = c.take_events();
    assert_eq!(events.len(), 3);
    assert_eq!(events[0].module, EventModule::Bounty);
    assert_eq!(events[0].action, EventAction::Created);
    assert_eq!(events[0].party, Some(s("owner")));
    assert_eq!(events[0].amount, 70);
    assert_eq!(events[1].action, EventAction::Funded);
    assert_eq!(events[1].party, Some(s("funder")));
    assert_eq!(events[1].amount, 70);
    assert_eq!(events[1].subject, id);
    assert_eq!(events[1].sequence + 1, events[2].sequence);
    assert_eq!(events[2].action, EventAction::Cancelled);
    assert_eq!(events[2].party, Some(s("owner")));
    assert_eq!(events[2].amount, 70);
}
