use stellar_guilds::{
    GuildsError, MilestoneInput, MilestoneStatus, ProjectStatus, Role, StellarGuildsContract, Transfer,
};

fn s(text: &str) -> String {
    String::from(text)
}

fn input(title: &str, description: &str, payment_amount: i128, deadline: u64) -> MilestoneInput {
    MilestoneInput { title: s(title), description: s(description), payment_amount, deadline }
}

/// A store with a guild owned by "owner" where "admin" is an admin.
fn setup() -> (StellarGuildsContract, u64) {
    let mut c = StellarGuildsContract::new();
    let guild_id = c.create_guild(s("Dev Guild"), s("Developers"), s("owner"), 0).unwrap();
    c.add_member(guild_id, s("admin"), Role::Admin, s("owner"), 0).unwrap();
    (c, guild_id)
}

/// What the treasury paid to `payee` in `transfers`.
fn paid_to(transfers: &[Transfer], payee_name: &str) -> i128 {
    let mut total = 0i128;
    for t in transfers {
        if let Transfer::TreasuryPayout { payee, amount, .. } = t {
            if payee == payee_name {
                total += amount;
            }
        }
    }
    total
}

#[test]
fn test_sequential_milestone_flow_releases_payments() {
    let (mut c, guild_id) = setup();
    let treasury_id = 1u64;
    let now = 0u64;
    let inputs = vec![
        input("Phase 1", "Initial phase", 100_000, now + 86400),
        input("Phase 2", "Second phase", 200_000, now + 2 * 86400),
    ];
    let total_amount: i128 = 300_000;
    let project_id = c
        .create_project(guild_id, s("contributor"), inputs, total_amount, treasury_id, Some(s("token")), true, now)
        .unwrap();
    let (completed, total, pct) = c.get_project_progress(project_id).unwrap();
    assert_eq!(total, 2);
    assert_eq!(completed, 0);
    assert_eq!(pct, 0);

    let milestone_ids = c.get_project_milestone_ids(project_id);
    assert_eq!(milestone_ids.len(), 2);
    let m1_id = milestone_ids[0];
    let m2_id = milestone_ids[1];

    c.start_milestone(m1_id, s("contributor"), 1).unwrap();
    c.submit_milestone(m1_id, s("contributor"), s("http://proof/1"), 2).unwrap();
    c.approve_milestone(m1_id, s("admin"), false, 3).unwrap();
    let mut paid = c.take_transfers();
    assert_eq!(paid_to(&paid, "contributor"), 100_000);
    let treasury_balance = 500_000 - paid_to(&paid, "contributor");
    assert_eq!(treasury_balance, 500_000 - 100_000);

    let (completed, total, pct) = c.get_project_progress(project_id).unwrap();
    assert_eq!(completed, 1);
    assert_eq!(total, 2);
    assert_eq!(pct, 50);

    c.start_milestone(m2_id, s("contributor"), 4).unwrap();
    c.submit_milestone(m2_id, s("contributor"), s("http://proof/2"), 5).unwrap();
    c.approve_milestone(m2_id, s("admin"), false, 6).unwrap();
    paid.extend(c.take_transfers());
    assert_eq!(paid_to(&paid, "contributor"), 300_000);

    let project = c.get_project(project_id).unwrap();
    assert_eq!(project.status, ProjectStatus::Completed);
    assert_eq!(c.get_project_progress(project_id), Ok((2, 2, 100)));
}

#[test]
fn test_sequential_prevents_out_of_order_start() {
    let (mut c, guild_id) = setup();
    let inputs = vec![input("M1", "", 50_000, 86400), input("M2", "", 50_000, 2 * 86400)];
    let project_id = c.create_project(guild_id, s("contributor"), inputs, 100_000, 1, Some(s("token")), true, 0).unwrap();
    let ids = c.get_project_milestone_ids(project_id);
    let m2_id = ids[1];
    let result = c.start_milestone(m2_id, s("contributor"), 1);
    assert_eq!(result, Err(GuildsError::PreviousMilestoneNotCompleted));
}

#[test]
fn test_parallel_allows_out_of_order_completion() {
    let (mut c, guild_id) = setup();
    let inputs = vec![input("P1", "", 50_000, 86400), input("P2", "", 75_000, 2 * 86400)];
    let total_amount = 125_000;
    let project_id = c.create_project(guild_id, s("contributor"), inputs, total_amount, 1, Some(s("token")), false, 0).unwrap();
    let ids = c.get_project_milestone_ids(project_id);
    let m1_id = ids[0];
    let m2_id = ids[1];

    c.start_milestone(m2_id, s("contributor"), 1).unwrap();
    c.submit_milestone(m2_id, s("contributor"), s("http://proof/2"), 2).unwrap();
    c.approve_milestone(m2_id, s("admin"), false, 3).unwrap();
    let mut paid = c.take_transfers();
    assert_eq!(paid_to(&paid, "contributor"), 75_000);

    c.start_milestone(m1_id, s("contributor"), 4).unwrap();
    c.submit_milestone(m1_id, s("contributor"), s("http://proof/1"), 5).unwrap();
    c.approve_milestone(m1_id, s("admin"), false, 6).unwrap();
    paid.extend(c.take_transfers());
    assert_eq!(paid_to(&paid, "contributor"), 125_000);
    let project = c.get_project(project_id).unwrap();
    assert_eq!(project.released_amount, project.total_amount);
    assert_eq!(project.status, ProjectStatus::Completed);
}

#[test]
fn test_expired_milestone_cannot_be_started() {
    let (mut c, guild_id) = setup();
    let now = 0u64;
    let inputs = vec![input("Expiring", "", 10_000, now + 10)];
    let project_id = c.create_project(guild_id, s("contributor"), inputs, 10_000, 1, Some(s("token")), true, now).unwrap();
    let m_id = c.get_project_milestone_ids(project_id)[0];
    let result = c.start_milestone(m_id, s("contributor"), now + 20);
    assert_eq!(result, Err(GuildsError::Expired));
    assert_eq!(c.get_milestone(m_id).unwrap().status, MilestoneStatus::Expired);
}

#[test]
fn test_extend_deadline_and_then_start() {
    let (mut c, guild_id) = setup();
    let now = 0u64;
    let inputs = vec![input("Late", "", 10_000, now + 10)];
    let project_id = c.create_project(guild_id, s("contributor"), inputs, 10_000, 1, Some(s("token")), true, now).unwrap();
    let m_id = c.get_project_milestone_ids(project_id)[0];
    let new_deadline = now + 100;
    c.extend_milestone_deadline(m_id, new_deadline, s("admin"), now + 20).unwrap();
    c.start_milestone(m_id, s("contributor"), now + 20).unwrap();
    assert_eq!(c.get_milestone(m_id).unwrap().status, MilestoneStatus::InProgress);
}

#[test]
fn expired_start_recovers_after_extension() {
    let (mut c, guild_id) = setup();
    let now = 1_000u64;
    let inputs = vec![input("Only", "", 10_000, now + 10)];
    let project_id = c.create_project(guild_id, s("contributor"), inputs, 10_000, 1, None, true, now).unwrap();
    let m_id = c.get_project_milestone_ids(project_id)[0];
    assert_eq!(c.start_milestone(m_id, s("contributor"), now + 20), Err(GuildsError::Expired));
    assert_eq!(c.extend_milestone_deadline(m_id, now + 100, s("contributor"), now + 21), Err(GuildsError::Unauthorized));
    assert_eq!(c.extend_milestone_deadline(m_id, now + 100, s("admin"), now + 21), Ok(true));
    let m = c.get_milestone(m_id).unwrap();
    assert_eq!(m.status, MilestoneStatus::Pending);
    assert_eq!(m.deadline, now + 100);
    assert_eq!(m.version, 2);
    assert_eq!(c.start_milestone(m_id, s("contributor"), now + 22), Ok(true));
}

#[test]
fn creation_rejects_mismatched_or_negative_amounts() {
    let (mut c, guild_id) = setup();
    let mismatch = vec![input("a", "", 10, 5), input("b", "", 20, 5)];
    assert_eq!(c.create_project(guild_id, s("x"), mismatch, 31, 1, None, true, 0), Err(GuildsError::InvalidInput));
    let negative = vec![input("a", "", -10, 5), input("b", "", 40, 5)];
    assert_eq!(c.create_project(guild_id, s("x"), negative, 30, 1, None, true, 0), Err(GuildsError::InvalidInput));
    let huge = vec![input("a", "", i128::MAX, 5), input("b", "", 1, 5)];
    assert_eq!(c.create_project(guild_id, s("x"), huge, 0, 1, None, true, 0), Err(GuildsError::ArithmeticOverflow));
    assert!(c.get_project(1).is_none());
    let empty: Vec<MilestoneInput> = Vec::new();
    assert_eq!(c.create_project(guild_id, s("x"), empty, 0, 1, None, true, 0), Ok(1));
    assert_eq!(c.get_project_progress(1), Ok((0, 0, 0)));
    assert_eq!(c.get_project_progress(2), Err(GuildsError::NotFound));
}

#[test]
fn project_records_follow_their_inputs() {
    let (mut c, guild_id) = setup();
    let inputs = vec![input("a", "first", 10, 5), input("b", "second", 20, 6)];
    let p = c.create_project(guild_id, s("x"), inputs, 30, 7, Some(s("usdc")), false, 3).unwrap();
    let project = c.get_project(p).unwrap();
    assert_eq!(project.total_amount, 30);
    assert_eq!(project.allocated_amount, 30);
    assert_eq!(project.released_amount, 0);
    assert_eq!(project.status, ProjectStatus::Active);
    let m = c.get_milestone(2).unwrap();
    assert_eq!(m.order, 1);
    assert_eq!(m.title, s("b"));
    assert_eq!(m.payment_amount, 20);
    assert_eq!(m.deadline, 6);
    assert_eq!(m.status, MilestoneStatus::Pending);
    assert!(!m.is_payment_released);
    assert_eq!(c.get_milestone(3), Err(GuildsError::NotFound));
}

#[test]
fn added_milestones_extend_the_sequence_and_the_allocation() {
    let (mut c, guild_id) = setup();
    let p = c.create_project(guild_id, s("x"), vec![input("a", "", 10, 50)], 10, 7, None, true, 0).unwrap();
    assert_eq!(c.add_milestone(p, s("b"), s(""), 5, 60, s("x"), 1), Err(GuildsError::Unauthorized));
    assert_eq!(c.add_milestone(p, s("b"), s(""), -5, 60, s("admin"), 1), Err(GuildsError::InvalidInput));
    assert_eq!(c.add_milestone(9, s("b"), s(""), 5, 60, s("admin"), 1), Err(GuildsError::NotFound));
    let id = c.add_milestone(p, s("b"), s(""), 5, 60, s("admin"), 1).unwrap();
    assert_eq!(id, 2);
    assert_eq!(c.get_milestone(id).unwrap().order, 1);
    let project = c.get_project(p).unwrap();
    assert_eq!(project.total_amount, 15);
    assert_eq!(project.allocated_amount, 15);
    assert_eq!(c.get_project_milestone_ids(p), vec![1, 2]);
    // Sequential gating applies to the added milestone too.
    assert_eq!(c.start_milestone(id, s("x"), 2), Err(GuildsError::PreviousMilestoneNotCompleted));
}

#[test]
fn review_rules_and_rejection() {
    let (mut c, guild_id) = setup();
    let p = c.create_project(guild_id, s("x"), vec![input("a", "", 10, 50)], 10, 7, None, false, 0).unwrap();
    assert_eq!(c.start_milestone(1, s("y"), 1), Err(GuildsError::Unauthorized));
    assert_eq!(c.submit_milestone(1, s("x"), s("p"), 1), Err(GuildsError::InvalidState));
    c.start_milestone(1, s("x"), 1).unwrap();
    assert_eq!(c.start_milestone(1, s("x"), 1), Err(GuildsError::InvalidState));
    assert_eq!(c.approve_milestone(1, s("admin"), false, 2), Err(GuildsError::InvalidState));
    c.submit_milestone(1, s("x"), s("p"), 2).unwrap();
    assert_eq!(c.get_milestone(1).unwrap().submitted_at, Some(2));
    assert_eq!(c.approve_milestone(1, s("x"), false, 3), Err(GuildsError::Unauthorized));
    assert_eq!(c.reject_milestone(1, s("admin"), s("incomplete"), 3), Ok(true));
    let m = c.get_milestone(1).unwrap();
    assert_eq!(m.status, MilestoneStatus::Rejected);
    assert_eq!(m.rejection_reason, Some(s("incomplete")));
    assert_eq!(c.approve_milestone(1, s("admin"), false, 4), Err(GuildsError::InvalidState));
    assert!(c.take_transfers().is_empty());
    assert_eq!(c.get_project(p).unwrap().released_amount, 0);
}

#[test]
fn payment_happens_once_at_approval() {
    let (mut c, guild_id) = setup();
    c.create_project(guild_id, s("x"), vec![input("a", "", 10, 50), input("b", "", 5, 50)], 15, 7, Some(s("usdc")), false, 0).unwrap();
    c.start_milestone(1, s("x"), 1).unwrap();
    c.submit_milestone(1, s("x"), s("p"), 2).unwrap();
    assert_eq!(c.release_milestone_payment(1, false), Err(GuildsError::InvalidState));
    c.approve_milestone(1, s("admin"), false, 3).unwrap();
    let out = c.take_transfers();
    assert_eq!(
        out,
        vec![Transfer::TreasuryPayout { milestone_id: 1, treasury_id: 7, currency: Some(s("usdc")), payee: s("x"), amount: 10 }]
    );
    assert!(c.get_milestone(1).unwrap().is_payment_released);
    assert_eq!(c.release_milestone_payment(1, false), Ok(false));
    assert_eq!(c.release_milestone_payment(1, true), Err(GuildsError::DisputeLocked));
    assert!(c.take_transfers().is_empty());
    assert_eq!(c.get_project(1).unwrap().status, ProjectStatus::Active);
    assert_eq!(c.get_project_progress(1), Ok((1, 2, 50)));
}

#[test]
fn cancelled_projects_take_no_new_milestones() {
    let (mut c, guild_id) = setup();
    let inputs = vec![input("a", "", 10, 50), input("b", "", 5, 50), input("c", "", 1, 50)];
    let p = c.create_project(guild_id, s("x"), inputs, 16, 7, None, false, 0).unwrap();
    c.start_milestone(1, s("x"), 1).unwrap();
    c.submit_milestone(1, s("x"), s("p"), 2).unwrap();
    c.approve_milestone(1, s("admin"), false, 3).unwrap();
    c.start_milestone(2, s("x"), 3).unwrap();
    assert_eq!(c.cancel_project(p, s("x"), 4), Err(GuildsError::Unauthorized));
    assert_eq!(c.cancel_project(p, s("admin"), 4), Ok(true));
    let project = c.get_project(p).unwrap();
    assert_eq!(project.status, ProjectStatus::Cancelled);
    assert_eq!(project.allocated_amount, 16);
    assert_eq!(project.released_amount, 10);
    assert_eq!(c.cancel_project(p, s("admin"), 5), Err(GuildsError::InvalidState));
    assert_eq!(c.add_milestone(p, s("d"), s(""), 1, 60, s("admin"), 5), Err(GuildsError::InvalidState));
    assert_eq!(c.cancel_project(9, s("admin"), 5), Err(GuildsError::NotFound));
    // No new work starts.
    assert_eq!(c.start_milestone(3, s("x"), 6), Err(GuildsError::InvalidState));
    assert_eq!(c.get_milestone(3).unwrap().status, MilestoneStatus::Pending);
    c.take_transfers();
    // Work already under way can still be submitted and paid.
    assert_eq!(c.submit_milestone(2, s("x"), s("p"), 7), Ok(true));
    assert_eq!(c.approve_milestone(2, s("admin"), false, 8), Ok(true));
    assert_eq!(paid_to(&c.take_transfers(), "x"), 5);
    let project = c.get_project(p).unwrap();
    assert_eq!(project.released_amount, 15);
    assert_eq!(project.status, ProjectStatus::Cancelled);
}

#[test]
fn an_expired_milestone_reports_expiry_again() {
    let (mut c, guild_id) = setup();
    c.create_project(guild_id, s("x"), vec![input("a", "", 10, 5)], 10, 7, None, true, 0).unwrap();
    assert_eq!(c.start_milestone(1, s("x"), 6), Err(GuildsError::Expired));
    assert_eq!(c.start_milestone(1, s("x"), 7), Err(GuildsError::Expired));
    assert_eq!(c.get_milestone(1).unwrap().status, MilestoneStatus::Expired);
}

#[test]
fn disputed_milestones_are_not_approved() {
    let (mut c, guild_id) = setup();
    c.create_project(guild_id, s("x"), vec![input("a", "", 10, 50)], 10, 7, None, false, 0).unwrap();
    c.start_milestone(1, s("x"), 1).unwrap();
    c.submit_milestone(1, s("x"), s("p"), 2).unwrap();
    assert_eq!(c.approve_milestone(1, s("admin"), true, 3), Err(GuildsError::DisputeLocked));
    assert_eq!(c.get_milestone(1).unwrap().status, MilestoneStatus::Submitted);
    assert!(c.take_transfers().is_empty());
    assert_eq!(c.approve_milestone(1, s("admin"), false, 4), Ok(true));
    assert_eq!(paid_to(&c.take_transfers(), "x"), 10);
}

#[test]
fn progress_rounds_down() {
    let (mut c, guild_id) = setup();
    let inputs = vec![input("a", "", 1, 50), input("b", "", 1, 50), input("c", "", 1, 50)];
    c.create_project(guild_id, s("x"), inputs, 3, 7, None, false, 0).unwrap();
    c.start_milestone(3, s("x"), 1).unwrap();
    c.submit_milestone(3, s("x"), s("p"), 2).unwrap();
    c.approve_milestone(3, s("admin"), false, 3).unwrap();
    assert_eq!(c.get_project_progress(1), Ok((1, 3, 33)));
}
