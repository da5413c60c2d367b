use devasign::contract::be_bytes;
use devasign::{DevAsignContract, DevAsignError, EscrowLedger, Payout, TaskStatus};
use soroban_sdk::testutils::Ledger;
use soroban_sdk::{Bytes, Env};

const MANAGER: [u8; 32] = [1u8; 32];
const DEVELOPER: [u8; 32] = [2u8; 32];
const OTHER: [u8; 32] = [3u8; 32];

fn digest(env: &Env, data: &[u8]) -> [u8; 32] {
    env.crypto().sha256(&Bytes::from_slice(env, data)).to_array()
}

fn project(env: &Env, c: &mut DevAsignContract) -> [u8; 32] {
    c.create_project(
        env,
        MANAGER,
        "Test Project".to_string(),
        "https://github.com/test/project".to_string(),
    )
    .unwrap()
}

fn task(env: &Env, c: &mut DevAsignContract, project_id: [u8; 32]) -> [u8; 32] {
    c.create_task(
        env,
        project_id,
        "Test Task".to_string(),
        "This is a test task".to_string(),
        100_i128,
        MANAGER,
    )
    .unwrap()
}

#[test]
fn test_create_project() {
    let env = Env::default();
    let mut c = DevAsignContract::new();
    let name = "Test Project".to_string();
    let repository_url = "https://github.com/test/project".to_string();

    let project_id = c.create_project(&env, MANAGER, name.clone(), repository_url.clone()).unwrap();

    let project = c.get_project(project_id).unwrap();
    assert_eq!(project.name, name);
    assert_eq!(project.manager, MANAGER);
    assert_eq!(project.repository_url, repository_url);
    assert_eq!(project.total_tasks, 0);
}

#[test]
fn test_create_task() {
    let env = Env::default();
    let mut c = DevAsignContract::new();
    let project_id = project(&env, &mut c);

    let title = "Test Task".to_string();
    let description = "This is a test task".to_string();
    let compensation = 100_i128;
    let task_id = c
        .create_task(&env, project_id, title.clone(), description.clone(), compensation, MANAGER)
        .unwrap();

    let task = c.get_task(task_id).unwrap();
    assert_eq!(task.title, title);
    assert_eq!(task.description, description);
    assert_eq!(task.compensation, compensation);
    assert_eq!(task.project_id, project_id);
    assert_eq!(task.status, TaskStatus::Open);
    assert_eq!(task.assigned_developer, None);

    let project = c.get_project(project_id).unwrap();
    assert_eq!(project.total_tasks, 1);
}

#[test]
fn test_developer_application_workflow() {
    let env = Env::default();
    let mut c = DevAsignContract::new();
    let project_id = project(&env, &mut c);
    let task_id = task(&env, &mut c, project_id);

    let expected_completion = env.ledger().timestamp() + 86400 * 7;
    c.apply_for_task(task_id, DEVELOPER, expected_completion).unwrap();

    let task = c.get_task(task_id).unwrap();
    let mut found = false;
    for applicant in task.applicants.iter() {
        if *applicant == DEVELOPER {
            found = true;
            break;
        }
    }
    assert!(found, "Developer should be in the applicants list");

    c.approve_application(task_id, DEVELOPER, MANAGER).unwrap();

    let task = c.get_task(task_id).unwrap();
    assert_eq!(task.status, TaskStatus::Assigned);
    assert_eq!(task.assigned_developer, Some(DEVELOPER));

    // completion is only possible once the task has been started
    assert_eq!(
        c.mark_task_completed(&env, task_id, DEVELOPER),
        Err(DevAsignError::InvalidState)
    );
    c.start_task(task_id, DEVELOPER).unwrap();
    c.mark_task_completed(&env, task_id, DEVELOPER).unwrap();

    let task = c.get_task(task_id).unwrap();
    assert_eq!(task.status, TaskStatus::Completed);

    c.approve_completion(task_id, MANAGER).unwrap();

    let task = c.get_task(task_id).unwrap();
    assert_eq!(task.status, TaskStatus::Approved);
}

#[test]
fn new_project_has_no_tasks_and_its_manager() {
    let env = Env::default();
    let mut c = DevAsignContract::new();
    let project_id = project(&env, &mut c);
    let project = c.get_project(project_id).unwrap();
    assert_eq!(project.id, project_id);
    assert_eq!(project.total_tasks, 0);
    assert_eq!(project.manager, MANAGER);
    assert!(c.get_project_tasks(project_id).is_empty());
}

#[test]
fn project_id_is_digest_of_ledger_time() {
    let env = Env::default();
    env.ledger().set_timestamp(1_700_000_000);
    let mut c = DevAsignContract::new();
    let project_id = project(&env, &mut c);
    assert_eq!(project_id, digest(&env, &1_700_000_000u64.to_be_bytes()));
    assert_ne!(project_id[..8], 1_700_000_000u64.to_be_bytes()[..]);
}

#[test]
fn task_id_is_digest_of_project_and_ledger_time() {
    let env = Env::default();
    env.ledger().set_timestamp(42);
    let mut c = DevAsignContract::new();
    let project_id = project(&env, &mut c);
    let task_id = task(&env, &mut c, project_id);
    let mut preimage = project_id.to_vec();
    preimage.extend_from_slice(&42u64.to_be_bytes());
    assert_eq!(task_id, digest(&env, &preimage));
}

#[test]
fn big_endian_bytes_of_timestamp() {
    assert_eq!(be_bytes(0x0102_0304_0506_0708), vec![1, 2, 3, 4, 5, 6, 7, 8]);
    assert_eq!(be_bytes(0), vec![0u8; 8]);
    assert_eq!(be_bytes(u64::MAX), vec![255u8; 8]);
}

#[test]
fn task_count_and_index_follow_creation_order() {
    let env = Env::default();
    let mut c = DevAsignContract::new();
    let project_id = project(&env, &mut c);
    let mut ids = Vec::new();
    for t in 1..=3u64 {
        env.ledger().set_timestamp(t * 10);
        ids.push(task(&env, &mut c, project_id));
    }
    assert_eq!(c.get_project(project_id).unwrap().total_tasks, 3);
    let listed: Vec<[u8; 32]> = c.get_project_tasks(project_id).iter().map(|t| t.id).collect();
    assert_eq!(listed, ids);
}

#[test]
fn second_application_is_refused() {
    let env = Env::default();
    let mut c = DevAsignContract::new();
    let project_id = project(&env, &mut c);
    let task_id = task(&env, &mut c, project_id);
    c.apply_for_task(task_id, DEVELOPER, 0).unwrap();
    assert_eq!(
        c.apply_for_task(task_id, DEVELOPER, 0),
        Err(DevAsignError::DuplicateApplication)
    );
    assert_eq!(c.get_task(task_id).unwrap().applicants, vec![DEVELOPER]);
}

#[test]
fn out_of_order_transitions_are_refused() {
    let env = Env::default();
    let mut c = DevAsignContract::new();
    let project_id = project(&env, &mut c);
    let task_id = task(&env, &mut c, project_id);
    c.apply_for_task(task_id, DEVELOPER, 0).unwrap();
    assert_eq!(c.start_task(task_id, DEVELOPER), Err(DevAsignError::InvalidState));
    assert_eq!(c.complete_task_at(task_id, DEVELOPER, 5), Err(DevAsignError::InvalidState));
    assert_eq!(c.approve_completion(task_id, MANAGER), Err(DevAsignError::InvalidState));
    assert_eq!(c.get_task(task_id).unwrap().status, TaskStatus::Open);

    c.approve_application(task_id, DEVELOPER, MANAGER).unwrap();
    assert_eq!(c.approve_application(task_id, DEVELOPER, MANAGER), Err(DevAsignError::InvalidState));
    assert_eq!(c.apply_for_task(task_id, OTHER, 0), Err(DevAsignError::InvalidState));
    assert_eq!(c.start_task(task_id, OTHER), Err(DevAsignError::Unauthorized));
    c.start_task(task_id, DEVELOPER).unwrap();
    assert_eq!(c.get_task(task_id).unwrap().status, TaskStatus::InProgress);
    assert_eq!(c.complete_task_at(task_id, OTHER, 5), Err(DevAsignError::Unauthorized));
    c.complete_task_at(task_id, DEVELOPER, 5).unwrap();
    let done = c.get_task(task_id).unwrap();
    assert_eq!(done.status, TaskStatus::Completed);
    assert_eq!(done.completion_date, Some(5));
}

#[test]
fn completion_time_is_ledger_time() {
    let env = Env::default();
    let mut c = DevAsignContract::new();
    let project_id = project(&env, &mut c);
    let task_id = task(&env, &mut c, project_id);
    c.apply_for_task(task_id, DEVELOPER, 0).unwrap();
    c.approve_application(task_id, DEVELOPER, MANAGER).unwrap();
    c.start_task(task_id, DEVELOPER).unwrap();
    env.ledger().set_timestamp(12_345);
    c.mark_task_completed(&env, task_id, DEVELOPER).unwrap();
    assert_eq!(c.get_task(task_id).unwrap().completion_date, Some(12_345));
}

#[test]
fn escrow_is_conserved_and_paid_once() {
    let env = Env::default();
    let mut c = DevAsignContract::new();
    let project_id = project(&env, &mut c);
    assert_eq!(c.escrow_balance(MANAGER), 0);
    let task_id = task(&env, &mut c, project_id);
    assert_eq!(c.escrow_balance(MANAGER), 100);
    c.apply_for_task(task_id, DEVELOPER, 0).unwrap();
    c.approve_application(task_id, DEVELOPER, MANAGER).unwrap();
    c.start_task(task_id, DEVELOPER).unwrap();
    c.complete_task_at(task_id, DEVELOPER, 1).unwrap();
    assert_eq!(c.escrow_balance(MANAGER), 100);
    let payout = c.approve_completion(task_id, MANAGER).unwrap();
    assert_eq!(payout, Payout { from: MANAGER, to: DEVELOPER, amount: 100 });
    assert_eq!(c.escrow_balance(MANAGER), 0);
    assert_eq!(c.approve_completion(task_id, MANAGER), Err(DevAsignError::InvalidState));
    assert_eq!(c.escrow_balance(MANAGER), 0);
}

#[test]
fn non_manager_cannot_assign() {
    let env = Env::default();
    let mut c = DevAsignContract::new();
    let project_id = project(&env, &mut c);
    let task_id = task(&env, &mut c, project_id);
    c.apply_for_task(task_id, DEVELOPER, 0).unwrap();
    assert_eq!(
        c.approve_application(task_id, DEVELOPER, OTHER),
        Err(DevAsignError::Unauthorized)
    );
    let t = c.get_task(task_id).unwrap();
    assert_eq!(t.status, TaskStatus::Open);
    assert_eq!(t.assigned_developer, None);
}

#[test]
fn non_manager_cannot_create_or_approve() {
    let env = Env::default();
    let mut c = DevAsignContract::new();
    let project_id = project(&env, &mut c);
    let r = c.create_task(&env, project_id, "t".to_string(), "d".to_string(), 10, OTHER);
    assert_eq!(r, Err(DevAsignError::Unauthorized));
    let task_id = task(&env, &mut c, project_id);
    assert_eq!(c.approve_completion(task_id, OTHER), Err(DevAsignError::Unauthorized));
}

#[test]
fn repeated_reads_agree() {
    let env = Env::default();
    let mut c = DevAsignContract::new();
    let project_id = project(&env, &mut c);
    let task_id = task(&env, &mut c, project_id);
    assert_eq!(c.get_task(task_id), c.get_task(task_id));
    assert_eq!(c.get_project(project_id), c.get_project(project_id));
    assert_eq!(c.get_project_tasks(project_id), c.get_project_tasks(project_id));
}

#[test]
fn unknown_identifiers_are_not_found() {
    let env = Env::default();
    let mut c = DevAsignContract::new();
    let missing = [9u8; 32];
    assert_eq!(c.get_task(missing), None);
    assert_eq!(c.get_project(missing), None);
    assert!(c.get_project_tasks(missing).is_empty());
    let r = c.create_task(&env, missing, "t".to_string(), "d".to_string(), 10, MANAGER);
    assert_eq!(r, Err(DevAsignError::NotFound));
    assert_eq!(c.apply_for_task(missing, DEVELOPER, 0), Err(DevAsignError::NotFound));
    assert_eq!(c.approve_application(missing, DEVELOPER, MANAGER), Err(DevAsignError::NotFound));
    assert_eq!(c.start_task(missing, DEVELOPER), Err(DevAsignError::NotFound));
    assert_eq!(c.mark_task_completed(&env, missing, DEVELOPER), Err(DevAsignError::NotFound));
    assert_eq!(c.approve_completion(missing, MANAGER), Err(DevAsignError::NotFound));
}

#[test]
fn assigning_someone_who_did_not_apply_is_refused() {
    let env = Env::default();
    let mut c = DevAsignContract::new();
    let project_id = project(&env, &mut c);
    let task_id = task(&env, &mut c, project_id);
    assert_eq!(
        c.approve_application(task_id, DEVELOPER, MANAGER),
        Err(DevAsignError::InvalidState)
    );
}

#[test]
fn non_positive_compensation_is_refused() {
    let env = Env::default();
    let mut c = DevAsignContract::new();
    let project_id = project(&env, &mut c);
    for amount in [0_i128, -5] {
        let r = c.create_task(&env, project_id, "t".to_string(), "d".to_string(), amount, MANAGER);
        assert_eq!(r, Err(DevAsignError::InvalidAmount));
    }
    assert_eq!(c.get_project(project_id).unwrap().total_tasks, 0);
    assert_eq!(c.escrow_balance(MANAGER), 0);
}

#[test]
fn identifiers_made_at_the_same_time_collide() {
    let env = Env::default();
    let mut c = DevAsignContract::new();
    let project_id = project(&env, &mut c);
    let again = c.create_project(&env, OTHER, "p".to_string(), "u".to_string());
    assert_eq!(again, Err(DevAsignError::IdCollision));
    assert_eq!(c.get_project(project_id).unwrap().manager, MANAGER);
    task(&env, &mut c, project_id);
    let r = c.create_task(&env, project_id, "t".to_string(), "d".to_string(), 7, MANAGER);
    assert_eq!(r, Err(DevAsignError::IdCollision));
    assert_eq!(c.get_project(project_id).unwrap().total_tasks, 1);
    assert_eq!(c.escrow_balance(MANAGER), 100);
}

#[test]
fn insert_task_checks_counter_and_escrow() {
    let mut c = DevAsignContract::new();
    let p = c.insert_project([5u8; 32], MANAGER, "p".to_string(), "u".to_string()).unwrap();
    c.insert_task([6u8; 32], p, "a".to_string(), "b".to_string(), i128::MAX, MANAGER).unwrap();
    let r = c.insert_task([7u8; 32], p, "a".to_string(), "b".to_string(), 1, MANAGER);
    assert_eq!(r, Err(DevAsignError::InvalidAmount));
    assert_eq!(c.get_task([7u8; 32]), None);
    assert_eq!(c.escrow_balance(MANAGER), i128::MAX);
}

#[test]
fn ledger_release_needs_balance() {
    let mut l = EscrowLedger::new();
    assert_eq!(l.release(&MANAGER, 1), Err(DevAsignError::InsufficientEscrow));
    l.deposit(&MANAGER, 40).unwrap();
    l.deposit(&MANAGER, 60).unwrap();
    assert_eq!(l.balance_of(&MANAGER), 100);
    assert_eq!(l.release(&MANAGER, 101), Err(DevAsignError::InsufficientEscrow));
    assert_eq!(l.balance_of(&MANAGER), 100);
    l.release(&MANAGER, 30).unwrap();
    assert_eq!(l.balance_of(&MANAGER), 70);
    assert_eq!(l.balance_of(&DEVELOPER), 0);
    assert_eq!(l.deposit(&MANAGER, i128::MAX), Err(DevAsignError::InvalidAmount));
    assert_eq!(l.balance_of(&MANAGER), 70);
}
