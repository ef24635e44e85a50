use ecotask_contracts::ecotask_types::TaskStatus;
use ecotask_contracts::env::{Address, Env};
use ecotask_contracts::task_registry::registry::{RegistryContract, RegistryError, TaskCompletedEvent};

fn ok<T>(r: Result<T, RegistryError>) -> T {
    match r {
        Ok(v) => v,
        Err(err) => panic!("{}", err.message()),
    }
}

/// A location hash that differs from call to call.
fn loc_hash(seed: u64) -> [u8; 32] {
    let mut h = [0u8; 32];
    h[..8].copy_from_slice(&seed.to_le_bytes());
    h
}

/// A fresh ledger and a registry at address 200 initialized with `admin`.
fn setup() -> (Env, Address, RegistryContract) {
    let e = Env::new();
    let admin = Address(1);
    let mut registry = RegistryContract::new(Address(200));
    ok(registry.initialize(&e, admin));
    (e, admin, registry)
}

fn create_test_task(
    registry: &mut RegistryContract,
    e: &Env,
    creator: Address,
    task_type: &str,
    max_completions: u32,
    expires_in: u64,
) -> u64 {
    let seed = registry.task_count(e);
    ok(registry.create_task(
        e,
        creator,
        task_type.as_bytes().to_vec(),
        loc_hash(seed),
        1000,
        max_completions,
        e.timestamp + expires_in,
    ))
    .0
}

#[test]
fn test_create_and_get_task() {
    let (mut e, admin, mut client) = setup();
    e.mock_all_auths = true;
    let task_id = create_test_task(&mut client, &e, admin, "tree-planting", 1, 1000);
    let task = ok(client.get_task(&e, task_id));
    assert_eq!(task.id, task_id);
    assert_eq!(task.creator, admin);
    assert_eq!(task.task_type, b"tree-planting".to_vec());
    assert_eq!(task.reward_amount, 1000);
    assert_eq!(task.max_completions, 1);
    assert_eq!(task.completions, 0);
    assert_eq!(task.status, TaskStatus::Active);
}

#[test]
fn test_complete_task() {
    let (mut e, admin, mut client) = setup();
    e.mock_all_auths = true;
    let user = Address(2);
    let task_id = create_test_task(&mut client, &e, admin, "trash-collection", 1, 1000);
    let event = ok(client.complete_task(&e, admin, task_id, user));
    assert_eq!(event, TaskCompletedEvent { user, task_id });
    let task = ok(client.get_task(&e, task_id));
    assert_eq!(task.completions, 1);
    assert_eq!(task.status, TaskStatus::Completed);
    assert!(client.is_task_completed(&e, task_id, user));
}

#[test]
#[should_panic(expected = "registry: already completed")]
fn test_double_claim_prevention() {
    let (mut e, admin, mut client) = setup();
    e.mock_all_auths = true;
    let user = Address(2);
    let task_id = create_test_task(&mut client, &e, admin, "ocean-cleanup", 2, 1000);
    ok(client.complete_task(&e, admin, task_id, user));
    ok(client.complete_task(&e, admin, task_id, user));
}

#[test]
fn test_max_completions() {
    let (mut e, admin, mut client) = setup();
    e.mock_all_auths = true;
    let (user1, user2) = (Address(2), Address(3));
    let task_id = create_test_task(&mut client, &e, admin, "tree-planting", 2, 1000);
    ok(client.complete_task(&e, admin, task_id, user1));
    let task = ok(client.get_task(&e, task_id));
    assert_eq!(task.completions, 1);
    assert_eq!(task.status, TaskStatus::Active);
    ok(client.complete_task(&e, admin, task_id, user2));
    let task = ok(client.get_task(&e, task_id));
    assert_eq!(task.completions, 2);
    assert_eq!(task.status, TaskStatus::Completed);
}

#[test]
fn test_expire_task() {
    let (mut e, admin, mut client) = setup();
    e.mock_all_auths = true;
    let task_id = create_test_task(&mut client, &e, admin, "tree-planting", 1, 1000);
    ok(client.expire_task(&e, admin, task_id));
    let task = ok(client.get_task(&e, task_id));
    assert_eq!(task.status, TaskStatus::Expired);
}

#[test]
#[should_panic(expected = "registry: unauthorized")]
fn test_unauthorized_creator() {
    let (mut e, _admin, mut client) = setup();
    e.mock_all_auths = true;
    let attacker = Address(2);
    ok(client.create_task(&e, attacker, b"tree-planting".to_vec(), loc_hash(0), 1000, 1, e.timestamp + 1000));
}

#[test]
#[should_panic(expected = "registry: unauthorized")]
fn test_unauthorized_expire() {
    let (mut e, _admin, mut client) = setup();
    e.mock_all_auths = true;
    let attacker = Address(2);
    ok(client.expire_task(&e, attacker, 0));
}

#[test]
fn test_permissionless_expire_past_deadline() {
    let (mut e, admin, mut client) = setup();
    e.mock_all_auths = true;
    e.timestamp = 1000;
    let task_id = create_test_task(&mut client, &e, admin, "tree-planting", 1, 500);
    e.timestamp = 2000;
    ok(client.expire_task_permissionless(&e, task_id));
    let task = ok(client.get_task(&e, task_id));
    assert_eq!(task.status, TaskStatus::Expired);
}

#[test]
#[should_panic(expected = "registry: task not yet expired")]
fn test_permissionless_expire_not_yet_expired() {
    let (mut e, admin, mut client) = setup();
    e.mock_all_auths = true;
    let task_id = create_test_task(&mut client, &e, admin, "tree-planting", 1, 1000);
    ok(client.expire_task_permissionless(&e, task_id));
}

#[test]
fn test_get_task_live_status_reflects_expiry() {
    let (mut e, admin, mut client) = setup();
    e.mock_all_auths = true;
    e.timestamp = 1000;
    let task_id = create_test_task(&mut client, &e, admin, "tree-planting", 1, 500);
    e.timestamp = 2000;
    let stored = ok(client.get_task(&e, task_id));
    assert_eq!(stored.status, TaskStatus::Active);
    let live = ok(client.get_task_live_status(&e, task_id));
    assert_eq!(live.status, TaskStatus::Expired);
}

#[test]
fn test_add_sponsor() {
    let (mut e, admin, mut client) = setup();
    e.mock_all_auths = true;
    let sponsor = Address(2);
    ok(client.add_sponsor(&e, admin, sponsor));
    let task_id = ok(client.create_task(&e, sponsor, b"tree-planting".to_vec(), loc_hash(0), 1000, 1, e.timestamp + 1000)).0;
    let task = ok(client.get_task(&e, task_id));
    assert_eq!(task.creator, sponsor);
}

#[test]
fn test_remove_sponsor() {
    let (mut e, admin, mut client) = setup();
    e.mock_all_auths = true;
    let sponsor = Address(2);
    ok(client.add_sponsor(&e, admin, sponsor));
    ok(client.create_task(&e, sponsor, b"tree-planting".to_vec(), loc_hash(0), 1000, 1, e.timestamp + 1000));
    ok(client.remove_sponsor(&e, admin, sponsor));
}

#[test]
#[should_panic(expected = "registry: unauthorized")]
fn test_removed_sponsor_cannot_create_task() {
    let (mut e, admin, mut client) = setup();
    e.mock_all_auths = true;
    let sponsor = Address(2);
    ok(client.add_sponsor(&e, admin, sponsor));
    ok(client.remove_sponsor(&e, admin, sponsor));
    ok(client.create_task(&e, sponsor, b"tree-planting".to_vec(), loc_hash(0), 1000, 1, e.timestamp + 1000));
}

#[test]
#[should_panic(expected = "registry: unauthorized")]
fn test_remove_sponsor_non_admin() {
    let (mut e, admin, mut client) = setup();
    e.mock_all_auths = true;
    let sponsor = Address(2);
    ok(client.add_sponsor(&e, admin, sponsor));
    let non_admin = Address(3);
    ok(client.remove_sponsor(&e, non_admin, sponsor));
}

#[test]
#[should_panic(expected = "registry: task is not active")]
fn test_expire_already_expired_task() {
    let (mut e, admin, mut client) = setup();
    e.mock_all_auths = true;
    let task_id = create_test_task(&mut client, &e, admin, "tree-planting", 1, 1000);
    ok(client.expire_task(&e, admin, task_id));
    ok(client.expire_task(&e, admin, task_id));
}

#[test]
#[should_panic(expected = "registry: task expired")]
fn test_expired_task_cannot_be_completed() {
    let (mut e, admin, mut client) = setup();
    e.mock_all_auths = true;
    let user = Address(2);
    e.timestamp = 1000;
    let task_id = create_test_task(&mut client, &e, admin, "tree-planting", 1, 1000);
    e.timestamp = 3000;
    ok(client.complete_task(&e, admin, task_id, user));
}

#[test]
fn test_cancel_task_by_creator() {
    let (mut e, admin, mut client) = setup();
    e.mock_all_auths = true;
    let task_id = create_test_task(&mut client, &e, admin, "tree-planting", 1, 1000);
    ok(client.cancel_task(&e, admin, task_id));
    let task = ok(client.get_task(&e, task_id));
    assert_eq!(task.status, TaskStatus::Cancelled);
}

#[test]
#[should_panic(expected = "registry: unauthorized")]
fn test_cancel_task_not_creator() {
    let (mut e, admin, mut client) = setup();
    e.mock_all_auths = true;
    let task_id = create_test_task(&mut client, &e, admin, "tree-planting", 1, 1000);
    let other = Address(2);
    ok(client.cancel_task(&e, other, task_id));
}

#[test]
#[should_panic(expected = "registry: task is not active")]
fn test_cancel_already_completed_task() {
    let (mut e, admin, mut client) = setup();
    e.mock_all_auths = true;
    let user = Address(2);
    let task_id = create_test_task(&mut client, &e, admin, "tree-planting", 1, 1000);
    ok(client.complete_task(&e, admin, task_id, user));
    ok(client.cancel_task(&e, admin, task_id));
}

#[test]
#[should_panic(expected = "registry: task is not active")]
fn test_complete_cancelled_task() {
    let (mut e, admin, mut client) = setup();
    e.mock_all_auths = true;
    let user = Address(2);
    let task_id = create_test_task(&mut client, &e, admin, "tree-planting", 2, 1000);
    ok(client.cancel_task(&e, admin, task_id));
    ok(client.complete_task(&e, admin, task_id, user));
}

#[test]
#[should_panic(expected = "registry: task is not active")]
fn test_expire_cancelled_task() {
    let (mut e, admin, mut client) = setup();
    e.mock_all_auths = true;
    let task_id = create_test_task(&mut client, &e, admin, "tree-planting", 1, 1000);
    ok(client.cancel_task(&e, admin, task_id));
    ok(client.expire_task(&e, admin, task_id));
}

#[test]
#[should_panic(expected = "registry: task type must not be empty")]
fn test_create_task_empty_type() {
    let (mut e, admin, mut client) = setup();
    e.mock_all_auths = true;
    ok(client.create_task(&e, admin, Vec::new(), loc_hash(0), 1000, 1, e.timestamp + 1000));
}

#[test]
fn test_get_tasks_by_creator() {
    let (mut e, admin, mut client) = setup();
    e.mock_all_auths = true;
    let id0 = create_test_task(&mut client, &e, admin, "tree-planting", 1, 1000);
    let id1 = create_test_task(&mut client, &e, admin, "tree-planting", 1, 1000);
    let id2 = create_test_task(&mut client, &e, admin, "tree-planting", 1, 1000);
    let ids = client.get_tasks_by_creator(&e, admin);
    assert_eq!(ids.len(), 3);
    assert_eq!(ids[0], id0);
    assert_eq!(ids[1], id1);
    assert_eq!(ids[2], id2);
    let other = Address(2);
    let empty = client.get_tasks_by_creator(&e, other);
    assert_eq!(empty.len(), 0);
}

#[test]
fn test_get_tasks_by_creator_paged() {
    let (mut e, admin, mut client) = setup();
    e.mock_all_auths = true;
    let mut ids = Vec::new();
    for _ in 0..5 {
        ids.push(create_test_task(&mut client, &e, admin, "tree-planting", 1, 1000));
    }
    let page0 = client.get_tasks_by_creator_paged(&e, admin, 0, 2);
    assert_eq!(page0.len(), 2);
    assert_eq!(page0[0], ids[0]);
    assert_eq!(page0[1], ids[1]);
    let page1 = client.get_tasks_by_creator_paged(&e, admin, 2, 2);
    assert_eq!(page1.len(), 2);
    assert_eq!(page1[0], ids[2]);
    assert_eq!(page1[1], ids[3]);
    let page2 = client.get_tasks_by_creator_paged(&e, admin, 4, 2);
    assert_eq!(page2.len(), 1);
    assert_eq!(page2[0], ids[4]);
    let empty = client.get_tasks_by_creator_paged(&e, admin, 10, 2);
    assert_eq!(empty.len(), 0);
}

#[test]
fn test_list_tasks_pagination() {
    let (mut e, admin, mut client) = setup();
    e.mock_all_auths = true;
    let mut ids = Vec::new();
    for _ in 0..4 {
        ids.push(create_test_task(&mut client, &e, admin, "tree-planting", 1, 1000));
    }
    let page0 = client.list_tasks(&e, 0, 2);
    assert_eq!(page0.len(), 2);
    assert_eq!(page0[0].id, ids[0]);
    assert_eq!(page0[1].id, ids[1]);
    let page1 = client.list_tasks(&e, 2, 2);
    assert_eq!(page1.len(), 2);
    assert_eq!(page1[0].id, ids[2]);
    assert_eq!(page1[1].id, ids[3]);
    let page2 = client.list_tasks(&e, 4, 10);
    assert_eq!(page2.len(), 0);
    let empty = client.list_tasks(&e, 0, 0);
    assert_eq!(empty.len(), 0);
}

#[test]
fn test_list_tasks_full_scan() {
    let (mut e, admin, mut client) = setup();
    e.mock_all_auths = true;
    let id0 = create_test_task(&mut client, &e, admin, "tree-planting", 1, 1000);
    let id1 = create_test_task(&mut client, &e, admin, "tree-planting", 1, 1000);
    let id2 = create_test_task(&mut client, &e, admin, "tree-planting", 1, 1000);
    let all = client.list_tasks(&e, 0, u32::MAX);
    assert_eq!(all.len(), 3);
    assert_eq!(all[0].id, id0);
    assert_eq!(all[1].id, id1);
    assert_eq!(all[2].id, id2);
}

#[test]
fn test_task_count_is_stable() {
    let (mut e, admin, mut client) = setup();
    e.mock_all_auths = true;
    assert_eq!(client.task_count(&e), 0);
    let id0 = create_test_task(&mut client, &e, admin, "tree-planting", 1, 1000);
    assert_eq!(id0, 0);
    assert_eq!(client.task_count(&e), 1);
    assert_eq!(client.task_count(&e), 1);
    assert_eq!(client.task_count(&e), 1);
    let id1 = create_test_task(&mut client, &e, admin, "tree-planting", 1, 1000);
    assert_eq!(id1, 1);
    assert_eq!(client.task_count(&e), 2);
}

#[test]
fn test_extend_task_expiry() {
    let (mut e, admin, mut client) = setup();
    e.mock_all_auths = true;
    let now = e.timestamp;
    let task_id = create_test_task(&mut client, &e, admin, "tree-planting", 1, 1000);
    let task = ok(client.get_task(&e, task_id));
    assert_eq!(task.expires_at, now + 1000);
    ok(client.extend_task_expiry(&e, admin, task_id, now + 5000));
    let task = ok(client.get_task(&e, task_id));
    assert_eq!(task.expires_at, now + 5000);
    assert_eq!(task.status, TaskStatus::Active);
}

#[test]
fn test_extend_task_expiry_by_creator_sponsor() {
    let (mut e, admin, mut client) = setup();
    e.mock_all_auths = true;
    let sponsor = Address(2);
    ok(client.add_sponsor(&e, admin, sponsor));
    let now = e.timestamp;
    let task_id = ok(client.create_task(&e, sponsor, b"ocean-cleanup".to_vec(), loc_hash(0), 1000, 1, now + 1000)).0;
    ok(client.extend_task_expiry(&e, sponsor, task_id, now + 9000));
    let task = ok(client.get_task(&e, task_id));
    assert_eq!(task.expires_at, now + 9000);
}

#[test]
#[should_panic(expected = "registry: unauthorized")]
fn test_extend_task_expiry_unauthorized() {
    let (mut e, admin, mut client) = setup();
    e.mock_all_auths = true;
    let now = e.timestamp;
    let task_id = create_test_task(&mut client, &e, admin, "tree-planting", 1, 1000);
    let attacker = Address(2);
    ok(client.extend_task_expiry(&e, attacker, task_id, now + 9000));
}

#[test]
#[should_panic(expected = "registry: new expiry must extend the current one")]
fn test_extend_task_expiry_must_increase() {
    let (mut e, admin, mut client) = setup();
    e.mock_all_auths = true;
    let now = e.timestamp;
    let task_id = create_test_task(&mut client, &e, admin, "tree-planting", 1, 1000);
    ok(client.extend_task_expiry(&e, admin, task_id, now + 500));
}

#[test]
#[should_panic(expected = "registry: task is not active")]
fn test_extend_expired_task_fails() {
    let (mut e, admin, mut client) = setup();
    e.mock_all_auths = true;
    let now = e.timestamp;
    let task_id = create_test_task(&mut client, &e, admin, "tree-planting", 1, 1000);
    ok(client.expire_task(&e, admin, task_id));
    ok(client.extend_task_expiry(&e, admin, task_id, now + 9000));
}

#[test]
#[should_panic(expected = "registry: task not found")]
fn test_extend_missing_task_fails() {
    let (mut e, admin, mut client) = setup();
    e.mock_all_auths = true;
    let later = e.timestamp + 9000;
    ok(client.extend_task_expiry(&e, admin, 999, later));
}

#[test]
fn test_task_survives_ledger_advancement() {
    let (mut e, admin, mut client) = setup();
    e.mock_all_auths = true;
    let task_id = create_test_task(&mut client, &e, admin, "tree-planting", 2, 100_000);
    let user1 = Address(2);
    ok(client.complete_task(&e, admin, task_id, user1));
    e.sequence = 5000;
    let task = ok(client.get_task(&e, task_id));
    assert_eq!(task.id, task_id);
    assert_eq!(task.creator, admin);
    assert_eq!(task.task_type, b"tree-planting".to_vec());
    assert_eq!(task.completions, 1);
    assert_eq!(task.status, TaskStatus::Active);
    assert!(client.is_task_completed(&e, task_id, user1));
    let ids = client.get_tasks_by_creator(&e, admin);
    assert_eq!(ids.len(), 1);
    assert_eq!(ids[0], task_id);
}

#[test]
fn registry_test_transfer_admin() {
    let (mut e, admin, mut client) = setup();
    e.mock_all_auths = true;
    let new_admin = Address(2);
    ok(client.transfer_admin(&e, admin, new_admin));
    let task_id = ok(client.create_task(&e, new_admin, b"tree-planting".to_vec(), loc_hash(0), 1000, 1, e.timestamp + 1000)).0;
    let task = ok(client.get_task(&e, task_id));
    assert_eq!(task.creator, new_admin);
}

#[test]
#[should_panic(expected = "registry: unauthorized")]
fn registry_test_transfer_admin_unauthorized() {
    let (mut e, _admin, mut client) = setup();
    e.mock_all_auths = true;
    let (attacker, new_admin) = (Address(2), Address(3));
    ok(client.transfer_admin(&e, attacker, new_admin));
}

#[test]
#[should_panic(expected = "registry: new admin must be different")]
fn registry_test_transfer_admin_same_address() {
    let (mut e, admin, mut client) = setup();
    e.mock_all_auths = true;
    ok(client.transfer_admin(&e, admin, admin));
}

#[test]
fn test_admin_cancel_task() {
    let (mut e, admin, mut client) = setup();
    e.mock_all_auths = true;
    let task_id = create_test_task(&mut client, &e, admin, "tree-planting", 1, 1000);
    ok(client.admin_cancel_task(&e, admin, task_id));
    let task = ok(client.get_task(&e, task_id));
    assert_eq!(task.status, TaskStatus::Cancelled);
}

#[test]
#[should_panic(expected = "registry: unauthorized")]
fn test_non_admin_cannot_admin_cancel() {
    let (mut e, admin, mut client) = setup();
    e.mock_all_auths = true;
    let task_id = create_test_task(&mut client, &e, admin, "tree-planting", 1, 1000);
    let other = Address(2);
    ok(client.admin_cancel_task(&e, other, task_id));
}

#[test]
#[should_panic(expected = "registry: task is not active")]
fn test_admin_cancel_completed_task() {
    let (mut e, admin, mut client) = setup();
    e.mock_all_auths = true;
    let user = Address(2);
    let task_id = create_test_task(&mut client, &e, admin, "tree-planting", 1, 1000);
    ok(client.complete_task(&e, admin, task_id, user));
    ok(client.admin_cancel_task(&e, admin, task_id));
}

#[test]
#[should_panic(expected = "registry: sponsor revoked")]
fn test_complete_task_desponsored_creator_fails() {
    let (mut e, admin, mut client) = setup();
    e.mock_all_auths = true;
    let sponsor = Address(2);
    ok(client.add_sponsor(&e, admin, sponsor));
    let task_id = ok(client.create_task(&e, sponsor, b"tree-planting".to_vec(), loc_hash(0), 1000, 1, e.timestamp + 1000)).0;
    ok(client.remove_sponsor(&e, admin, sponsor));
    let user = Address(3);
    ok(client.complete_task(&e, admin, task_id, user));
}

#[test]
fn test_complete_task_admin_creator_unaffected() {
    let (mut e, admin, mut client) = setup();
    e.mock_all_auths = true;
    let user = Address(2);
    let task_id = create_test_task(&mut client, &e, admin, "tree-planting", 1, 1000);
    ok(client.complete_task(&e, admin, task_id, user));
    let task = ok(client.get_task(&e, task_id));
    assert_eq!(task.status, TaskStatus::Completed);
}

#[test]
fn test_500_task_regression_creation_succeeds() {
    let (mut e, admin, mut client) = setup();
    e.mock_all_auths = true;
    let mut last_id: u64 = 0;
    for i in 0u32..500 {
        last_id = create_test_task(&mut client, &e, admin, "tree-planting", 1, 1_000_000 + i as u64);
    }
    assert_eq!(last_id, 499);
    let task = ok(client.get_task(&e, last_id));
    assert_eq!(task.id, last_id);
    assert_eq!(task.creator, admin);
    assert_eq!(task.status, TaskStatus::Active);
}

#[test]
fn test_500_task_creator_count_and_full_retrieval() {
    let (mut e, admin, mut client) = setup();
    e.mock_all_auths = true;
    let mut expected_ids: Vec<u64> = Vec::new();
    for i in 0u32..500 {
        let id = create_test_task(&mut client, &e, admin, "coastline-cleanup", 1, 1_000_000 + i as u64);
        expected_ids.push(id);
    }
    let page0 = client.get_tasks_by_creator_paged(&e, admin, 0, 10);
    assert_eq!(page0.len(), 10);
    for i in 0..10usize {
        assert_eq!(page0[i], expected_ids[i]);
    }
    let page_mid = client.get_tasks_by_creator_paged(&e, admin, 100, 50);
    assert_eq!(page_mid.len(), 50);
    for i in 0..50usize {
        assert_eq!(page_mid[i], expected_ids[100 + i]);
    }
    let page_near_end = client.get_tasks_by_creator_paged(&e, admin, 450, 50);
    assert_eq!(page_near_end.len(), 50);
    for i in 0..50usize {
        assert_eq!(page_near_end[i], expected_ids[450 + i]);
    }
    let page_partial = client.get_tasks_by_creator_paged(&e, admin, 490, 20);
    assert_eq!(page_partial.len(), 10);
    for i in 0..10usize {
        assert_eq!(page_partial[i], expected_ids[490 + i]);
    }
    let page_at_end = client.get_tasks_by_creator_paged(&e, admin, 500, 20);
    assert_eq!(page_at_end.len(), 0);
    let page_beyond = client.get_tasks_by_creator_paged(&e, admin, 600, 20);
    assert_eq!(page_beyond.len(), 0);
}

#[test]
fn test_creator_task_count_increments() {
    let (mut e, admin, mut client) = setup();
    e.mock_all_auths = true;
    let empty = client.get_tasks_by_creator_paged(&e, admin, 0, 10);
    assert_eq!(empty.len(), 0);
    let id0 = create_test_task(&mut client, &e, admin, "tree-planting", 1, 1000);
    let one = client.get_tasks_by_creator_paged(&e, admin, 0, 10);
    assert_eq!(one.len(), 1);
    assert_eq!(one[0], id0);
    let id1 = create_test_task(&mut client, &e, admin, "tree-planting", 1, 1000);
    let two = client.get_tasks_by_creator_paged(&e, admin, 0, 10);
    assert_eq!(two.len(), 2);
    assert_eq!(two[0], id0);
    assert_eq!(two[1], id1);
    let id2 = create_test_task(&mut client, &e, admin, "tree-planting", 1, 1000);
    let three = client.get_tasks_by_creator_paged(&e, admin, 0, 10);
    assert_eq!(three.len(), 3);
    assert_eq!(three[0], id0);
    assert_eq!(three[1], id1);
    assert_eq!(three[2], id2);
}

#[test]
fn test_multiple_creators_independent_indexes() {
    let (mut e, admin, mut client) = setup();
    e.mock_all_auths = true;
    let (sponsor1, sponsor2) = (Address(2), Address(3));
    ok(client.add_sponsor(&e, admin, sponsor1));
    ok(client.add_sponsor(&e, admin, sponsor2));
    let s1_id0 = create_test_task(&mut client, &e, sponsor1, "tree-planting", 1, 1000);
    let s1_id1 = create_test_task(&mut client, &e, sponsor1, "tree-planting", 1, 1000);
    let s1_id2 = create_test_task(&mut client, &e, sponsor1, "tree-planting", 1, 1000);
    let s2_id0 = create_test_task(&mut client, &e, sponsor2, "tree-planting", 1, 1000);
    let s2_id1 = create_test_task(&mut client, &e, sponsor2, "tree-planting", 1, 1000);
    let s1_ids = client.get_tasks_by_creator_paged(&e, sponsor1, 0, 10);
    assert_eq!(s1_ids, vec![s1_id0, s1_id1, s1_id2]);
    let s2_ids = client.get_tasks_by_creator_paged(&e, sponsor2, 0, 10);
    assert_eq!(s2_ids, vec![s2_id0, s2_id1]);
    let admin_ids = client.get_tasks_by_creator_paged(&e, admin, 0, 10);
    assert_eq!(admin_ids.len(), 0);
}

#[test]
fn test_paged_limit_zero_returns_empty() {
    let (mut e, admin, mut client) = setup();
    e.mock_all_auths = true;
    create_test_task(&mut client, &e, admin, "tree-planting", 1, 1000);
    let result = client.get_tasks_by_creator_paged(&e, admin, 0, 0);
    assert_eq!(result.len(), 0);
}

#[test]
fn test_paged_limit_one() {
    let (mut e, admin, mut client) = setup();
    e.mock_all_auths = true;
    let id0 = create_test_task(&mut client, &e, admin, "tree-planting", 1, 1000);
    create_test_task(&mut client, &e, admin, "tree-planting", 1, 1000);
    let result = client.get_tasks_by_creator_paged(&e, admin, 0, 1);
    assert_eq!(result.len(), 1);
    assert_eq!(result[0], id0);
}

#[test]
fn test_paged_limit_larger_than_remaining() {
    let (mut e, admin, mut client) = setup();
    e.mock_all_auths = true;
    let id0 = create_test_task(&mut client, &e, admin, "tree-planting", 1, 1000);
    let id1 = create_test_task(&mut client, &e, admin, "tree-planting", 1, 1000);
    let id2 = create_test_task(&mut client, &e, admin, "tree-planting", 1, 1000);
    let result = client.get_tasks_by_creator_paged(&e, admin, 1, 5);
    assert_eq!(result.len(), 2);
    assert_eq!(result[0], id1);
    assert_eq!(result[1], id2);
    let first = client.get_tasks_by_creator_paged(&e, admin, 0, 1);
    assert_eq!(first[0], id0);
}

#[test]
fn test_get_tasks_by_creator_below_cap() {
    let (mut e, admin, mut client) = setup();
    e.mock_all_auths = true;
    let id0 = create_test_task(&mut client, &e, admin, "tree-planting", 1, 1000);
    let id1 = create_test_task(&mut client, &e, admin, "tree-planting", 1, 1000);
    let ids = client.get_tasks_by_creator(&e, admin);
    assert_eq!(ids.len(), 2);
    assert_eq!(ids[0], id0);
    assert_eq!(ids[1], id1);
}

#[test]
fn test_get_tasks_by_creator_hard_cap_at_50() {
    let (mut e, admin, mut client) = setup();
    e.mock_all_auths = true;
    for i in 0u32..51 {
        create_test_task(&mut client, &e, admin, "tree-planting", 1, 1_000_000 + i as u64);
    }
    let ids = client.get_tasks_by_creator(&e, admin);
    assert_eq!(ids.len(), 50);
    let paged = client.get_tasks_by_creator_paged(&e, admin, 50, 10);
    assert_eq!(paged.len(), 1);
}

#[test]
fn test_no_duplicate_ids_in_creator_list() {
    let (mut e, admin, mut client) = setup();
    e.mock_all_auths = true;
    let n: u32 = 50;
    for i in 0u32..n {
        create_test_task(&mut client, &e, admin, "tree-planting", 1, 1_000_000 + i as u64);
    }
    let all = client.get_tasks_by_creator_paged(&e, admin, 0, n);
    assert_eq!(all.len(), n as usize);
    for i in 0u32..n {
        let id = all[i as usize];
        assert_eq!(id, i as u64);
    }
}

#[test]
fn completion_is_recorded_once_and_refused_after() {
    let (mut e, admin, mut client) = setup();
    e.mock_all_auths = true;
    let user = Address(2);
    let task_id = create_test_task(&mut client, &e, admin, "tree-planting", 3, 1000);
    assert!(!client.is_task_completed(&e, task_id, user));
    ok(client.complete_task(&e, admin, task_id, user));
    assert!(client.is_task_completed(&e, task_id, user));
    assert_eq!(client.complete_task(&e, admin, task_id, user), Err(RegistryError::AlreadyCompleted));
    let task = ok(client.get_task(&e, task_id));
    assert_eq!(task.completions, 1);
}

#[test]
fn deadline_is_inclusive_for_completion() {
    let (mut e, admin, mut client) = setup();
    e.mock_all_auths = true;
    e.timestamp = 100;
    let task_id = create_test_task(&mut client, &e, admin, "tree-planting", 2, 50);
    e.timestamp = 150;
    ok(client.complete_task(&e, admin, task_id, Address(2)));
    e.timestamp = 151;
    assert_eq!(client.complete_task(&e, admin, task_id, Address(3)), Err(RegistryError::TaskExpired));
}
