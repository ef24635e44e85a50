use ecotask_contracts::eco_token::token::TokenContract;
use ecotask_contracts::env::{Address, Env};
use ecotask_contracts::reward_engine::storage::{CidHash, Verification, VerificationStatus};
use ecotask_contracts::reward_engine::verification::{
    DisputeResolvedEvent, EngineError, ProofSubmittedEvent, RewardEngine, RewardPaidEvent,
};
use ecotask_contracts::task_registry::registry::RegistryContract;

fn ok<T>(r: Result<T, EngineError>) -> T {
    match r {
        Ok(v) => v,
        Err(err) => panic!("{}", err.message()),
    }
}

fn loc_hash(seed: u64) -> [u8; 32] {
    let mut h = [7u8; 32];
    h[..8].copy_from_slice(&seed.to_le_bytes());
    h
}

/// An engine wired to a token and a registry, as a deployment sets them up:
/// the engine is a sponsor of the registry and the ledger authorizes every
/// address.
struct World {
    e: Env,
    admin: Address,
    oracle: Address,
    user: Address,
    engine: RewardEngine,
    registry: RegistryContract,
    token: TokenContract,
}

impl World {
    fn new() -> World {
        let mut e = Env::new();
        let (admin, oracle, user) = (Address(1), Address(2), Address(3));
        let mut token = TokenContract::new(Address(100));
        token.initialize(&e, admin, b"ECO".to_vec(), b"ECO".to_vec(), 7).unwrap();
        let mut registry = RegistryContract::new(Address(200));
        registry.initialize(&e, admin).unwrap();
        let mut engine = RewardEngine::new(Address(300));
        e.mock_all_auths = true;
        registry.add_sponsor(&e, admin, engine.address).unwrap();
        ok(engine.initialize(&e, admin, token.address, registry.address, oracle));
        World { e, admin, oracle, user, engine, registry, token }
    }

    fn create_task(&mut self, task_type: &str, reward: i128, max_completions: u32, expires_at: u64) -> u64 {
        let seed = self.registry.task_count(&self.e);
        self.registry
            .create_task(&self.e, self.admin, task_type.as_bytes().to_vec(), loc_hash(seed), reward, max_completions, expires_at)
            .unwrap()
            .0
    }

    fn submit(&mut self, oracle: Address, user: Address, task_id: u64, cid: &str) -> Result<ProofSubmittedEvent, EngineError> {
        self.engine.submit_proof(&self.e, oracle, user, task_id, cid.as_bytes().to_vec())
    }

    fn approve(&mut self, oracle: Address, user: Address, task_id: u64, amount: i128) -> Result<RewardPaidEvent, EngineError> {
        self.engine.approve_proof(&self.e, &mut self.registry, &mut self.token, oracle, user, task_id, amount)
    }

    fn reject(&mut self, oracle: Address, user: Address, task_id: u64) -> Result<(), EngineError> {
        self.engine.reject_proof(&self.e, oracle, user, task_id).map(|_| ())
    }

    fn dispute(&mut self, caller: Address, user: Address, task_id: u64) -> Result<(), EngineError> {
        self.engine.dispute_proof(&self.e, caller, user, task_id).map(|_| ())
    }

    fn resolve(&mut self, caller: Address, user: Address, task_id: u64, approve: bool, amount: i128) -> Result<DisputeResolvedEvent, EngineError> {
        self.engine.resolve_dispute(&self.e, &mut self.registry, &mut self.token, caller, user, task_id, approve, amount)
    }

    fn verification(&self, task_id: u64, user: Address) -> Verification {
        ok(self.engine.get_verification(&self.e, task_id, user))
    }

    fn pending(&self) -> Vec<Verification> {
        self.engine.get_pending_verifications(&self.e)
    }

    fn paged(&self, cursor: u64, limit: u32) -> Vec<Verification> {
        self.engine.get_pending_verifications_paged(&self.e, cursor, limit)
    }
}

/// The standard fixture: one task worth 1000 with a single completion slot,
/// open for 10000 seconds.
fn setup() -> (World, u64) {
    let mut w = World::new();
    let expires = w.e.timestamp + 10000;
    let task_id = w.create_task("tree-planting", 1000, 1, expires);
    (w, task_id)
}

/// Two tasks for two users, each worth 1000 with one slot.
fn setup_two_tasks() -> (World, Address, Address, u64, u64) {
    let mut w = World::new();
    let expires_at = w.e.timestamp + 10000;
    let first_task = w.create_task("first-task", 1000, 1, expires_at);
    let second_task = w.create_task("second-task", 1000, 1, expires_at);
    (w, Address(10), Address(11), first_task, second_task)
}

/// The SHA-256 digest of `data` as the Soroban host computes it.
fn host_sha256(data: &[u8]) -> [u8; 32] {
    let config = soroban_sdk::testutils::EnvTestConfig { capture_snapshot_at_drop: false };
    let env = soroban_sdk::Env::new_with_config(config);
    env.crypto().sha256(&soroban_sdk::Bytes::from_slice(&env, data)).to_array()
}

#[test]
fn test_lookup_by_cid_hash() {
    let (mut w, task_id) = setup();
    let (oracle, user) = (w.oracle, w.user);
    ok(w.submit(oracle, user, task_id, "QmLookupProof"));
    let cid_hash = CidHash(host_sha256(b"QmLookupProof"));
    let verification = ok(w.engine.get_verification_by_cid_hash(&w.e, cid_hash));
    assert_eq!(verification.task_id, task_id);
    assert_eq!(verification.user, user);
    assert_eq!(verification.proof_cid, b"QmLookupProof".to_vec());
}

#[test]
fn test_duplicate_cid_across_tasks_rejected() {
    let (mut w, first_user, second_user, first_task, second_task) = setup_two_tasks();
    let oracle = w.oracle;
    ok(w.submit(oracle, first_user, first_task, "QmDuplicateProof"));
    let result = w.submit(oracle, second_user, second_task, "QmDuplicateProof");
    assert!(result.is_err());
}

#[test]
fn test_submit_and_approve() {
    let (mut w, task_id) = setup();
    let (oracle, user) = (w.oracle, w.user);
    ok(w.submit(oracle, user, task_id, "QmTest123"));
    ok(w.approve(oracle, user, task_id, 1000));
    let verification = w.verification(task_id, user);
    assert_eq!(verification.status, VerificationStatus::Approved);
    assert_eq!(verification.reward_amount, 1000);
    assert!(verification.resolved_at.is_some());
}

#[test]
fn test_submit_and_reject() {
    let (mut w, task_id) = setup();
    let (oracle, user) = (w.oracle, w.user);
    ok(w.submit(oracle, user, task_id, "QmTest456"));
    ok(w.reject(oracle, user, task_id));
    let verification = w.verification(task_id, user);
    assert_eq!(verification.status, VerificationStatus::Rejected);
    assert!(verification.resolved_at.is_some());
}

#[test]
#[should_panic(expected = "engine: oracle must be different from admin")]
fn test_initialize_oracle_same_as_admin() {
    let e = Env::new();
    let (admin, token, registry) = (Address(1), Address(100), Address(200));
    let mut engine = RewardEngine::new(Address(300));
    ok(engine.initialize(&e, admin, token, registry, admin));
}

#[test]
#[should_panic(expected = "engine: unauthorized")]
fn test_unauthorized_oracle_cannot_submit() {
    let (mut w, _task_id) = setup();
    let user = w.user;
    let fake_oracle = Address(10);
    ok(w.submit(fake_oracle, user, 1, "QmBad"));
}

#[test]
#[should_panic(expected = "engine: verification is not pending")]
fn test_double_approve_fails() {
    let (mut w, task_id) = setup();
    let (oracle, user) = (w.oracle, w.user);
    ok(w.submit(oracle, user, task_id, "QmTest789"));
    ok(w.approve(oracle, user, task_id, 1000));
    ok(w.approve(oracle, user, task_id, 1000));
}

#[test]
fn test_dispute_flow() {
    let (mut w, task_id) = setup();
    let (admin, oracle, user) = (w.admin, w.oracle, w.user);
    ok(w.submit(oracle, user, task_id, "QmDispute"));
    ok(w.dispute(admin, user, task_id));
    assert_eq!(w.verification(task_id, user).status, VerificationStatus::Disputed);
}

#[test]
fn test_resolve_dispute_approve() {
    let (mut w, task_id) = setup();
    let (admin, oracle, user) = (w.admin, w.oracle, w.user);
    ok(w.submit(oracle, user, task_id, "QmResDispute"));
    ok(w.dispute(admin, user, task_id));
    ok(w.resolve(admin, user, task_id, true, 1000));
    let verification = w.verification(task_id, user);
    assert_eq!(verification.status, VerificationStatus::Approved);
    assert_eq!(verification.reward_amount, 1000);
}

#[test]
fn test_resolve_dispute_reject() {
    let (mut w, task_id) = setup();
    let (admin, oracle, user) = (w.admin, w.oracle, w.user);
    ok(w.submit(oracle, user, task_id, "QmResReject"));
    ok(w.dispute(admin, user, task_id));
    ok(w.resolve(admin, user, task_id, false, 0));
    assert_eq!(w.verification(task_id, user).status, VerificationStatus::Rejected);
}

#[test]
#[should_panic(expected = "engine: verification is not disputed")]
fn test_resolve_non_disputed_fails() {
    let (mut w, task_id) = setup();
    let (admin, oracle, user) = (w.admin, w.oracle, w.user);
    ok(w.submit(oracle, user, task_id, "QmNotDisputed"));
    ok(w.resolve(admin, user, task_id, true, 1000));
}

#[test]
#[should_panic(expected = "engine: verification is not disputable")]
fn test_dispute_approved_fails() {
    let (mut w, task_id) = setup();
    let (admin, oracle, user) = (w.admin, w.oracle, w.user);
    ok(w.submit(oracle, user, task_id, "QmApproved"));
    ok(w.approve(oracle, user, task_id, 500));
    ok(w.dispute(admin, user, task_id));
}

#[test]
#[should_panic(expected = "engine: verification is not disputable")]
fn test_dispute_already_disputed_fails() {
    let (mut w, task_id) = setup();
    let (admin, oracle, user) = (w.admin, w.oracle, w.user);
    ok(w.submit(oracle, user, task_id, "QmAlreadyDisputed"));
    ok(w.dispute(admin, user, task_id));
    ok(w.dispute(admin, user, task_id));
}

#[test]
fn test_dispute_rejected_succeeds() {
    let (mut w, task_id) = setup();
    let (admin, oracle, user) = (w.admin, w.oracle, w.user);
    ok(w.submit(oracle, user, task_id, "QmRejectedDispute"));
    ok(w.reject(oracle, user, task_id));
    assert_eq!(w.verification(task_id, user).status, VerificationStatus::Rejected);
    ok(w.dispute(admin, user, task_id));
    assert_eq!(w.verification(task_id, user).status, VerificationStatus::Disputed);
}

#[test]
fn test_full_integration() {
    let mut w = World::new();
    let (oracle, user) = (w.oracle, w.user);
    let expires = w.e.timestamp + 10000;
    let task_id = w.create_task("tree-planting", 1000, 1, expires);
    ok(w.submit(oracle, user, task_id, "QmIntegration"));
    ok(w.approve(oracle, user, task_id, 1000));
    assert_eq!(w.token.balance(&w.e, user), 1000);
    assert!(w.registry.is_task_completed(&w.e, task_id, user));
}

#[test]
fn test_approve_at_exact_expiry_boundary() {
    let mut w = World::new();
    let (oracle, user) = (w.oracle, w.user);
    w.e.timestamp = 1000;
    let task_id = w.create_task("tree-planting", 1000, 1, 2000);
    w.e.timestamp = 2000;
    ok(w.submit(oracle, user, task_id, "QmBoundary"));
    ok(w.approve(oracle, user, task_id, 1000));
    assert_eq!(w.token.balance(&w.e, user), 1000);
    assert!(w.registry.is_task_completed(&w.e, task_id, user));
    w.e.timestamp = 2001;
    let user2 = Address(10);
    ok(w.submit(oracle, user2, task_id, "QmAfterExpiry"));
    let result = w.approve(oracle, user2, task_id, 1000);
    assert!(result.is_err());
}

#[test]
fn test_reward_range_enforced() {
    let (mut w, task_id) = setup();
    let (admin, oracle, user) = (w.admin, w.oracle, w.user);
    ok(w.engine.set_reward_range(&w.e, admin, 500, 2000));
    ok(w.submit(oracle, user, task_id, "QmRangeOk"));
    ok(w.approve(oracle, user, task_id, 1000));
    assert_eq!(w.verification(task_id, user).reward_amount, 1000);
}

#[test]
#[should_panic(expected = "engine: reward below minimum")]
fn test_reward_below_minimum() {
    let (mut w, task_id) = setup();
    let (admin, oracle, user) = (w.admin, w.oracle, w.user);
    ok(w.engine.set_reward_range(&w.e, admin, 500, 2000));
    ok(w.submit(oracle, user, task_id, "QmTooLow"));
    ok(w.approve(oracle, user, task_id, 100));
}

#[test]
#[should_panic(expected = "engine: reward exceeds maximum")]
fn test_reward_above_maximum() {
    let (mut w, task_id) = setup();
    let (admin, oracle, user) = (w.admin, w.oracle, w.user);
    ok(w.engine.set_reward_range(&w.e, admin, 500, 2000));
    ok(w.submit(oracle, user, task_id, "QmTooHigh"));
    ok(w.approve(oracle, user, task_id, 9999));
}

#[test]
#[should_panic(expected = "engine: max reward must be >= min reward")]
fn test_set_invalid_reward_range() {
    let (mut w, _task_id) = setup();
    let admin = w.admin;
    ok(w.engine.set_reward_range(&w.e, admin, 2000, 500));
}

#[test]
fn test_get_pending_verifications() {
    let (mut w, task_id) = setup();
    let (oracle, user) = (w.oracle, w.user);
    ok(w.submit(oracle, user, task_id, "QmPending1"));
    assert_eq!(w.pending().len(), 1);
    ok(w.approve(oracle, user, task_id, 1000));
    assert_eq!(w.pending().len(), 0);
}

#[test]
fn test_get_pending_verifications_multiple() {
    let (mut w, task_id) = setup();
    let (oracle, user1) = (w.oracle, w.user);
    let user2 = Address(10);
    ok(w.submit(oracle, user1, task_id, "QmPend1"));
    ok(w.submit(oracle, user2, task_id, "QmPend2"));
    assert_eq!(w.pending().len(), 2);
}

#[test]
fn test_resolved_not_in_pending_list() {
    let (mut w, task_id) = setup();
    let (admin, oracle, user1) = (w.admin, w.oracle, w.user);
    let (user2, user3) = (Address(10), Address(11));
    ok(w.submit(oracle, user1, task_id, "QmRes1"));
    assert_eq!(w.pending().len(), 1);
    ok(w.approve(oracle, user1, task_id, 1000));
    assert_eq!(w.pending().len(), 0);
    ok(w.submit(oracle, user2, task_id, "QmRes2"));
    assert_eq!(w.pending().len(), 1);
    ok(w.reject(oracle, user2, task_id));
    assert_eq!(w.pending().len(), 0);
    ok(w.submit(oracle, user3, task_id, "QmRes3"));
    assert_eq!(w.pending().len(), 1);
    ok(w.dispute(admin, user3, task_id));
    assert_eq!(w.pending().len(), 0);
}

#[test]
fn verification_test_transfer_admin() {
    let (mut w, _task_id) = setup();
    let admin = w.admin;
    let new_admin = Address(10);
    ok(w.engine.transfer_admin(&w.e, admin, new_admin));
    ok(w.engine.accept_admin(&w.e, new_admin));
    let new_oracle = Address(11);
    ok(w.engine.set_oracle(&w.e, new_admin, new_oracle));
}

#[test]
fn verification_test_propose_admin_overwrite() {
    let (mut w, _task_id) = setup();
    let admin = w.admin;
    let (first, second) = (Address(10), Address(11));
    ok(w.engine.propose_admin(&w.e, admin, first));
    ok(w.engine.propose_admin(&w.e, admin, second));
    ok(w.engine.accept_admin(&w.e, second));
    let new_oracle = Address(12);
    ok(w.engine.set_oracle(&w.e, second, new_oracle));
}

#[test]
#[should_panic(expected = "engine: unauthorized pending admin")]
fn verification_test_accept_admin_wrong_address() {
    let (mut w, _task_id) = setup();
    let admin = w.admin;
    ok(w.engine.propose_admin(&w.e, admin, Address(10)));
    ok(w.engine.accept_admin(&w.e, Address(11)));
}

#[test]
#[should_panic(expected = "engine: no pending admin")]
fn verification_test_accept_admin_without_proposal() {
    let (mut w, _task_id) = setup();
    ok(w.engine.accept_admin(&w.e, Address(10)));
}

#[test]
#[should_panic(expected = "engine: unauthorized")]
fn verification_test_transfer_admin_unauthorized() {
    let (mut w, _task_id) = setup();
    let (attacker, new_admin) = (Address(10), Address(11));
    ok(w.engine.transfer_admin(&w.e, attacker, new_admin));
}

#[test]
#[should_panic(expected = "engine: new admin must be different")]
fn verification_test_transfer_admin_same_address() {
    let (mut w, _task_id) = setup();
    let admin = w.admin;
    ok(w.engine.transfer_admin(&w.e, admin, admin));
}

#[test]
fn test_set_token() {
    let (mut w, _task_id) = setup();
    let admin = w.admin;
    let new_token = Address(10);
    ok(w.engine.set_token(&w.e, admin, new_token));
}

#[test]
#[should_panic(expected = "engine: unauthorized")]
fn test_set_token_unauthorized() {
    let (mut w, _task_id) = setup();
    let (attacker, new_token) = (Address(10), Address(11));
    ok(w.engine.set_token(&w.e, attacker, new_token));
}

#[test]
fn test_set_registry() {
    let (mut w, _task_id) = setup();
    let admin = w.admin;
    let new_registry = Address(10);
    ok(w.engine.set_registry(&w.e, admin, new_registry));
}

#[test]
#[should_panic(expected = "engine: unauthorized")]
fn test_set_registry_unauthorized() {
    let (mut w, _task_id) = setup();
    let (attacker, new_registry) = (Address(10), Address(11));
    ok(w.engine.set_registry(&w.e, attacker, new_registry));
}

#[test]
#[should_panic(expected = "engine: reward exceeds task budget")]
fn test_approve_exceeds_task_budget() {
    let (mut w, task_id) = setup();
    let (oracle, user) = (w.oracle, w.user);
    ok(w.submit(oracle, user, task_id, "QmBudget"));
    ok(w.approve(oracle, user, task_id, 5000));
}

#[test]
#[should_panic(expected = "engine: task has expired")]
fn test_approve_expired_task_fails() {
    let mut w = World::new();
    let (oracle, user) = (w.oracle, w.user);
    let expires = w.e.timestamp + 100;
    let task_id = w.create_task("tree-planting", 1000, 1, expires);
    w.e.timestamp = w.e.timestamp + 200;
    ok(w.submit(oracle, user, task_id, "QmExpired"));
    ok(w.approve(oracle, user, task_id, 1000));
}

#[test]
#[should_panic(expected = "engine: task is not active")]
fn test_approve_cancelled_task_fails() {
    let mut w = World::new();
    let (admin, oracle, user) = (w.admin, w.oracle, w.user);
    let expires = w.e.timestamp + 10000;
    let task_id = w.create_task("tree-planting", 1000, 1, expires);
    w.registry.cancel_task(&w.e, admin, task_id).unwrap();
    ok(w.submit(oracle, user, task_id, "QmCancelled"));
    ok(w.approve(oracle, user, task_id, 1000));
}

#[test]
#[should_panic(expected = "engine: reward exceeds task budget")]
fn test_resolve_dispute_approve_over_budget() {
    let (mut w, task_id) = setup();
    let (admin, oracle, user) = (w.admin, w.oracle, w.user);
    ok(w.submit(oracle, user, task_id, "QmOverBudget"));
    ok(w.dispute(admin, user, task_id));
    ok(w.resolve(admin, user, task_id, true, 9999));
}

#[test]
fn test_total_paid_after_approve() {
    let (mut w, task_id) = setup();
    let (oracle, user) = (w.oracle, w.user);
    assert_eq!(w.engine.total_paid(&w.e), 0);
    ok(w.submit(oracle, user, task_id, "QmTotal1"));
    ok(w.approve(oracle, user, task_id, 1000));
    assert_eq!(w.engine.total_paid(&w.e), 1000);
}

#[test]
fn test_total_paid_after_dispute_resolve() {
    let (mut w, task_id) = setup();
    let (admin, oracle, user) = (w.admin, w.oracle, w.user);
    assert_eq!(w.engine.total_paid(&w.e), 0);
    ok(w.submit(oracle, user, task_id, "QmTotalDispute"));
    ok(w.dispute(admin, user, task_id));
    ok(w.resolve(admin, user, task_id, true, 1000));
    assert_eq!(w.engine.total_paid(&w.e), 1000);
}

#[test]
fn test_total_paid_unaffected_by_rejection() {
    let (mut w, task_id) = setup();
    let (oracle, user) = (w.oracle, w.user);
    ok(w.submit(oracle, user, task_id, "QmTotalRej"));
    ok(w.reject(oracle, user, task_id));
    assert_eq!(w.engine.total_paid(&w.e), 0);
}

#[test]
fn test_pause_blocks_submit_proof() {
    let (mut w, task_id) = setup();
    let (admin, oracle, user) = (w.admin, w.oracle, w.user);
    ok(w.engine.pause(&w.e, admin));
    assert!(w.engine.is_paused(&w.e));
    let result = w.submit(oracle, user, task_id, "QmPauseSubmit");
    assert!(result.is_err());
}

#[test]
fn test_pause_blocks_approve_proof() {
    let (mut w, task_id) = setup();
    let (admin, oracle, user) = (w.admin, w.oracle, w.user);
    ok(w.submit(oracle, user, task_id, "QmPauseApprove"));
    ok(w.engine.pause(&w.e, admin));
    let result = w.approve(oracle, user, task_id, 50);
    assert!(result.is_err());
}

#[test]
fn test_pause_blocks_dispute_proof() {
    let (mut w, task_id) = setup();
    let (admin, oracle, user) = (w.admin, w.oracle, w.user);
    ok(w.submit(oracle, user, task_id, "QmPauseDispute"));
    ok(w.engine.pause(&w.e, admin));
    let result = w.dispute(admin, user, task_id);
    assert!(result.is_err());
}

#[test]
fn test_pause_blocks_resolve_dispute() {
    let (mut w, task_id) = setup();
    let (admin, oracle, user) = (w.admin, w.oracle, w.user);
    ok(w.submit(oracle, user, task_id, "QmPauseResolve"));
    ok(w.dispute(admin, user, task_id));
    ok(w.engine.pause(&w.e, admin));
    let result = w.resolve(admin, user, task_id, true, 50);
    assert!(result.is_err());
}

#[test]
fn test_unpause_allows_operations() {
    let (mut w, task_id) = setup();
    let (admin, oracle, user) = (w.admin, w.oracle, w.user);
    ok(w.engine.pause(&w.e, admin));
    assert!(w.engine.is_paused(&w.e));
    ok(w.engine.unpause(&w.e, admin));
    assert!(!w.engine.is_paused(&w.e));
    ok(w.submit(oracle, user, task_id, "QmUnpause"));
    assert_eq!(w.verification(task_id, user).status, VerificationStatus::Pending);
}

#[test]
fn test_pause_unpause_only_admin() {
    let (mut w, _task_id) = setup();
    let someone = Address(10);
    let result = w.engine.pause(&w.e, someone);
    assert!(result.is_err());
    let result = w.engine.unpause(&w.e, someone);
    assert!(result.is_err());
}

#[test]
fn test_add_oracle_and_submit() {
    let (mut w, task_id) = setup();
    let (admin, oracle, user) = (w.admin, w.oracle, w.user);
    let second_oracle = Address(10);
    ok(w.engine.add_oracle(&w.e, admin, second_oracle));
    assert_eq!(w.engine.get_oracles(&w.e).len(), 2);
    assert!(w.engine.is_oracle(&w.e, oracle));
    assert!(w.engine.is_oracle(&w.e, second_oracle));
    ok(w.submit(second_oracle, user, task_id, "QmSecondOracle"));
    ok(w.approve(second_oracle, user, task_id, 1000));
    let v = w.verification(task_id, user);
    assert_eq!(v.status, VerificationStatus::Approved);
    assert_eq!(v.oracle, second_oracle);
}

#[test]
#[should_panic(expected = "engine: oracle already registered")]
fn test_add_duplicate_oracle_fails() {
    let (mut w, _task_id) = setup();
    let (admin, oracle) = (w.admin, w.oracle);
    ok(w.engine.add_oracle(&w.e, admin, oracle));
}

#[test]
#[should_panic(expected = "engine: oracle must be different from admin")]
fn test_add_admin_as_oracle_fails() {
    let (mut w, _task_id) = setup();
    let admin = w.admin;
    ok(w.engine.add_oracle(&w.e, admin, admin));
}

#[test]
#[should_panic(expected = "engine: unauthorized")]
fn test_add_oracle_non_admin_fails() {
    let (mut w, _task_id) = setup();
    let (attacker, second_oracle) = (Address(10), Address(11));
    ok(w.engine.add_oracle(&w.e, attacker, second_oracle));
}

#[test]
fn test_remove_oracle_revokes_access() {
    let (mut w, task_id) = setup();
    let (admin, oracle, user) = (w.admin, w.oracle, w.user);
    let second_oracle = Address(10);
    ok(w.engine.add_oracle(&w.e, admin, second_oracle));
    assert!(w.engine.is_oracle(&w.e, second_oracle));
    ok(w.engine.remove_oracle(&w.e, admin, second_oracle));
    assert!(!w.engine.is_oracle(&w.e, second_oracle));
    assert_eq!(w.engine.get_oracles(&w.e).len(), 1);
    let result = w.submit(second_oracle, user, task_id, "QmRemovedOracle");
    assert!(result.is_err());
    ok(w.submit(oracle, user, task_id, "QmOriginal"));
}

#[test]
#[should_panic(expected = "engine: cannot remove the last oracle")]
fn test_remove_last_oracle_fails() {
    let (mut w, _task_id) = setup();
    let (admin, oracle) = (w.admin, w.oracle);
    ok(w.engine.remove_oracle(&w.e, admin, oracle));
}

#[test]
#[should_panic(expected = "engine: oracle not registered")]
fn test_remove_unregistered_oracle_fails() {
    let (mut w, _task_id) = setup();
    let admin = w.admin;
    let stranger = Address(10);
    ok(w.engine.remove_oracle(&w.e, admin, stranger));
}

#[test]
fn test_get_pending_verifications_paged() {
    let (mut w, task_id) = setup();
    let (oracle, user1) = (w.oracle, w.user);
    let (user2, user3) = (Address(10), Address(11));
    ok(w.submit(oracle, user1, task_id, "QmPage1"));
    ok(w.submit(oracle, user2, task_id, "QmPage2"));
    ok(w.submit(oracle, user3, task_id, "QmPage3"));
    let page0 = w.paged(0, 2);
    assert_eq!(page0.len(), 2);
    assert_eq!(page0[0].seq, 1);
    assert_eq!(page0[1].seq, 2);
    let page1 = w.paged(2, 2);
    assert_eq!(page1.len(), 1);
    assert_eq!(page1[0].seq, 3);
    let page2 = w.paged(10, 2);
    assert_eq!(page2.len(), 0);
}

#[test]
fn test_get_pending_verifications_paged_skips_resolved() {
    let (mut w, task_id) = setup();
    let (oracle, user1) = (w.oracle, w.user);
    let user2 = Address(10);
    ok(w.submit(oracle, user1, task_id, "QmResolved1"));
    ok(w.approve(oracle, user1, task_id, 1000));
    ok(w.submit(oracle, user2, task_id, "QmStillPending"));
    let page = w.paged(0, 10);
    assert_eq!(page.len(), 1);
    assert_eq!(page[0].user, user2);
}

#[test]
fn test_pending_list_removal_surgery_preserves_pagination() {
    let (mut w, task_id) = setup();
    let (oracle, user1) = (w.oracle, w.user);
    let (user2, user3, user4) = (Address(10), Address(11), Address(12));
    ok(w.submit(oracle, user1, task_id, "QmSurgery1"));
    ok(w.submit(oracle, user2, task_id, "QmSurgery2"));
    ok(w.submit(oracle, user3, task_id, "QmSurgery3"));
    ok(w.submit(oracle, user4, task_id, "QmSurgery4"));
    ok(w.reject(oracle, user2, task_id));
    ok(w.reject(oracle, user4, task_id));
    let pending = w.pending();
    assert_eq!(pending.len(), 2);
    assert_eq!(pending[0].user, user1);
    assert_eq!(pending[1].user, user3);
    let page = w.paged(1, 5);
    assert_eq!(page.len(), 1);
    assert_eq!(page[0].user, user3);
}

#[test]
fn test_pagination_stable_across_resolutions() {
    let (mut w, task_id) = setup();
    let (admin, oracle, user1) = (w.admin, w.oracle, w.user);
    let users = [user1, Address(10), Address(11), Address(12), Address(13), Address(14)];
    let cids = ["QmStable0", "QmStable1", "QmStable2", "QmStable3", "QmStable4", "QmStable5"];
    for (i, user) in users.iter().enumerate() {
        ok(w.submit(oracle, *user, task_id, cids[i]));
    }
    let page0 = w.paged(0, 2);
    assert_eq!(page0.len(), 2);
    assert_eq!(page0[0].seq, 1);
    assert_eq!(page0[1].seq, 2);
    let mut cursor = page0[1].seq;
    ok(w.reject(oracle, users[2], task_id));
    ok(w.dispute(admin, users[5], task_id));
    let page1 = w.paged(cursor, 2);
    assert_eq!(page1.len(), 2);
    assert_eq!(page1[0].seq, 4);
    assert_eq!(page1[1].seq, 5);
    cursor = page1[1].seq;
    let page2 = w.paged(cursor, 2);
    assert_eq!(page2.len(), 0);
    let pending = w.pending();
    assert_eq!(pending.len(), 4);
    assert_eq!(pending[0].seq, 1);
    assert_eq!(pending[1].seq, 2);
    assert_eq!(pending[2].seq, 4);
    assert_eq!(pending[3].seq, 5);
}

#[test]
fn test_get_verifications_by_user() {
    let mut w = World::new();
    let (oracle, user) = (w.oracle, w.user);
    let expires = w.e.timestamp + 10000;
    let first_task = w.create_task("tree-planting", 1000, 1, expires);
    let second_task = w.create_task("recycling", 500, 1, expires);
    ok(w.submit(oracle, user, first_task, "QmFirst"));
    ok(w.submit(oracle, user, second_task, "QmSecond"));
    let all = w.engine.get_verifications_by_user(&w.e, user, 0, 10);
    assert_eq!(all.len(), 2);
    assert_eq!(all[0].task_id, first_task);
    assert_eq!(all[1].task_id, second_task);
    let page0 = w.engine.get_verifications_by_user(&w.e, user, 0, 1);
    assert_eq!(page0.len(), 1);
    assert_eq!(page0[0].task_id, first_task);
    let page1 = w.engine.get_verifications_by_user(&w.e, user, 1, 1);
    assert_eq!(page1.len(), 1);
    assert_eq!(page1[0].task_id, second_task);
    let empty = w.engine.get_verifications_by_user(&w.e, user, 5, 2);
    assert_eq!(empty.len(), 0);
}

#[test]
fn test_verifications_by_user_empty_for_stranger() {
    let (w, _task_id) = setup();
    let stranger = Address(10);
    let result = w.engine.get_verifications_by_user(&w.e, stranger, 0, 10);
    assert_eq!(result.len(), 0);
}

/// Two tasks worth 1000 with one slot each, so the same user can be paid
/// twice.
fn setup_cooldown() -> (World, u64, u64) {
    let mut w = World::new();
    let expires_at = w.e.timestamp + 10000;
    let task1 = w.create_task("cooldown-task-one", 1000, 1, expires_at);
    let task2 = w.create_task("cooldown-task-two", 1000, 1, expires_at);
    (w, task1, task2)
}

#[test]
#[should_panic(expected = "engine: user cooldown active")]
fn test_cooldown_blocks_rapid_claims() {
    let (mut w, task1, task2) = setup_cooldown();
    let (admin, oracle, user) = (w.admin, w.oracle, w.user);
    ok(w.engine.set_user_cooldown(&w.e, admin, 10));
    ok(w.submit(oracle, user, task1, "QmCooldownBlock1"));
    ok(w.approve(oracle, user, task1, 500));
    ok(w.submit(oracle, user, task2, "QmCooldownBlock2"));
    ok(w.approve(oracle, user, task2, 500));
}

#[test]
fn test_cooldown_resets_after_interval() {
    let (mut w, task1, task2) = setup_cooldown();
    let (admin, oracle, user) = (w.admin, w.oracle, w.user);
    ok(w.engine.set_user_cooldown(&w.e, admin, 10));
    ok(w.submit(oracle, user, task1, "QmCooldownReset1"));
    ok(w.approve(oracle, user, task1, 500));
    w.e.sequence = w.e.sequence + 10;
    ok(w.submit(oracle, user, task2, "QmCooldownReset2"));
    ok(w.approve(oracle, user, task2, 500));
    assert_eq!(w.verification(task2, user).status, VerificationStatus::Approved);
}

#[test]
fn test_cooldown_zero_disabled() {
    let (mut w, task1, task2) = setup_cooldown();
    let (oracle, user) = (w.oracle, w.user);
    ok(w.submit(oracle, user, task1, "QmCooldownDisabled1"));
    ok(w.approve(oracle, user, task1, 500));
    ok(w.submit(oracle, user, task2, "QmCooldownDisabled2"));
    ok(w.approve(oracle, user, task2, 500));
    assert_eq!(w.verification(task2, user).status, VerificationStatus::Approved);
}

#[test]
#[should_panic(expected = "engine: proof cid must not be empty")]
fn test_submit_empty_cid_fails() {
    let (mut w, task_id) = setup();
    let (oracle, user) = (w.oracle, w.user);
    ok(w.submit(oracle, user, task_id, ""));
}

#[test]
#[should_panic(expected = "engine: proof cid too long")]
fn test_submit_oversized_cid_fails() {
    let (mut w, task_id) = setup();
    let (oracle, user) = (w.oracle, w.user);
    let long_cid = "a".repeat(129);
    ok(w.submit(oracle, user, task_id, &long_cid));
}

#[test]
fn cid_of_exactly_the_limit_is_accepted() {
    let (mut w, task_id) = setup();
    let (oracle, user) = (w.oracle, w.user);
    let cid = "b".repeat(128);
    ok(w.submit(oracle, user, task_id, &cid));
    assert_eq!(w.verification(task_id, user).proof_cid.len(), 128);
}

#[test]
fn same_user_and_task_cannot_submit_twice() {
    let (mut w, task_id) = setup();
    let (oracle, user) = (w.oracle, w.user);
    ok(w.submit(oracle, user, task_id, "QmOnce"));
    assert_eq!(w.submit(oracle, user, task_id, "QmTwice"), Err(EngineError::ProofAlreadySubmitted));
    assert_eq!(w.pending().len(), 1);
}

#[test]
fn reused_cid_reports_its_error_and_changes_nothing() {
    let (mut w, first_user, second_user, first_task, second_task) = setup_two_tasks();
    let oracle = w.oracle;
    ok(w.submit(oracle, first_user, first_task, "QmShared"));
    assert_eq!(w.submit(oracle, second_user, second_task, "QmShared"), Err(EngineError::ProofCidAlreadySubmitted));
    assert!(w.engine.get_verification(&w.e, second_task, second_user).is_err());
    let pending = w.pending();
    assert_eq!(pending.len(), 1);
    assert_eq!(pending[0].seq, 1);
}

#[test]
fn submission_records_the_proof_exactly() {
    let (mut w, task_id) = setup();
    let (oracle, user) = (w.oracle, w.user);
    w.e.timestamp = 4242;
    let event = ok(w.submit(oracle, user, task_id, "QmExact"));
    assert_eq!(event, ProofSubmittedEvent { oracle, user, task_id });
    let v = w.verification(task_id, user);
    assert_eq!(v.proof_cid, b"QmExact".to_vec());
    assert_eq!(v.reward_amount, 0);
    assert_eq!(v.status, VerificationStatus::Pending);
    assert_eq!(v.submitted_at, 4242);
    assert_eq!(v.resolved_at, None);
    assert_eq!(v.oracle, oracle);
    assert_eq!(v.seq, 1);
}

#[test]
fn different_cids_hash_differently() {
    let (mut w, first_user, second_user, first_task, second_task) = setup_two_tasks();
    let oracle = w.oracle;
    ok(w.submit(oracle, first_user, first_task, "QmAlpha"));
    ok(w.submit(oracle, second_user, second_task, "QmBeta"));
    let alpha = ok(w.engine.get_verification_by_cid_hash(&w.e, CidHash(host_sha256(b"QmAlpha"))));
    let beta = ok(w.engine.get_verification_by_cid_hash(&w.e, CidHash(host_sha256(b"QmBeta"))));
    assert_eq!(alpha.user, first_user);
    assert_eq!(beta.user, second_user);
    let raw = {
        let mut h = [0u8; 32];
        h[..7].copy_from_slice(b"QmAlpha");
        h
    };
    assert_eq!(w.engine.get_verification_by_cid_hash(&w.e, CidHash(raw)).err(), Some(EngineError::NotFound));
}

#[test]
fn failed_mint_leaves_registry_and_engine_untouched() {
    let (mut w, task_id) = setup();
    let (admin, oracle, user) = (w.admin, w.oracle, w.user);
    w.token.set_max_supply(&w.e, admin, 10).unwrap();
    ok(w.submit(oracle, user, task_id, "QmCapped"));
    let result = w.approve(oracle, user, task_id, 1000);
    assert_eq!(result, Err(EngineError::Token(ecotask_contracts::eco_token::token::TokenError::SupplyCapExceeded)));
    assert!(!w.registry.is_task_completed(&w.e, task_id, user));
    assert_eq!(w.verification(task_id, user).status, VerificationStatus::Pending);
    assert_eq!(w.engine.total_paid(&w.e), 0);
    assert_eq!(w.token.total_supply(&w.e), 0);
}

#[test]
fn payout_matches_minted_amount() {
    let (mut w, task_id) = setup();
    let (oracle, user) = (w.oracle, w.user);
    ok(w.submit(oracle, user, task_id, "QmExactPay"));
    let event = ok(w.approve(oracle, user, task_id, 750));
    assert_eq!(event, RewardPaidEvent { oracle, user, task_id, amount: 750 });
    assert_eq!(w.token.total_supply(&w.e), 750);
    assert_eq!(w.token.balance(&w.e, user), 750);
    assert_eq!(w.engine.total_paid(&w.e), 750);
}

#[test]
fn rejected_dispute_reports_zero_reward() {
    let (mut w, task_id) = setup();
    let (admin, oracle, user) = (w.admin, w.oracle, w.user);
    ok(w.submit(oracle, user, task_id, "QmZero"));
    ok(w.dispute(admin, user, task_id));
    let event = ok(w.resolve(admin, user, task_id, false, 700));
    assert_eq!(event, DisputeResolvedEvent { user, task_id, approved: false, reward_amount: 0 });
    assert_eq!(w.token.total_supply(&w.e), 0);
}

#[test]
fn unauthorized_signer_cannot_submit() {
    let (mut w, task_id) = setup();
    let (oracle, user) = (w.oracle, w.user);
    w.e.mock_all_auths = false;
    w.e.signers = vec![user];
    assert_eq!(w.submit(oracle, user, task_id, "QmNoAuth"), Err(EngineError::NotAuthorized));
    w.e.signers = vec![oracle];
    ok(w.submit(oracle, user, task_id, "QmNoAuth"));
}

#[test]
fn oracle_cannot_become_admin() {
    let (mut w, _task_id) = setup();
    let (admin, oracle) = (w.admin, w.oracle);
    ok(w.engine.propose_admin(&w.e, admin, oracle));
    assert_eq!(w.engine.accept_admin(&w.e, oracle).err(), Some(EngineError::OracleMustDifferFromAdmin));
    ok(w.engine.set_oracle(&w.e, admin, Address(10)));
    ok(w.engine.accept_admin(&w.e, oracle));
    assert!(!w.engine.is_oracle(&w.e, oracle));
}

#[test]
fn huge_cid_is_refused_before_hashing() {
    let (mut w, task_id) = setup();
    let (oracle, user) = (w.oracle, w.user);
    let huge = "c".repeat(4_000_000);
    assert_eq!(w.submit(oracle, user, task_id, &huge), Err(EngineError::ProofCidTooLong));
    assert_eq!(w.pending().len(), 0);
}

#[test]
fn total_paid_is_sum_of_approved_rewards() {
    let mut w = World::new();
    let (admin, oracle) = (w.admin, w.oracle);
    let expires = w.e.timestamp + 10000;
    let task_id = w.create_task("tree-planting", 1000, 3, expires);
    ok(w.submit(oracle, Address(10), task_id, "QmSumA"));
    ok(w.submit(oracle, Address(11), task_id, "QmSumB"));
    ok(w.submit(oracle, Address(12), task_id, "QmSumC"));
    ok(w.approve(oracle, Address(10), task_id, 300));
    ok(w.reject(oracle, Address(11), task_id));
    ok(w.dispute(admin, Address(12), task_id));
    ok(w.resolve(admin, Address(12), task_id, true, 450));
    let approved: i128 = [Address(10), Address(11), Address(12)]
        .iter()
        .map(|u| w.verification(task_id, *u))
        .filter(|v| v.status == VerificationStatus::Approved)
        .map(|v| v.reward_amount)
        .sum();
    assert_eq!(approved, 750);
    assert_eq!(w.engine.total_paid(&w.e), approved);
    assert_eq!(w.token.total_supply(&w.e), 750);
}
