//! The engine's entry points.
use vstd::prelude::*;
use crate::ecotask_types::{Task, TaskStatus};
use crate::env::{Address, Env};
use crate::eco_token::storage::TokenState;
use crate::eco_token::token::{mint_by_minter, TokenContract, TokenError};
use crate::reward_engine::storage::{
    self, without, CidHash, EngineState, EngineStorage, Verification, VerificationKey,
    VerificationStatus, VerificationView,
};
use crate::task_registry::registry::{complete_task_by, RegistryContract, RegistryError};
use crate::task_registry::storage::RegistryState;

verus! {

/// The longest proof CID accepted, in bytes (a CIDv1 with its multihash).
pub const MAX_CID_LEN: usize = 128;

/// Why an engine call fails. A failed call changes nothing, in the engine
/// or in the registry and token it calls.
#[derive(Clone, Copy, PartialEq, Eq, Structural, Debug)]
pub enum EngineError {
    /// An address that had to authorize the call did not.
    NotAuthorized,
    AlreadyInitialized,
    OracleMustDifferFromAdmin,
    Unauthorized,
    OracleAlreadyRegistered,
    OracleNotRegistered,
    CannotRemoveLastOracle,
    MinRewardMustBePositive,
    MaxRewardBelowMin,
    Paused,
    ProofCidEmpty,
    ProofCidTooLong,
    ProofAlreadySubmitted,
    ProofCidAlreadySubmitted,
    VerificationNotFound,
    VerificationNotPending,
    VerificationNotDisputable,
    VerificationNotDisputed,
    RewardMustBePositive,
    RewardBelowMinimum,
    RewardExceedsMaximum,
    TaskNotActive,
    TaskExpired,
    RewardExceedsTaskBudget,
    TaskMaxCompletionsReached,
    CooldownActive,
    TotalPaidOverflow,
    NotFound,
    NewAdminMustBeDifferent,
    NoPendingAdmin,
    UnauthorizedPendingAdmin,
    /// The registry refused the call the engine made into it.
    Registry(RegistryError),
    /// The token refused the call the engine made into it.
    Token(TokenError),
}

impl EngineError {
    pub open spec fn spec_message(self) -> Seq<char> {
        match self {
            EngineError::NotAuthorized => "Error(Auth, InvalidAction)"@,
            EngineError::AlreadyInitialized => "engine: already initialized"@,
            EngineError::OracleMustDifferFromAdmin => "engine: oracle must be different from admin"@,
            EngineError::Unauthorized => "engine: unauthorized"@,
            EngineError::OracleAlreadyRegistered => "engine: oracle already registered"@,
            EngineError::OracleNotRegistered => "engine: oracle not registered"@,
            EngineError::CannotRemoveLastOracle => "engine: cannot remove the last oracle"@,
            EngineError::MinRewardMustBePositive => "engine: min reward must be positive"@,
            EngineError::MaxRewardBelowMin => "engine: max reward must be >= min reward"@,
            EngineError::Paused => "engine: contract is paused"@,
            EngineError::ProofCidEmpty => "engine: proof cid must not be empty"@,
            EngineError::ProofCidTooLong => "engine: proof cid too long"@,
            EngineError::ProofAlreadySubmitted => "engine: proof already submitted"@,
            EngineError::ProofCidAlreadySubmitted => "engine: proof cid already submitted"@,
            EngineError::VerificationNotFound => "engine: verification not found"@,
            EngineError::VerificationNotPending => "engine: verification is not pending"@,
            EngineError::VerificationNotDisputable => "engine: verification is not disputable"@,
            EngineError::VerificationNotDisputed => "engine: verification is not disputed"@,
            EngineError::RewardMustBePositive => "engine: reward amount must be positive"@,
            EngineError::RewardBelowMinimum => "engine: reward below minimum"@,
            EngineError::RewardExceedsMaximum => "engine: reward exceeds maximum"@,
            EngineError::TaskNotActive => "engine: task is not active"@,
            EngineError::TaskExpired => "engine: task has expired"@,
            EngineError::RewardExceedsTaskBudget => "engine: reward exceeds task budget"@,
            EngineError::TaskMaxCompletionsReached => "engine: task max completions reached"@,
            EngineError::CooldownActive => "engine: user cooldown active"@,
            EngineError::TotalPaidOverflow => "total_paid overflow"@,
            EngineError::NotFound => "engine: not found"@,
            EngineError::NewAdminMustBeDifferent => "engine: new admin must be different"@,
            EngineError::NoPendingAdmin => "engine: no pending admin"@,
            EngineError::UnauthorizedPendingAdmin => "engine: unauthorized pending admin"@,
            EngineError::Registry(err) => err.spec_message(),
            EngineError::Token(err) => err.spec_message(),
        }
    }

    /// The message the failure is reported with.
    pub fn message(&self) -> (r: &'static str)
        ensures
            r@ == self.spec_message(),
    {
        match self {
            EngineError::NotAuthorized => "Error(Auth, InvalidAction)",
            EngineError::AlreadyInitialized => "engine: already initialized",
            EngineError::OracleMustDifferFromAdmin => "engine: oracle must be different from admin",
            EngineError::Unauthorized => "engine: unauthorized",
            EngineError::OracleAlreadyRegistered => "engine: oracle already registered",
            EngineError::OracleNotRegistered => "engine: oracle not registered",
            EngineError::CannotRemoveLastOracle => "engine: cannot remove the last oracle",
            EngineError::MinRewardMustBePositive => "engine: min reward must be positive",
            EngineError::MaxRewardBelowMin => "engine: max reward must be >= min reward",
            EngineError::Paused => "engine: contract is paused",
            EngineError::ProofCidEmpty => "engine: proof cid must not be empty",
            EngineError::ProofCidTooLong => "engine: proof cid too long",
            EngineError::ProofAlreadySubmitted => "engine: proof already submitted",
            EngineError::ProofCidAlreadySubmitted => "engine: proof cid already submitted",
            EngineError::VerificationNotFound => "engine: verification not found",
            EngineError::VerificationNotPending => "engine: verification is not pending",
            EngineError::VerificationNotDisputable => "engine: verification is not disputable",
            EngineError::VerificationNotDisputed => "engine: verification is not disputed",
            EngineError::RewardMustBePositive => "engine: reward amount must be positive",
            EngineError::RewardBelowMinimum => "engine: reward below minimum",
            EngineError::RewardExceedsMaximum => "engine: reward exceeds maximum",
            EngineError::TaskNotActive => "engine: task is not active",
            EngineError::TaskExpired => "engine: task has expired",
            EngineError::RewardExceedsTaskBudget => "engine: reward exceeds task budget",
            EngineError::TaskMaxCompletionsReached => "engine: task max completions reached",
            EngineError::CooldownActive => "engine: user cooldown active",
            EngineError::TotalPaidOverflow => "total_paid overflow",
            EngineError::NotFound => "engine: not found",
            EngineError::NewAdminMustBeDifferent => "engine: new admin must be different",
            EngineError::NoPendingAdmin => "engine: no pending admin",
            EngineError::UnauthorizedPendingAdmin => "engine: unauthorized pending admin",
            EngineError::Registry(err) => err.message(),
            EngineError::Token(err) => err.message(),
        }
    }
}

#[derive(Clone, Copy, PartialEq, Eq, Debug)]
pub struct ProofSubmittedEvent {
    pub oracle: Address,
    pub user: Address,
    pub task_id: u64,
}

#[derive(Clone, Copy, PartialEq, Eq, Debug)]
pub struct RewardPaidEvent {
    pub oracle: Address,
    pub user: Address,
    pub task_id: u64,
    pub amount: i128,
}

#[derive(Clone, Copy, PartialEq, Eq, Debug)]
pub struct ProofRejectedEvent {
    pub oracle: Address,
    pub user: Address,
    pub task_id: u64,
}

#[derive(Clone, Copy, PartialEq, Eq, Debug)]
pub struct DisputeRaisedEvent {
    pub user: Address,
    pub task_id: u64,
}

#[derive(Clone, Copy, PartialEq, Eq, Debug)]
pub struct DisputeResolvedEvent {
    pub user: Address,
    pub task_id: u64,
    pub approved: bool,
    /// The amount paid; 0 when the dispute is rejected.
    pub reward_amount: i128,
}

#[derive(Clone, Copy, PartialEq, Eq, Debug)]
pub struct OracleAddedEvent {
    pub oracle: Address,
}

#[derive(Clone, Copy, PartialEq, Eq, Debug)]
pub struct OracleRemovedEvent {
    pub oracle: Address,
}

#[derive(Clone, Copy, PartialEq, Eq, Debug)]
pub struct AdminProposedEvent {
    pub current_admin: Address,
    pub proposed_admin: Address,
}

#[derive(Clone, Copy, PartialEq, Eq, Debug)]
pub struct AdminAcceptedEvent {
    pub new_admin: Address,
}

// ---------------------------------------------------------------------------
// What the engine keeps true of its state.
// ---------------------------------------------------------------------------

/// The engine's bookkeeping agrees with itself: the pending list holds
/// exactly the pending verifications, oldest sequence number first; every
/// verification is filed under its own task and user and carries a sequence
/// number already handed out; the oracle roster has no repeats and, once the
/// engine is initialized, at least one member and the addresses of the
/// token and the registry, and the admin is never an oracle. Before
/// initialization nobody can be proposed as admin.
pub open spec fn engine_valid(s: EngineState) -> bool {
    &&& s.pending.no_duplicates()
    &&& s.pending.len() <= s.verification_seq
    &&& forall|k: VerificationKey| #[trigger]
        s.pending.contains(k) <==> (s.verifications.contains_key(k)
            && s.verifications[k].status == VerificationStatus::Pending)
    &&& forall|k: VerificationKey| #[trigger]
        s.verifications.contains_key(k) ==> {
            &&& s.verifications[k].task_id == k.task_id
            &&& s.verifications[k].user == k.user
            &&& 1 <= s.verifications[k].seq <= s.verification_seq
        }
    &&& forall|i: int, j: int|
        0 <= i < j < s.pending.len() ==> s.verifications[#[trigger] s.pending[i]].seq
            < s.verifications[#[trigger] s.pending[j]].seq
    &&& s.oracles.no_duplicates()
    &&& s.admin is Some ==> s.token is Some && s.registry is Some && s.oracles.len() >= 1
    &&& s.admin is None ==> s.oracles.len() == 0 && s.pending_admin is None
    &&& s.admin matches Some(admin) ==> !s.oracles.contains(admin)
}

// ---------------------------------------------------------------------------
// What each entry point does to the engine's state, and what it returns.
// ---------------------------------------------------------------------------

/// Proof operations need an unpaused engine and a registered oracle that
/// authorizes the call.
pub open spec fn oracle_check(s: EngineState, e: Env, oracle: Address) -> Option<EngineError> {
    if s.paused {
        Some(EngineError::Paused)
    } else if !e.authorizes(oracle) {
        Some(EngineError::NotAuthorized)
    } else if !s.oracles.contains(oracle) {
        Some(EngineError::Unauthorized)
    } else {
        None
    }
}

/// Admin operations need the admin to authorize the call.
pub open spec fn admin_check(s: EngineState, e: Env, caller: Address) -> Option<EngineError> {
    if !e.authorizes(caller) {
        Some(EngineError::NotAuthorized)
    } else if caller != s.admin.unwrap() {
        Some(EngineError::Unauthorized)
    } else {
        None
    }
}

/// An admin-only setter: `next` if the admin authorized the call.
pub open spec fn admin_set_step(s: EngineState, e: Env, caller: Address, next: EngineState) -> (
    EngineState,
    Result<(), EngineError>,
) {
    match admin_check(s, e, caller) {
        Some(err) => (s, Err(err)),
        None => (next, Ok(())),
    }
}

pub open spec fn initialize_step(
    s: EngineState,
    admin: Address,
    token: Address,
    registry: Address,
    oracle: Address,
) -> (EngineState, Result<(), EngineError>) {
    if s.admin is Some {
        (s, Err(EngineError::AlreadyInitialized))
    } else if admin == oracle {
        (s, Err(EngineError::OracleMustDifferFromAdmin))
    } else {
        (
            EngineState {
                admin: Some(admin),
                token: Some(token),
                registry: Some(registry),
                oracles: seq![oracle],
                ..s
            },
            Ok(()),
        )
    }
}

/// Replaces the roster by `new_oracle`, which must not be the caller.
pub open spec fn set_oracle_step(s: EngineState, e: Env, caller: Address, new_oracle: Address) -> (
    EngineState,
    Result<(), EngineError>,
) {
    match admin_check(s, e, caller) {
        Some(err) => (s, Err(err)),
        None => if new_oracle == caller {
            (s, Err(EngineError::OracleMustDifferFromAdmin))
        } else {
            (EngineState { oracles: seq![new_oracle], ..s }, Ok(()))
        },
    }
}

pub open spec fn add_oracle_step(s: EngineState, e: Env, caller: Address, new_oracle: Address) -> (
    EngineState,
    Result<OracleAddedEvent, EngineError>,
) {
    match admin_check(s, e, caller) {
        Some(err) => (s, Err(err)),
        None => if new_oracle == s.admin.unwrap() {
            (s, Err(EngineError::OracleMustDifferFromAdmin))
        } else if s.oracles.contains(new_oracle) {
            (s, Err(EngineError::OracleAlreadyRegistered))
        } else {
            (
                EngineState { oracles: s.oracles.push(new_oracle), ..s },
                Ok(OracleAddedEvent { oracle: new_oracle }),
            )
        },
    }
}

/// The last oracle stays.
pub open spec fn remove_oracle_step(s: EngineState, e: Env, caller: Address, oracle: Address) -> (
    EngineState,
    Result<OracleRemovedEvent, EngineError>,
) {
    match admin_check(s, e, caller) {
        Some(err) => (s, Err(err)),
        None => if !s.oracles.contains(oracle) {
            (s, Err(EngineError::OracleNotRegistered))
        } else if s.oracles.len() <= 1 {
            (s, Err(EngineError::CannotRemoveLastOracle))
        } else {
            (
                EngineState { oracles: without(s.oracles, oracle), ..s },
                Ok(OracleRemovedEvent { oracle }),
            )
        },
    }
}

pub open spec fn set_reward_range_step(
    s: EngineState,
    e: Env,
    caller: Address,
    min_reward: i128,
    max_reward: i128,
) -> (EngineState, Result<(), EngineError>) {
    match admin_check(s, e, caller) {
        Some(err) => (s, Err(err)),
        None => if min_reward <= 0 {
            (s, Err(EngineError::MinRewardMustBePositive))
        } else if max_reward < min_reward {
            (s, Err(EngineError::MaxRewardBelowMin))
        } else {
            (EngineState { min_reward: Some(min_reward), max_reward: Some(max_reward), ..s }, Ok(()))
        },
    }
}

/// The verification that `submit_proof` records.
pub open spec fn submitted(
    s: EngineState,
    e: Env,
    oracle: Address,
    user: Address,
    task_id: u64,
    cid: Seq<u8>,
) -> VerificationView {
    VerificationView {
        task_id,
        user,
        proof_cid: cid,
        reward_amount: 0,
        status: VerificationStatus::Pending,
        submitted_at: e.timestamp,
        resolved_at: None,
        oracle,
        seq: (s.verification_seq + 1) as u64,
    }
}

/// The checks `submit_proof` makes before it hashes the CID: an unpaused
/// engine, a registered oracle that authorizes the call, a CID of 1 to
/// `MAX_CID_LEN` bytes, and no verification yet for the task and user.
pub open spec fn submit_precheck(
    s: EngineState,
    e: Env,
    oracle: Address,
    user: Address,
    task_id: u64,
    cid: Seq<u8>,
) -> Option<EngineError> {
    match oracle_check(s, e, oracle) {
        Some(err) => Some(err),
        None => if cid.len() == 0 {
            Some(EngineError::ProofCidEmpty)
        } else if cid.len() > MAX_CID_LEN {
            Some(EngineError::ProofCidTooLong)
        } else if s.verifications.contains_key(VerificationKey { task_id, user }) {
            Some(EngineError::ProofAlreadySubmitted)
        } else {
            None
        },
    }
}

/// A proof is recorded once per task and user, and a CID, known by its hash
/// `cid_hash`, once overall.
pub open spec fn submit_proof_step(
    s: EngineState,
    e: Env,
    oracle: Address,
    user: Address,
    task_id: u64,
    cid: Seq<u8>,
    cid_hash: CidHash,
) -> (EngineState, Result<ProofSubmittedEvent, EngineError>) {
    let key = VerificationKey { task_id, user };
    match submit_precheck(s, e, oracle, user, task_id, cid) {
        Some(err) => (s, Err(err)),
        None => if s.cid_index.contains_key(cid_hash) {
            (s, Err(EngineError::ProofCidAlreadySubmitted))
        } else {
            (
                EngineState {
                    verifications: s.verifications.insert(
                        key,
                        submitted(s, e, oracle, user, task_id, cid),
                    ),
                    cid_index: s.cid_index.insert(cid_hash, key),
                    pending: s.pending.push(key),
                    user_verifications: s.user_verifications.insert(
                        user,
                        s.history_of(user).push(task_id),
                    ),
                    verification_seq: (s.verification_seq + 1) as u64,
                    ..s
                },
                Ok(ProofSubmittedEvent { oracle, user, task_id }),
            )
        },
    }
}

/// Whether `user` was rewarded fewer than the cooldown's ledgers ago.
pub open spec fn cooldown_active(s: EngineState, e: Env, user: Address) -> bool {
    let last = s.last_reward_ledger[user];
    &&& s.user_cooldown != 0
    &&& s.last_reward_ledger.contains_key(user)
    &&& (if e.sequence >= last {
        e.sequence - last
    } else {
        0
    }) < s.user_cooldown
}

/// Pays `reward_amount` to `user` for task `task_id` and marks the
/// verification approved. Every check runs first: the engine's reward
/// bounds, the task as the registry stores it, the user's cooldown, then the
/// registry's completion and the token's mint as the engine `engine` would
/// call them, and the engine's running total. Only when all pass do the
/// registry, the token and the engine change.
pub open spec fn payout_step(
    s: EngineState,
    reg: RegistryState,
    tok: TokenState,
    e: Env,
    engine: Address,
    user: Address,
    task_id: u64,
    reward_amount: i128,
) -> (EngineState, RegistryState, TokenState, Result<(), EngineError>) {
    let key = VerificationKey { task_id, user };
    let task = reg.tasks[task_id];
    let minter = tok.minter.unwrap();
    let completed = complete_task_by(reg, e.timestamp, engine, task_id, user);
    let minted = mint_by_minter(tok, user, reward_amount);
    let fail = |err: EngineError| (s, reg, tok, Err(err));
    if reward_amount <= 0 {
        fail(EngineError::RewardMustBePositive)
    } else if s.min_reward is Some && reward_amount < s.min_reward.unwrap() {
        fail(EngineError::RewardBelowMinimum)
    } else if s.max_reward is Some && reward_amount > s.max_reward.unwrap() {
        fail(EngineError::RewardExceedsMaximum)
    } else if !reg.tasks.contains_key(task_id) {
        fail(EngineError::Registry(RegistryError::TaskNotFound))
    } else if task.status != TaskStatus::Active {
        fail(EngineError::TaskNotActive)
    } else if task.expires_at < e.timestamp {
        fail(EngineError::TaskExpired)
    } else if reward_amount > task.reward_amount {
        fail(EngineError::RewardExceedsTaskBudget)
    } else if task.completions >= task.max_completions {
        fail(EngineError::TaskMaxCompletionsReached)
    } else if cooldown_active(s, e, user) {
        fail(EngineError::CooldownActive)
    } else if completed.1 is Err {
        fail(EngineError::Registry(completed.1->Err_0))
    } else if !(e.authorizes(minter) || minter == engine) {
        fail(EngineError::Token(TokenError::NotAuthorized))
    } else if minted.1 is Err {
        fail(EngineError::Token(minted.1->Err_0))
    } else if s.total_paid + reward_amount > i128::MAX {
        fail(EngineError::TotalPaidOverflow)
    } else {
        (
            EngineState {
                verifications: s.verifications.insert(
                    key,
                    VerificationView {
                        status: VerificationStatus::Approved,
                        reward_amount,
                        resolved_at: Some(e.timestamp),
                        ..s.verifications[key]
                    },
                ),
                pending: s.pending.remove_value(key),
                total_paid: (s.total_paid + reward_amount) as i128,
                last_reward_ledger: s.last_reward_ledger.insert(user, e.sequence as u64),
                ..s
            },
            completed.0,
            minted.0,
            Ok(()),
        )
    }
}

/// A registered oracle approves a pending proof and the reward is paid.
pub open spec fn approve_proof_step(
    s: EngineState,
    reg: RegistryState,
    tok: TokenState,
    e: Env,
    engine: Address,
    oracle: Address,
    user: Address,
    task_id: u64,
    reward_amount: i128,
) -> (EngineState, RegistryState, TokenState, Result<RewardPaidEvent, EngineError>) {
    let key = VerificationKey { task_id, user };
    let paid = payout_step(s, reg, tok, e, engine, user, task_id, reward_amount);
    match oracle_check(s, e, oracle) {
        Some(err) => (s, reg, tok, Err(err)),
        None => if !s.verifications.contains_key(key) {
            (s, reg, tok, Err(EngineError::VerificationNotFound))
        } else if s.verifications[key].status != VerificationStatus::Pending {
            (s, reg, tok, Err(EngineError::VerificationNotPending))
        } else {
            match paid.3 {
                Ok(_) => (
                    paid.0,
                    paid.1,
                    paid.2,
                    Ok(RewardPaidEvent { oracle, user, task_id, amount: reward_amount }),
                ),
                Err(err) => (s, reg, tok, Err(err)),
            }
        },
    }
}

/// A registered oracle rejects a pending proof; nothing is paid.
pub open spec fn reject_proof_step(s: EngineState, e: Env, oracle: Address, user: Address, task_id: u64) -> (
    EngineState,
    Result<ProofRejectedEvent, EngineError>,
) {
    let key = VerificationKey { task_id, user };
    match oracle_check(s, e, oracle) {
        Some(err) => (s, Err(err)),
        None => if !s.verifications.contains_key(key) {
            (s, Err(EngineError::VerificationNotFound))
        } else if s.verifications[key].status != VerificationStatus::Pending {
            (s, Err(EngineError::VerificationNotPending))
        } else {
            (
                EngineState {
                    verifications: s.verifications.insert(
                        key,
                        VerificationView {
                            status: VerificationStatus::Rejected,
                            resolved_at: Some(e.timestamp),
                            ..s.verifications[key]
                        },
                    ),
                    pending: s.pending.remove_value(key),
                    ..s
                },
                Ok(ProofRejectedEvent { oracle, user, task_id }),
            )
        },
    }
}

/// The admin escalates a pending or rejected proof to a dispute.
pub open spec fn dispute_proof_step(s: EngineState, e: Env, caller: Address, user: Address, task_id: u64) -> (
    EngineState,
    Result<DisputeRaisedEvent, EngineError>,
) {
    let key = VerificationKey { task_id, user };
    let status = s.verifications[key].status;
    if s.paused {
        (s, Err(EngineError::Paused))
    } else {
        match admin_check(s, e, caller) {
            Some(err) => (s, Err(err)),
            None => if !s.verifications.contains_key(key) {
                (s, Err(EngineError::VerificationNotFound))
            } else if status != VerificationStatus::Pending && status != VerificationStatus::Rejected {
                (s, Err(EngineError::VerificationNotDisputable))
            } else {
                (
                    EngineState {
                        verifications: s.verifications.insert(
                            key,
                            VerificationView {
                                status: VerificationStatus::Disputed,
                                ..s.verifications[key]
                            },
                        ),
                        pending: s.pending.remove_value(key),
                        ..s
                    },
                    Ok(DisputeRaisedEvent { user, task_id }),
                )
            },
        }
    }
}

/// The admin settles a dispute: approval pays as `approve_proof` does,
/// rejection pays nothing.
pub open spec fn resolve_dispute_step(
    s: EngineState,
    reg: RegistryState,
    tok: TokenState,
    e: Env,
    engine: Address,
    caller: Address,
    user: Address,
    task_id: u64,
    approve: bool,
    reward_amount: i128,
) -> (EngineState, RegistryState, TokenState, Result<DisputeResolvedEvent, EngineError>) {
    let key = VerificationKey { task_id, user };
    let paid = payout_step(s, reg, tok, e, engine, user, task_id, reward_amount);
    let event = DisputeResolvedEvent {
        user,
        task_id,
        approved: approve,
        reward_amount: if approve {
            reward_amount
        } else {
            0
        },
    };
    if s.paused {
        (s, reg, tok, Err(EngineError::Paused))
    } else {
        match admin_check(s, e, caller) {
            Some(err) => (s, reg, tok, Err(err)),
            None => if !s.verifications.contains_key(key) {
                (s, reg, tok, Err(EngineError::VerificationNotFound))
            } else if s.verifications[key].status != VerificationStatus::Disputed {
                (s, reg, tok, Err(EngineError::VerificationNotDisputed))
            } else if approve {
                match paid.3 {
                    Ok(_) => (paid.0, paid.1, paid.2, Ok(event)),
                    Err(err) => (s, reg, tok, Err(err)),
                }
            } else {
                (
                    EngineState {
                        verifications: s.verifications.insert(
                            key,
                            VerificationView {
                                status: VerificationStatus::Rejected,
                                resolved_at: Some(e.timestamp),
                                ..s.verifications[key]
                            },
                        ),
                        ..s
                    },
                    reg,
                    tok,
                    Ok(event),
                )
            },
        }
    }
}

pub open spec fn propose_admin_step(
    s: EngineState,
    e: Env,
    current_admin: Address,
    new_admin: Address,
) -> (EngineState, Result<AdminProposedEvent, EngineError>) {
    match admin_check(s, e, current_admin) {
        Some(err) => (s, Err(err)),
        None => if new_admin == current_admin {
            (s, Err(EngineError::NewAdminMustBeDifferent))
        } else {
            (
                EngineState { pending_admin: Some(new_admin), ..s },
                Ok(AdminProposedEvent { current_admin, proposed_admin: new_admin }),
            )
        },
    }
}

pub open spec fn accept_admin_step(s: EngineState, e: Env, pending_admin: Address) -> (
    EngineState,
    Result<AdminAcceptedEvent, EngineError>,
) {
    if !e.authorizes(pending_admin) {
        (s, Err(EngineError::NotAuthorized))
    } else if s.pending_admin is None {
        (s, Err(EngineError::NoPendingAdmin))
    } else if s.pending_admin.unwrap() != pending_admin {
        (s, Err(EngineError::UnauthorizedPendingAdmin))
    } else if s.oracles.contains(pending_admin) {
        (s, Err(EngineError::OracleMustDifferFromAdmin))
    } else {
        (
            EngineState { admin: Some(pending_admin), pending_admin: None, ..s },
            Ok(AdminAcceptedEvent { new_admin: pending_admin }),
        )
    }
}

// ---------------------------------------------------------------------------
// What the queries return.
// ---------------------------------------------------------------------------

/// The views of a sequence of verifications.
pub open spec fn views(v: Seq<Verification>) -> Seq<VerificationView> {
    v.map_values(|x: Verification| x@)
}

/// The stored verifications of `keys` whose sequence number is above
/// `cursor`, in the order of `keys`.
pub open spec fn pending_after(s: EngineState, keys: Seq<VerificationKey>, cursor: u64) -> Seq<
    VerificationView,
>
    decreases keys.len(),
{
    if keys.len() == 0 {
        Seq::empty()
    } else {
        let rest = pending_after(s, keys.drop_last(), cursor);
        let k = keys.last();
        if s.verifications.contains_key(k) && s.verifications[k].seq > cursor {
            rest.push(s.verifications[k])
        } else {
            rest
        }
    }
}

/// The first `limit` pending verifications with a sequence number above
/// `cursor`, oldest first.
pub open spec fn pending_page(s: EngineState, cursor: u64, limit: u32) -> Seq<VerificationView> {
    let all = pending_after(s, s.pending, cursor);
    if all.len() <= limit {
        all
    } else {
        all.take(limit as int)
    }
}

/// `user`'s stored verifications of the tasks `ids`, in the order of `ids`.
pub open spec fn user_views(s: EngineState, user: Address, ids: Seq<u64>) -> Seq<VerificationView>
    decreases ids.len(),
{
    if ids.len() == 0 {
        Seq::empty()
    } else {
        let rest = user_views(s, user, ids.drop_last());
        let k = VerificationKey { task_id: ids.last(), user };
        if s.verifications.contains_key(k) {
            rest.push(s.verifications[k])
        } else {
            rest
        }
    }
}

/// Positions `cursor` to `cursor + limit` of `user`'s history, cut at its
/// end.
pub open spec fn user_page_bounds(s: EngineState, user: Address, cursor: u32, limit: u32) -> (int, int) {
    let count = s.history_of(user).len() as int;
    let start = if cursor <= count {
        cursor as int
    } else {
        count
    };
    let end = if start + limit <= count {
        start + limit
    } else {
        count
    };
    (start, end)
}

/// `user`'s verifications at positions `cursor` to `cursor + limit` of
/// their history.
pub open spec fn user_page(s: EngineState, user: Address, cursor: u32, limit: u32) -> Seq<
    VerificationView,
> {
    let (start, end) = user_page_bounds(s, user, cursor, limit);
    user_views(s, user, s.history_of(user).subrange(start, end))
}


// ---------------------------------------------------------------------------
// Facts about sequences that the entry points rely on.
// ---------------------------------------------------------------------------

/// Dropping an oracle that occurs once from a roster without repeats leaves
/// the others, without repeats, one fewer.
proof fn lemma_without(s: Seq<Address>, a: Address)
    requires
        s.no_duplicates(),
    ensures
        without(s, a).no_duplicates(),
        forall|x: Address| #[trigger] without(s, a).contains(x) <==> (s.contains(x) && x != a),
        s.contains(a) ==> without(s, a).len() == s.len() - 1,
        !s.contains(a) ==> without(s, a).len() == s.len(),
    decreases s.len(),
{
    if s.len() > 0 {
        let rest = s.drop_last();
        assert(rest.no_duplicates());
        lemma_without(rest, a);
        assert forall|x: Address| s.contains(x) <==> (rest.contains(x) || x == s.last()) by {
            if s.contains(x) {
                let i = choose|i: int| 0 <= i < s.len() && s[i] == x;
                if i < s.len() - 1 {
                    assert(rest[i] == x);
                }
            }
            if rest.contains(x) {
                let i = choose|i: int| 0 <= i < rest.len() && rest[i] == x;
                assert(s[i] == x);
            }
            if x == s.last() {
                assert(s[s.len() - 1] == x);
            }
        }
        assert(!rest.contains(s.last())) by {
            if rest.contains(s.last()) {
                let i = choose|i: int| 0 <= i < rest.len() && rest[i] == s.last();
                assert(s[i] == s[s.len() - 1]);
            }
        }
        if s.last() != a {
            let w = without(rest, a);
            assert forall|x: Address| #[trigger] w.push(s.last()).contains(x) <==> (w.contains(x)
                || x == s.last()) by {
                if w.push(s.last()).contains(x) {
                    let i = choose|i: int| 0 <= i < w.len() + 1 && w.push(s.last())[i] == x;
                    if i < w.len() {
                        assert(w[i] == x);
                    }
                }
                if w.contains(x) {
                    let i = choose|i: int| 0 <= i < w.len() && w[i] == x;
                    assert(w.push(s.last())[i] == x);
                }
                if x == s.last() {
                    assert(w.push(s.last())[w.len() as int] == x);
                }
            }
            assert forall|i: int, j: int|
                0 <= i < j < w.len() + 1 implies w.push(s.last())[i] != w.push(s.last())[j] by {
                if j == w.len() {
                    assert(w.contains(w[i]));
                }
            }
        }
    }
}

/// Keys in increasing order of `f` stay so when one is appended above all.
proof fn lemma_push_sorted(keys: Seq<VerificationKey>, key: VerificationKey, f: spec_fn(VerificationKey) -> int)
    requires
        forall|i: int, j: int| 0 <= i < j < keys.len() ==> f(keys[i]) < f(keys[j]),
        forall|i: int| 0 <= i < keys.len() ==> f(keys[i]) < f(key),
    ensures
        forall|i: int, j: int|
            0 <= i < j < keys.push(key).len() ==> f(keys.push(key)[i]) < f(keys.push(key)[j]),
{
    assert forall|i: int, j: int| 0 <= i < j < keys.push(key).len() implies f(keys.push(key)[i]) < f(
        keys.push(key)[j],
    ) by {
        if j < keys.len() {
            assert(keys.push(key)[i] == keys[i] && keys.push(key)[j] == keys[j]);
        } else {
            assert(keys.push(key)[i] == keys[i]);
        }
    }
}

/// Removing a key from a list without repeats leaves the others, in their
/// order.
proof fn lemma_remove_value(keys: Seq<VerificationKey>, key: VerificationKey, f: spec_fn(VerificationKey) -> int)
    requires
        keys.no_duplicates(),
        forall|i: int, j: int| 0 <= i < j < keys.len() ==> f(keys[i]) < f(keys[j]),
    ensures
        keys.remove_value(key).no_duplicates(),
        keys.remove_value(key).len() <= keys.len(),
        forall|k: VerificationKey| #[trigger]
            keys.remove_value(key).contains(k) <==> (keys.contains(k) && k != key),
        forall|i: int, j: int|
            0 <= i < j < keys.remove_value(key).len() ==> f(keys.remove_value(key)[i]) < f(
                keys.remove_value(key)[j],
            ),
{
    keys.index_of_first_ensures(key);
    let rv = keys.remove_value(key);
    match keys.index_of_first(key) {
        None => {
            assert(rv == keys);
        },
        Some(i0) => {
            assert(rv == keys.remove(i0));
            let m = |a: int| if a < i0 { a } else { a + 1 };
            assert forall|a: int| 0 <= a < rv.len() implies rv[a] == keys[m(a)] by {}
            assert forall|a: int, b: int| 0 <= a < b < rv.len() implies rv[a] != rv[b] && f(rv[a]) < f(
                rv[b],
            ) by {
                assert(rv[a] == keys[m(a)] && rv[b] == keys[m(b)]);
            }
            assert forall|k: VerificationKey| #[trigger] rv.contains(k) <==> (keys.contains(k) && k != key) by {
                if rv.contains(k) {
                    let a = choose|a: int| 0 <= a < rv.len() && rv[a] == k;
                    assert(keys[m(a)] == k);
                    assert(m(a) != i0);
                }
                if keys.contains(k) && k != key {
                    let j = choose|j: int| 0 <= j < keys.len() && keys[j] == k;
                    if j < i0 {
                        assert(rv[j] == k);
                    } else {
                        assert(j != i0);
                        assert(rv[j - 1] == k);
                    }
                }
            }
        },
    }
}

/// The stored verifications of a prefix of `keys` are a prefix of those of
/// `keys`.
proof fn lemma_pending_after_prefix(s: EngineState, keys: Seq<VerificationKey>, n: int, cursor: u64)
    requires
        0 <= n <= keys.len(),
    ensures
        pending_after(s, keys.take(n), cursor).len() <= pending_after(s, keys, cursor).len(),
        pending_after(s, keys, cursor).take(pending_after(s, keys.take(n), cursor).len() as int)
            == pending_after(s, keys.take(n), cursor),
    decreases keys.len(),
{
    if n == keys.len() {
        assert(keys.take(n) =~= keys);
        assert(pending_after(s, keys, cursor).take(pending_after(s, keys, cursor).len() as int)
            =~= pending_after(s, keys, cursor));
    } else {
        let rest = keys.drop_last();
        assert(keys.take(n) =~= rest.take(n));
        lemma_pending_after_prefix(s, rest, n, cursor);
        let small = pending_after(s, rest.take(n), cursor);
        let mid = pending_after(s, rest, cursor);
        let big = pending_after(s, keys, cursor);
        assert(big.take(small.len() as int) =~= mid.take(small.len() as int));
    }
}

/// The stored verifications of a prefix of `ids` are a prefix of those of
/// `ids`, one more id adding at most one.
proof fn lemma_user_views_step(s: EngineState, user: Address, ids: Seq<u64>, n: int)
    requires
        0 <= n < ids.len(),
    ensures
        user_views(s, user, ids.take(n + 1)) == if s.verifications.contains_key(
            VerificationKey { task_id: ids[n], user },
        ) {
            user_views(s, user, ids.take(n)).push(
                s.verifications[VerificationKey { task_id: ids[n], user }],
            )
        } else {
            user_views(s, user, ids.take(n))
        },
{
    assert(ids.take(n + 1).drop_last() =~= ids.take(n));
}

/// Settling a verification (a new status other than pending, the same
/// sequence number) and taking its key off the pending list keeps the
/// engine's bookkeeping in agreement.
proof fn lemma_settle_keeps_valid(s: EngineState, key: VerificationKey, v: VerificationView, t: EngineState)
    requires
        engine_valid(s),
        s.pending.no_duplicates(),
        s.verifications.contains_key(key),
        v.task_id == key.task_id,
        v.user == key.user,
        v.seq == s.verifications[key].seq,
        v.status != VerificationStatus::Pending,
        t.verifications == s.verifications.insert(key, v),
        t.pending == s.pending.remove_value(key),
        t.verification_seq == s.verification_seq,
        t.oracles == s.oracles,
        t.admin == s.admin,
        t.pending_admin == s.pending_admin,
        t.token == s.token,
        t.registry == s.registry,
    ensures
        engine_valid(t),
        t.pending.no_duplicates(),
{
    let f = |k: VerificationKey| s.verifications[k].seq as int;
    assert forall|i: int, j: int| 0 <= i < j < s.pending.len() implies f(s.pending[i]) < f(s.pending[j]) by {}
    lemma_remove_value(s.pending, key, f);
    assert forall|k: VerificationKey| #[trigger] t.verifications.contains_key(k) implies t.verifications[k].seq
        == s.verifications[k].seq by {}
    assert forall|i: int, j: int|
        0 <= i < j < t.pending.len() implies t.verifications[#[trigger] t.pending[i]].seq
        < t.verifications[#[trigger] t.pending[j]].seq by {
        assert(t.pending.contains(t.pending[i]) && t.pending.contains(t.pending[j]));
        assert(f(t.pending[i]) < f(t.pending[j]));
    }
}

// ---------------------------------------------------------------------------
// The contract.
// ---------------------------------------------------------------------------

/// The SHA-256 digest of `data`. It depends on the bytes alone.
pub uninterp spec fn spec_sha256(data: Seq<u8>) -> Seq<u8>;

/// The SHA-256 digest of `data`, as the Soroban host computes it
/// (`soroban_sdk::crypto::Crypto::sha256`) on a fresh test host. The
/// contract claims only that the digest is the named function of the bytes.
/// The host meters the hash by its length against a fixed budget and panics
/// once the budget is spent, so the input is kept to at most `MAX_CID_LEN`
/// bytes, far below that.
#[verifier::external_body]
fn sha256(data: &Vec<u8>) -> (r: [u8; 32])
    requires
        data@.len() <= MAX_CID_LEN,
    ensures
        r@ == spec_sha256(data@),
{
    let config = soroban_sdk::testutils::EnvTestConfig { capture_snapshot_at_drop: false };
    let env = soroban_sdk::Env::new_with_config(config);
    let bytes = soroban_sdk::Bytes::from_slice(&env, data.as_slice());
    env.crypto().sha256(&bytes).to_array()
}

/// The reward engine: its address, its ledger storage and its entry points.
pub struct RewardEngine {
    /// The engine's own address on the ledger.
    pub address: Address,
    pub storage: EngineStorage,
}

impl View for RewardEngine {
    type V = EngineState;

    open spec fn view(&self) -> EngineState {
        self.storage@
    }
}

impl RewardEngine {
    pub open spec fn wf(&self) -> bool {
        self.storage.wf() && engine_valid(self.storage@)
    }

    /// An initialized engine is deployed against `registry` and `token`:
    /// they are at the addresses it stores, and both are initialized.
    pub open spec fn serves(&self, registry: &RegistryContract, token: &TokenContract) -> bool {
        self@.admin is Some ==> {
            &&& self@.registry == Some(registry.address)
            &&& self@.token == Some(token.address)
            &&& registry@.admin is Some
            &&& token@.minter is Some
        }
    }

    /// A freshly deployed, uninitialized engine at `address`.
    pub fn new(address: Address) -> (r: RewardEngine)
        ensures
            r.wf(),
            r.address == address,
            r@ == (EngineState {
                admin: None,
                pending_admin: None,
                token: None,
                registry: None,
                oracles: Seq::empty(),
                verifications: Map::empty(),
                cid_index: Map::empty(),
                min_reward: None,
                max_reward: None,
                pending: Seq::empty(),
                verification_seq: 0,
                user_verifications: Map::empty(),
                total_paid: 0,
                paused: false,
                user_cooldown: 0,
                last_reward_ledger: Map::empty(),
            }),
    {
        RewardEngine { address, storage: EngineStorage::new() }
    }

    fn require_not_paused(&self) -> (r: Result<(), EngineError>)
        ensures
            r is Err <==> self@.paused,
            r is Err ==> r == Err::<(), EngineError>(EngineError::Paused),
    {
        if storage::is_paused(&self.storage) {
            return Err(EngineError::Paused);
        }
        Ok(())
    }

    fn require_oracle(&self, addr: Address) -> (r: Result<(), EngineError>)
        ensures
            r is Err <==> !self@.oracles.contains(addr),
            r is Err ==> r == Err::<(), EngineError>(EngineError::Unauthorized),
    {
        if !storage::is_registered_oracle(&self.storage, addr) {
            return Err(EngineError::Unauthorized);
        }
        Ok(())
    }

    fn require_admin(&self, addr: Address) -> (r: Result<(), EngineError>)
        requires
            self@.admin is Some,
        ensures
            r is Err <==> addr != self@.admin.unwrap(),
            r is Err ==> r == Err::<(), EngineError>(EngineError::Unauthorized),
    {
        let admin = storage::read_admin(&self.storage);
        if addr != admin {
            return Err(EngineError::Unauthorized);
        }
        Ok(())
    }

    /// The task as the registry stores it, if it is active and its deadline
    /// has not passed.
    fn require_active_task(e: &Env, registry: &RegistryContract, task_id: u64) -> (r: Result<
        Task,
        EngineError,
    >)
        requires
            registry.wf(),
        ensures
            r is Ok <==> {
                &&& registry@.tasks.contains_key(task_id)
                &&& registry@.tasks[task_id].status == TaskStatus::Active
                &&& registry@.tasks[task_id].expires_at >= e.timestamp
            },
            r matches Ok(t) ==> t@ == registry@.tasks[task_id],
            r matches Err(err) ==> err == if !registry@.tasks.contains_key(task_id) {
                EngineError::Registry(RegistryError::TaskNotFound)
            } else if registry@.tasks[task_id].status != TaskStatus::Active {
                EngineError::TaskNotActive
            } else {
                EngineError::TaskExpired
            },
    {
        let task = match registry.get_task(e, task_id) {
            Ok(task) => task,
            Err(err) => {
                return Err(EngineError::Registry(err));
            },
        };
        if task.status != TaskStatus::Active {
            return Err(EngineError::TaskNotActive);
        }
        if task.expires_at < e.timestamp {
            return Err(EngineError::TaskExpired);
        }
        Ok(task)
    }

    fn require_cooldown_elapsed(&self, e: &Env, user: Address) -> (r: Result<(), EngineError>)
        requires
            self.storage.wf(),
        ensures
            r is Err <==> cooldown_active(self@, *e, user),
            r is Err ==> r == Err::<(), EngineError>(EngineError::CooldownActive),
    {
        let cooldown = storage::read_user_cooldown(&self.storage);
        if cooldown == 0 {
            return Ok(());
        }
        if let Some(last) = storage::read_last_reward_ledger(&self.storage, user) {
            let current_ledger = e.sequence as u64;
            if current_ledger.saturating_sub(last) < cooldown {
                return Err(EngineError::CooldownActive);
            }
        }
        Ok(())
    }

    fn record_reward_ledger(&mut self, e: &Env, user: Address)
        requires
            old(self).storage.wf(),
        ensures
            final(self).storage.wf(),
            final(self).address == old(self).address,
            final(self)@ == (EngineState {
                last_reward_ledger: old(self)@.last_reward_ledger.insert(user, e.sequence as u64),
                ..old(self)@
            }),
    {
        storage::write_last_reward_ledger(&mut self.storage, user, e.sequence as u64);
    }
}

impl RewardEngine {
    /// Sets admin, token, registry and the first oracle, which must differ
    /// from the admin. Fails if the engine already has an admin.
    pub fn initialize(&mut self, e: &Env, admin: Address, token: Address, registry: Address, oracle: Address) -> (r:
        Result<(), EngineError>)
        requires
            old(self).wf(),
        ensures
            final(self).wf(),
            final(self).address == old(self).address,
            final(self)@ == initialize_step(old(self)@, admin, token, registry, oracle).0,
            r == initialize_step(old(self)@, admin, token, registry, oracle).1,
    {
        if storage::has_admin(&self.storage) {
            return Err(EngineError::AlreadyInitialized);
        }
        if admin == oracle {
            return Err(EngineError::OracleMustDifferFromAdmin);
        }
        storage::write_admin(&mut self.storage, admin);
        storage::write_token(&mut self.storage, token);
        storage::write_registry(&mut self.storage, registry);
        let mut oracles: Vec<Address> = Vec::new();
        oracles.push(oracle);
        assert(oracles@ =~= seq![oracle]);
        storage::write_oracles(&mut self.storage, oracles);
        Ok(())
    }

    /// Replaces the whole roster by `new_oracle`; the admin must authorize.
    pub fn set_oracle(&mut self, e: &Env, caller: Address, new_oracle: Address) -> (r: Result<(), EngineError>)
        requires
            old(self).wf(),
            old(self)@.admin is Some,
        ensures
            final(self).wf(),
            final(self).address == old(self).address,
            final(self)@ == set_oracle_step(old(self)@, *e, caller, new_oracle).0,
            r == set_oracle_step(old(self)@, *e, caller, new_oracle).1,
    {
        if !e.require_auth(caller) {
            return Err(EngineError::NotAuthorized);
        }
        self.require_admin(caller)?;
        if new_oracle == caller {
            return Err(EngineError::OracleMustDifferFromAdmin);
        }
        let mut oracles: Vec<Address> = Vec::new();
        oracles.push(new_oracle);
        assert(oracles@ =~= seq![new_oracle]);
        storage::write_oracles(&mut self.storage, oracles);
        Ok(())
    }

    /// Registers one more oracle; the admin must authorize.
    pub fn add_oracle(&mut self, e: &Env, caller: Address, new_oracle: Address) -> (r: Result<
        OracleAddedEvent,
        EngineError,
    >)
        requires
            old(self).wf(),
            old(self)@.admin is Some,
        ensures
            final(self).wf(),
            final(self).address == old(self).address,
            final(self)@ == add_oracle_step(old(self)@, *e, caller, new_oracle).0,
            r == add_oracle_step(old(self)@, *e, caller, new_oracle).1,
    {
        if !e.require_auth(caller) {
            return Err(EngineError::NotAuthorized);
        }
        self.require_admin(caller)?;
        let admin = storage::read_admin(&self.storage);
        if new_oracle == admin {
            return Err(EngineError::OracleMustDifferFromAdmin);
        }
        if storage::is_registered_oracle(&self.storage, new_oracle) {
            return Err(EngineError::OracleAlreadyRegistered);
        }
        let ghost before = self@.oracles;
        storage::push_oracle(&mut self.storage, new_oracle);
        assert forall|i: int, j: int|
            0 <= i < j < self@.oracles.len() implies self@.oracles[i] != self@.oracles[j] by {
            if j == before.len() {
                assert(before.contains(before[i]));
            }
        }
        Ok(OracleAddedEvent { oracle: new_oracle })
    }

    /// Deregisters `oracle`; the last oracle cannot be removed.
    pub fn remove_oracle(&mut self, e: &Env, caller: Address, oracle: Address) -> (r: Result<
        OracleRemovedEvent,
        EngineError,
    >)
        requires
            old(self).wf(),
            old(self)@.admin is Some,
        ensures
            final(self).wf(),
            final(self).address == old(self).address,
            final(self)@ == remove_oracle_step(old(self)@, *e, caller, oracle).0,
            r == remove_oracle_step(old(self)@, *e, caller, oracle).1,
    {
        if !e.require_auth(caller) {
            return Err(EngineError::NotAuthorized);
        }
        self.require_admin(caller)?;
        if !storage::is_registered_oracle(&self.storage, oracle) {
            return Err(EngineError::OracleNotRegistered);
        }
        if storage::read_oracles(&self.storage).len() <= 1 {
            return Err(EngineError::CannotRemoveLastOracle);
        }
        proof {
            lemma_without(self@.oracles, oracle);
        }
        storage::remove_oracle_from_list(&mut self.storage, oracle);
        Ok(OracleRemovedEvent { oracle })
    }

    /// The oracle roster.
    pub fn get_oracles(&self, e: &Env) -> (r: Vec<Address>)
        ensures
            r@ == self@.oracles,
    {
        storage::read_oracles(&self.storage)
    }

    pub fn is_oracle(&self, e: &Env, addr: Address) -> (r: bool)
        ensures
            r == self@.oracles.contains(addr),
    {
        storage::is_registered_oracle(&self.storage, addr)
    }

    /// Points the engine at another token contract.
    pub fn set_token(&mut self, e: &Env, caller: Address, new_token: Address) -> (r: Result<(), EngineError>)
        requires
            old(self).wf(),
            old(self)@.admin is Some,
        ensures
            final(self).wf(),
            final(self).address == old(self).address,
            final(self)@ == admin_set_step(
                old(self)@,
                *e,
                caller,
                EngineState { token: Some(new_token), ..old(self)@ },
            ).0,
            r == admin_set_step(
                old(self)@,
                *e,
                caller,
                EngineState { token: Some(new_token), ..old(self)@ },
            ).1,
    {
        if !e.require_auth(caller) {
            return Err(EngineError::NotAuthorized);
        }
        self.require_admin(caller)?;
        storage::write_token(&mut self.storage, new_token);
        Ok(())
    }

    /// Points the engine at another registry contract.
    pub fn set_registry(&mut self, e: &Env, caller: Address, new_registry: Address) -> (r: Result<
        (),
        EngineError,
    >)
        requires
            old(self).wf(),
            old(self)@.admin is Some,
        ensures
            final(self).wf(),
            final(self).address == old(self).address,
            final(self)@ == admin_set_step(
                old(self)@,
                *e,
                caller,
                EngineState { registry: Some(new_registry), ..old(self)@ },
            ).0,
            r == admin_set_step(
                old(self)@,
                *e,
                caller,
                EngineState { registry: Some(new_registry), ..old(self)@ },
            ).1,
    {
        if !e.require_auth(caller) {
            return Err(EngineError::NotAuthorized);
        }
        self.require_admin(caller)?;
        storage::write_registry(&mut self.storage, new_registry);
        Ok(())
    }

    /// Sets the bounds every payout must lie within.
    pub fn set_reward_range(&mut self, e: &Env, caller: Address, min_reward: i128, max_reward: i128) -> (r:
        Result<(), EngineError>)
        requires
            old(self).wf(),
            old(self)@.admin is Some,
        ensures
            final(self).wf(),
            final(self).address == old(self).address,
            final(self)@ == set_reward_range_step(old(self)@, *e, caller, min_reward, max_reward).0,
            r == set_reward_range_step(old(self)@, *e, caller, min_reward, max_reward).1,
    {
        if !e.require_auth(caller) {
            return Err(EngineError::NotAuthorized);
        }
        self.require_admin(caller)?;
        if min_reward <= 0 {
            return Err(EngineError::MinRewardMustBePositive);
        }
        if max_reward < min_reward {
            return Err(EngineError::MaxRewardBelowMin);
        }
        storage::write_reward_range(&mut self.storage, min_reward, max_reward);
        Ok(())
    }

    /// Sets the ledgers a user waits between two rewards; 0 for no wait.
    pub fn set_user_cooldown(&mut self, e: &Env, caller: Address, min_ledgers_between_rewards: u64) -> (r:
        Result<(), EngineError>)
        requires
            old(self).wf(),
            old(self)@.admin is Some,
        ensures
            final(self).wf(),
            final(self).address == old(self).address,
            final(self)@ == admin_set_step(
                old(self)@,
                *e,
                caller,
                EngineState { user_cooldown: min_ledgers_between_rewards, ..old(self)@ },
            ).0,
            r == admin_set_step(
                old(self)@,
                *e,
                caller,
                EngineState { user_cooldown: min_ledgers_between_rewards, ..old(self)@ },
            ).1,
    {
        if !e.require_auth(caller) {
            return Err(EngineError::NotAuthorized);
        }
        self.require_admin(caller)?;
        storage::write_user_cooldown(&mut self.storage, min_ledgers_between_rewards);
        Ok(())
    }

    /// Halts every proof operation.
    pub fn pause(&mut self, e: &Env, caller: Address) -> (r: Result<(), EngineError>)
        requires
            old(self).wf(),
            old(self)@.admin is Some,
        ensures
            final(self).wf(),
            final(self).address == old(self).address,
            final(self)@ == admin_set_step(old(self)@, *e, caller, EngineState { paused: true, ..old(self)@ }).0,
            r == admin_set_step(old(self)@, *e, caller, EngineState { paused: true, ..old(self)@ }).1,
    {
        if !e.require_auth(caller) {
            return Err(EngineError::NotAuthorized);
        }
        self.require_admin(caller)?;
        storage::set_paused(&mut self.storage, true);
        Ok(())
    }

    /// Resumes proof operations.
    pub fn unpause(&mut self, e: &Env, caller: Address) -> (r: Result<(), EngineError>)
        requires
            old(self).wf(),
            old(self)@.admin is Some,
        ensures
            final(self).wf(),
            final(self).address == old(self).address,
            final(self)@ == admin_set_step(old(self)@, *e, caller, EngineState { paused: false, ..old(self)@ }).0,
            r == admin_set_step(old(self)@, *e, caller, EngineState { paused: false, ..old(self)@ }).1,
    {
        if !e.require_auth(caller) {
            return Err(EngineError::NotAuthorized);
        }
        self.require_admin(caller)?;
        storage::set_paused(&mut self.storage, false);
        Ok(())
    }

    pub fn is_paused(&self, e: &Env) -> (r: bool)
        ensures
            r == self@.paused,
    {
        storage::is_paused(&self.storage)
    }

    /// The total paid out so far.
    pub fn total_paid(&self, e: &Env) -> (r: i128)
        ensures
            r == self@.total_paid,
    {
        storage::read_total_paid(&self.storage)
    }

    /// Names `new_admin` as the next admin; it takes over when it accepts.
    pub fn propose_admin(&mut self, e: &Env, current_admin: Address, new_admin: Address) -> (r: Result<
        AdminProposedEvent,
        EngineError,
    >)
        requires
            old(self).wf(),
            old(self)@.admin is Some,
        ensures
            final(self).wf(),
            final(self).address == old(self).address,
            final(self)@ == propose_admin_step(old(self)@, *e, current_admin, new_admin).0,
            r == propose_admin_step(old(self)@, *e, current_admin, new_admin).1,
    {
        if !e.require_auth(current_admin) {
            return Err(EngineError::NotAuthorized);
        }
        self.require_admin(current_admin)?;
        if new_admin == current_admin {
            return Err(EngineError::NewAdminMustBeDifferent);
        }
        storage::write_pending_admin(&mut self.storage, new_admin);
        Ok(AdminProposedEvent { current_admin, proposed_admin: new_admin })
    }

    /// The proposed admin takes over, unless it is a registered oracle: the
    /// admin and the oracles are always different addresses.
    pub fn accept_admin(&mut self, e: &Env, pending_admin: Address) -> (r: Result<
        AdminAcceptedEvent,
        EngineError,
    >)
        requires
            old(self).wf(),
        ensures
            final(self).wf(),
            final(self).address == old(self).address,
            final(self)@ == accept_admin_step(old(self)@, *e, pending_admin).0,
            r == accept_admin_step(old(self)@, *e, pending_admin).1,
    {
        if !e.require_auth(pending_admin) {
            return Err(EngineError::NotAuthorized);
        }
        let proposed = match storage::read_pending_admin(&self.storage) {
            Some(p) => p,
            None => {
                return Err(EngineError::NoPendingAdmin);
            },
        };
        if pending_admin != proposed {
            return Err(EngineError::UnauthorizedPendingAdmin);
        }
        if storage::is_registered_oracle(&self.storage, pending_admin) {
            return Err(EngineError::OracleMustDifferFromAdmin);
        }
        storage::write_admin(&mut self.storage, pending_admin);
        storage::remove_pending_admin(&mut self.storage);
        Ok(AdminAcceptedEvent { new_admin: pending_admin })
    }

    /// The same as `propose_admin`: the new admin still has to accept.
    pub fn transfer_admin(&mut self, e: &Env, current_admin: Address, new_admin: Address) -> (r: Result<
        AdminProposedEvent,
        EngineError,
    >)
        requires
            old(self).wf(),
            old(self)@.admin is Some,
        ensures
            final(self).wf(),
            final(self).address == old(self).address,
            final(self)@ == propose_admin_step(old(self)@, *e, current_admin, new_admin).0,
            r == propose_admin_step(old(self)@, *e, current_admin, new_admin).1,
    {
        self.propose_admin(e, current_admin, new_admin)
    }
}

impl RewardEngine {
    /// Records an oracle's proof that `user` completed task `task_id`, the
    /// proof's CID hashing to `cid_hash`. The proof waits for an oracle's
    /// verdict on the pending list.
    pub fn submit_proof_hashed(
        &mut self,
        e: &Env,
        oracle: Address,
        user: Address,
        task_id: u64,
        proof_cid: Vec<u8>,
        cid_hash: CidHash,
    ) -> (r: Result<ProofSubmittedEvent, EngineError>)
        requires
            old(self).wf(),
            old(self)@.verification_seq < u64::MAX,
        ensures
            final(self).wf(),
            final(self).address == old(self).address,
            final(self)@ == submit_proof_step(old(self)@, *e, oracle, user, task_id, proof_cid@, cid_hash).0,
            r == submit_proof_step(old(self)@, *e, oracle, user, task_id, proof_cid@, cid_hash).1,
    {
        match self.check_submission(e, oracle, user, task_id, &proof_cid) {
            Some(err) => {
                return Err(err);
            },
            None => {},
        }
        if storage::read_cid_index(&self.storage, cid_hash).is_some() {
            return Err(EngineError::ProofCidAlreadySubmitted);
        }
        let ghost s0 = self@;
        let ghost cid = proof_cid@;
        let key = VerificationKey { task_id, user };
        let seq = storage::next_verification_seq(&mut self.storage);
        let verification = Verification {
            task_id,
            user,
            proof_cid,
            reward_amount: 0,
            status: VerificationStatus::Pending,
            submitted_at: e.timestamp,
            resolved_at: None,
            oracle,
            seq,
        };
        assert(verification@ == submitted(s0, *e, oracle, user, task_id, cid));
        storage::write_verification(&mut self.storage, task_id, user, verification);
        storage::write_cid_index(&mut self.storage, cid_hash, key);
        assert(!s0.pending.contains(key));
        storage::push_verification_key(&mut self.storage, task_id, user);
        storage::push_user_verification_key(&mut self.storage, user, task_id);
        proof {
            let s1 = self@;
            let f = |k: VerificationKey| s1.verifications[k].seq as int;
            assert forall|i: int, j: int| 0 <= i < j < s0.pending.len() implies f(s0.pending[i]) < f(
                s0.pending[j],
            ) by {
                assert(s0.pending.contains(s0.pending[i]) && s0.pending.contains(s0.pending[j]));
            }
            assert forall|i: int| 0 <= i < s0.pending.len() implies f(s0.pending[i]) < f(key) by {
                assert(s0.pending.contains(s0.pending[i]));
            }
            lemma_push_sorted(s0.pending, key, f);
            assert forall|i: int, j: int|
                0 <= i < j < s1.pending.len() implies s1.verifications[#[trigger] s1.pending[i]].seq
                < s1.verifications[#[trigger] s1.pending[j]].seq by {
                assert(f(s1.pending[i]) < f(s1.pending[j]));
                assert(s0.pending.push(key)[i] == s1.pending[i]);
                if j < s0.pending.len() {
                    assert(s0.pending.contains(s1.pending[i]) && s0.pending.contains(s1.pending[j]));
                } else {
                    assert(s0.pending.contains(s1.pending[i]));
                }
            }
            assert forall|k: VerificationKey| #[trigger]
                s1.pending.contains(k) <==> (s1.verifications.contains_key(k)
                    && s1.verifications[k].status == VerificationStatus::Pending) by {
                if s1.pending.contains(k) && k != key {
                    let i = choose|i: int| 0 <= i < s1.pending.len() && s1.pending[i] == k;
                    assert(s0.pending[i] == k);
                    assert(s0.pending.contains(k));
                }
                if s0.pending.contains(k) {
                    let i = choose|i: int| 0 <= i < s0.pending.len() && s0.pending[i] == k;
                    assert(s1.pending[i] == k);
                }
                if k == key {
                    assert(s1.pending[s0.pending.len() as int] == k);
                }
            }
        }
        Ok(ProofSubmittedEvent { oracle, user, task_id })
    }

    /// The checks made before the CID is hashed, in the same order.
    fn check_submission(&self, e: &Env, oracle: Address, user: Address, task_id: u64, proof_cid: &Vec<u8>) -> (r:
        Option<EngineError>)
        requires
            self.wf(),
        ensures
            r == submit_precheck(self@, *e, oracle, user, task_id, proof_cid@),
    {
        if self.require_not_paused().is_err() {
            return Some(EngineError::Paused);
        }
        if !e.require_auth(oracle) {
            return Some(EngineError::NotAuthorized);
        }
        if self.require_oracle(oracle).is_err() {
            return Some(EngineError::Unauthorized);
        }
        if proof_cid.len() == 0 {
            return Some(EngineError::ProofCidEmpty);
        }
        if proof_cid.len() > MAX_CID_LEN {
            return Some(EngineError::ProofCidTooLong);
        }
        if storage::read_verification(&self.storage, task_id, user).is_some() {
            return Some(EngineError::ProofAlreadySubmitted);
        }
        None
    }

    /// Records an oracle's proof that `user` completed task `task_id`; the
    /// proof's CID is known afterwards by its SHA-256 hash, and no CID is
    /// accepted twice. The CID is hashed only once the checks that do not
    /// need its hash have passed.
    pub fn submit_proof(&mut self, e: &Env, oracle: Address, user: Address, task_id: u64, proof_cid: Vec<u8>) -> (r:
        Result<ProofSubmittedEvent, EngineError>)
        requires
            old(self).wf(),
            old(self)@.verification_seq < u64::MAX,
        ensures
            final(self).wf(),
            final(self).address == old(self).address,
            submit_precheck(old(self)@, *e, oracle, user, task_id, proof_cid@) matches Some(err) ==> {
                &&& final(self)@ == old(self)@
                &&& r == Err::<ProofSubmittedEvent, EngineError>(err)
            },
            submit_precheck(old(self)@, *e, oracle, user, task_id, proof_cid@) is None ==> exists|h: CidHash|
                #![trigger submit_proof_step(old(self)@, *e, oracle, user, task_id, proof_cid@, h)]
                {
                    &&& h.0@ == spec_sha256(proof_cid@)
                    &&& final(self)@ == submit_proof_step(old(self)@, *e, oracle, user, task_id, proof_cid@, h).0
                    &&& r == submit_proof_step(old(self)@, *e, oracle, user, task_id, proof_cid@, h).1
                },
    {
        match self.check_submission(e, oracle, user, task_id, &proof_cid) {
            Some(err) => {
                return Err(err);
            },
            None => {},
        }
        let cid_hash = CidHash(sha256(&proof_cid));
        self.submit_proof_hashed(e, oracle, user, task_id, proof_cid, cid_hash)
    }
}

impl RewardEngine {
    /// A registered oracle rejects a pending proof; nothing is paid.
    pub fn reject_proof(&mut self, e: &Env, oracle: Address, user: Address, task_id: u64) -> (r: Result<
        ProofRejectedEvent,
        EngineError,
    >)
        requires
            old(self).wf(),
        ensures
            final(self).wf(),
            final(self).address == old(self).address,
            final(self)@ == reject_proof_step(old(self)@, *e, oracle, user, task_id).0,
            r == reject_proof_step(old(self)@, *e, oracle, user, task_id).1,
    {
        self.require_not_paused()?;
        if !e.require_auth(oracle) {
            return Err(EngineError::NotAuthorized);
        }
        self.require_oracle(oracle)?;
        let mut verification = match storage::read_verification(&self.storage, task_id, user) {
            Some(v) => v,
            None => {
                return Err(EngineError::VerificationNotFound);
            },
        };
        if verification.status != VerificationStatus::Pending {
            return Err(EngineError::VerificationNotPending);
        }
        let ghost s0 = self@;
        proof {
            storage::lemma_pending_distinct(&self.storage);
        }
        verification.status = VerificationStatus::Rejected;
        verification.resolved_at = Some(e.timestamp);
        let ghost v = verification@;
        storage::write_verification(&mut self.storage, task_id, user, verification);
        storage::remove_verification_key(&mut self.storage, task_id, user);
        proof {
            lemma_settle_keeps_valid(s0, VerificationKey { task_id, user }, v, self@);
        }
        Ok(ProofRejectedEvent { oracle, user, task_id })
    }

    /// The admin escalates a pending or rejected proof to a dispute.
    pub fn dispute_proof(&mut self, e: &Env, caller: Address, user: Address, task_id: u64) -> (r: Result<
        DisputeRaisedEvent,
        EngineError,
    >)
        requires
            old(self).wf(),
            old(self)@.admin is Some,
        ensures
            final(self).wf(),
            final(self).address == old(self).address,
            final(self)@ == dispute_proof_step(old(self)@, *e, caller, user, task_id).0,
            r == dispute_proof_step(old(self)@, *e, caller, user, task_id).1,
    {
        self.require_not_paused()?;
        if !e.require_auth(caller) {
            return Err(EngineError::NotAuthorized);
        }
        self.require_admin(caller)?;
        let mut verification = match storage::read_verification(&self.storage, task_id, user) {
            Some(v) => v,
            None => {
                return Err(EngineError::VerificationNotFound);
            },
        };
        if verification.status != VerificationStatus::Pending && verification.status
            != VerificationStatus::Rejected {
            return Err(EngineError::VerificationNotDisputable);
        }
        let ghost s0 = self@;
        proof {
            storage::lemma_pending_distinct(&self.storage);
        }
        verification.status = VerificationStatus::Disputed;
        let ghost v = verification@;
        storage::write_verification(&mut self.storage, task_id, user, verification);
        storage::remove_verification_key(&mut self.storage, task_id, user);
        proof {
            lemma_settle_keeps_valid(s0, VerificationKey { task_id, user }, v, self@);
        }
        Ok(DisputeRaisedEvent { user, task_id })
    }
}

impl RewardEngine {
    /// The payout shared by `approve_proof` and an approving
    /// `resolve_dispute`: every check first, then the registry's completion
    /// and the token's mint, then the engine's own record.
    fn approve_and_pay(
        &mut self,
        e: &Env,
        registry: &mut RegistryContract,
        token: &mut TokenContract,
        user: Address,
        task_id: u64,
        reward_amount: i128,
        verification: Verification,
    ) -> (r: Result<(), EngineError>)
        requires
            old(self).wf(),
            old(registry).wf(),
            old(token).wf(),
            old(self)@.admin is Some,
            old(self).serves(old(registry), old(token)),
            old(self)@.verifications.contains_key(VerificationKey { task_id, user }),
            verification@ == old(self)@.verifications[VerificationKey { task_id, user }],
        ensures
            final(self).wf(),
            final(registry).wf(),
            final(token).wf(),
            final(self).address == old(self).address,
            final(registry).address == old(registry).address,
            final(token).address == old(token).address,
            ({
                let paid = payout_step(
                    old(self)@,
                    old(registry)@,
                    old(token)@,
                    *e,
                    old(self).address,
                    user,
                    task_id,
                    reward_amount,
                );
                &&& final(self)@ == paid.0
                &&& final(registry)@ == paid.1
                &&& final(token)@ == paid.2
                &&& r == paid.3
            }),
    {
        if reward_amount <= 0 {
            return Err(EngineError::RewardMustBePositive);
        }
        if let Some(min) = storage::read_min_reward(&self.storage) {
            if reward_amount < min {
                return Err(EngineError::RewardBelowMinimum);
            }
        }
        if let Some(max) = storage::read_max_reward(&self.storage) {
            if reward_amount > max {
                return Err(EngineError::RewardExceedsMaximum);
            }
        }
        let task = Self::require_active_task(e, registry, task_id)?;
        if reward_amount > task.reward_amount {
            return Err(EngineError::RewardExceedsTaskBudget);
        }
        if task.completions >= task.max_completions {
            return Err(EngineError::TaskMaxCompletionsReached);
        }
        self.require_cooldown_elapsed(e, user)?;
        let sub = e.with_invoker(self.address);
        match registry.complete_task_result(&sub, self.address, task_id, user) {
            Ok(_) => {},
            Err(err) => {
                return Err(EngineError::Registry(err));
            },
        }
        match token.mint_result(&sub, user, reward_amount) {
            Ok(_) => {},
            Err(err) => {
                return Err(EngineError::Token(err));
            },
        }
        let total = storage::read_total_paid(&self.storage);
        if total > i128::MAX - reward_amount {
            return Err(EngineError::TotalPaidOverflow);
        }
        let _ = registry.complete_task(&sub, self.address, task_id, user);
        let _ = token.mint(&sub, user, reward_amount);
        let ghost s0 = self@;
        proof {
            storage::lemma_pending_distinct(&self.storage);
        }
        let mut verification = verification;
        verification.status = VerificationStatus::Approved;
        verification.reward_amount = reward_amount;
        verification.resolved_at = Some(e.timestamp);
        let ghost v = verification@;
        storage::write_verification(&mut self.storage, task_id, user, verification);
        storage::remove_verification_key(&mut self.storage, task_id, user);
        let _ = storage::add_total_paid(&mut self.storage, reward_amount);
        self.record_reward_ledger(e, user);
        proof {
            lemma_settle_keeps_valid(s0, VerificationKey { task_id, user }, v, self@);
        }
        Ok(())
    }

    /// A registered oracle approves a pending proof: the registry records
    /// the completion, the token mints `reward_amount` to `user`, and the
    /// verification is marked approved. If any step fails, nothing changes
    /// in the engine, the registry or the token.
    pub fn approve_proof(
        &mut self,
        e: &Env,
        registry: &mut RegistryContract,
        token: &mut TokenContract,
        oracle: Address,
        user: Address,
        task_id: u64,
        reward_amount: i128,
    ) -> (r: Result<RewardPaidEvent, EngineError>)
        requires
            old(self).wf(),
            old(registry).wf(),
            old(token).wf(),
            old(self).serves(old(registry), old(token)),
        ensures
            final(self).wf(),
            final(registry).wf(),
            final(token).wf(),
            final(self).address == old(self).address,
            final(registry).address == old(registry).address,
            final(token).address == old(token).address,
            ({
                let step = approve_proof_step(
                    old(self)@,
                    old(registry)@,
                    old(token)@,
                    *e,
                    old(self).address,
                    oracle,
                    user,
                    task_id,
                    reward_amount,
                );
                &&& final(self)@ == step.0
                &&& final(registry)@ == step.1
                &&& final(token)@ == step.2
                &&& r == step.3
            }),
    {
        self.require_not_paused()?;
        if !e.require_auth(oracle) {
            return Err(EngineError::NotAuthorized);
        }
        self.require_oracle(oracle)?;
        let verification = match storage::read_verification(&self.storage, task_id, user) {
            Some(v) => v,
            None => {
                return Err(EngineError::VerificationNotFound);
            },
        };
        if verification.status != VerificationStatus::Pending {
            return Err(EngineError::VerificationNotPending);
        }
        self.approve_and_pay(e, registry, token, user, task_id, reward_amount, verification)?;
        Ok(RewardPaidEvent { oracle, user, task_id, amount: reward_amount })
    }

    /// The admin settles a disputed proof: approval pays as `approve_proof`
    /// does, rejection pays nothing.
    pub fn resolve_dispute(
        &mut self,
        e: &Env,
        registry: &mut RegistryContract,
        token: &mut TokenContract,
        caller: Address,
        user: Address,
        task_id: u64,
        approve: bool,
        reward_amount: i128,
    ) -> (r: Result<DisputeResolvedEvent, EngineError>)
        requires
            old(self).wf(),
            old(registry).wf(),
            old(token).wf(),
            old(self)@.admin is Some,
            old(self).serves(old(registry), old(token)),
        ensures
            final(self).wf(),
            final(registry).wf(),
            final(token).wf(),
            final(self).address == old(self).address,
            final(registry).address == old(registry).address,
            final(token).address == old(token).address,
            ({
                let step = resolve_dispute_step(
                    old(self)@,
                    old(registry)@,
                    old(token)@,
                    *e,
                    old(self).address,
                    caller,
                    user,
                    task_id,
                    approve,
                    reward_amount,
                );
                &&& final(self)@ == step.0
                &&& final(registry)@ == step.1
                &&& final(token)@ == step.2
                &&& r == step.3
            }),
    {
        self.require_not_paused()?;
        if !e.require_auth(caller) {
            return Err(EngineError::NotAuthorized);
        }
        self.require_admin(caller)?;
        let mut verification = match storage::read_verification(&self.storage, task_id, user) {
            Some(v) => v,
            None => {
                return Err(EngineError::VerificationNotFound);
            },
        };
        if verification.status != VerificationStatus::Disputed {
            return Err(EngineError::VerificationNotDisputed);
        }
        if approve {
            self.approve_and_pay(e, registry, token, user, task_id, reward_amount, verification)?;
        } else {
            let ghost s0 = self@;
            let ghost key = VerificationKey { task_id, user };
            proof {
                storage::lemma_pending_distinct(&self.storage);
                s0.pending.index_of_first_ensures(key);
                assert(!s0.pending.contains(key));
                assert(s0.pending.remove_value(key) == s0.pending);
            }
            verification.status = VerificationStatus::Rejected;
            verification.resolved_at = Some(e.timestamp);
            let ghost v = verification@;
            storage::write_verification(&mut self.storage, task_id, user, verification);
            proof {
                lemma_settle_keeps_valid(s0, key, v, self@);
            }
        }
        Ok(
            DisputeResolvedEvent {
                user,
                task_id,
                approved: approve,
                reward_amount: if approve {
                    reward_amount
                } else {
                    0
                },
            },
        )
    }
}

impl RewardEngine {
    /// `user`'s verification of task `task_id`.
    pub fn get_verification(&self, e: &Env, task_id: u64, user: Address) -> (r: Result<Verification, EngineError>)
        requires
            self.wf(),
        ensures
            r is Ok <==> self@.verifications.contains_key(VerificationKey { task_id, user }),
            r matches Ok(v) ==> v@ == self@.verifications[VerificationKey { task_id, user }],
            r matches Err(err) ==> err == EngineError::VerificationNotFound,
    {
        match storage::read_verification(&self.storage, task_id, user) {
            Some(v) => Ok(v),
            None => Err(EngineError::VerificationNotFound),
        }
    }

    /// The verification of the proof whose CID hashes to `cid_hash`.
    pub fn get_verification_by_cid_hash(&self, e: &Env, cid_hash: CidHash) -> (r: Result<
        Verification,
        EngineError,
    >)
        requires
            self.wf(),
        ensures
            r is Ok <==> (self@.cid_index.contains_key(cid_hash)
                && self@.verifications.contains_key(self@.cid_index[cid_hash])),
            r matches Ok(v) ==> v@ == self@.verifications[self@.cid_index[cid_hash]],
            r matches Err(err) ==> err == EngineError::NotFound,
    {
        let key = match storage::read_cid_index(&self.storage, cid_hash) {
            Some(key) => key,
            None => {
                return Err(EngineError::NotFound);
            },
        };
        match storage::read_verification(&self.storage, key.task_id, key.user) {
            Some(v) => Ok(v),
            None => Err(EngineError::NotFound),
        }
    }

    /// Walks the pending list from its head and collects up to `limit`
    /// verifications with a sequence number above `cursor`.
    fn collect_pending(&self, cursor: u64, limit: u32) -> (r: Vec<Verification>)
        requires
            self.wf(),
        ensures
            views(r@) == pending_page(self@, cursor, limit),
    {
        let ghost keys = self@.pending;
        let ghost s = self@;
        proof {
            storage::lemma_pending_distinct(&self.storage);
        }
        let mut result: Vec<Verification> = Vec::new();
        let state = storage::read_pending_list(&self.storage);
        let mut current = state.head;
        let mut collected: u32 = 0;
        let ghost mut i: int = 0;
        assert(keys.take(0) =~= Seq::<VerificationKey>::empty());
        assert(views(result@) =~= Seq::<VerificationView>::empty());
        while collected < limit
            invariant
                self.wf(),
                keys == self@.pending,
                s == self@,
                keys.no_duplicates(),
                0 <= i <= keys.len(),
                current == if i < keys.len() {
                    Some(keys[i])
                } else {
                    None::<VerificationKey>
                },
                views(result@) == pending_after(s, keys.take(i), cursor),
                collected == result@.len(),
                collected <= limit,
            ensures
                collected == limit || i == keys.len(),
            decreases keys.len() - i,
        {
            let key = match current {
                Some(k) => k,
                None => {
                    break;
                },
            };
            let ghost before = result@;
            assert(keys.take(i + 1).drop_last() =~= keys.take(i));
            if let Some(v) = storage::read_verification(&self.storage, key.task_id, key.user) {
                if v.seq > cursor {
                    result.push(v);
                    collected = collected + 1;
                    assert(views(result@) =~= views(before).push(result@.last()@));
                }
            }
            assert(keys.contains(key));
            current = storage::read_pending_node_next(&self.storage, key);
            proof {
                i = i + 1;
            }
        }
        proof {
            lemma_pending_after_prefix(s, keys, i, cursor);
            if i == keys.len() {
                assert(keys.take(i) =~= keys);
            }
        }
        result
    }

    /// Up to `limit` pending verifications with a sequence number above
    /// `cursor`, oldest first. A page's last sequence number is the cursor
    /// of the next page.
    pub fn get_pending_verifications_paged(&self, e: &Env, cursor: u64, limit: u32) -> (r: Vec<Verification>)
        requires
            self.wf(),
        ensures
            views(r@) == pending_page(self@, cursor, limit),
    {
        self.collect_pending(cursor, limit)
    }

    /// Every pending verification, oldest first.
    pub fn get_pending_verifications(&self, e: &Env) -> (r: Vec<Verification>)
        requires
            self.wf(),
        ensures
            views(r@) == pending_page(self@, 0, u32::MAX),
    {
        self.collect_pending(0, u32::MAX)
    }

    /// `user`'s verifications at positions `cursor` to `cursor + limit` of
    /// their history, in submission order.
    pub fn get_verifications_by_user(&self, e: &Env, user: Address, cursor: u32, limit: u32) -> (r: Vec<
        Verification,
    >)
        requires
            self.wf(),
        ensures
            views(r@) == user_page(self@, user, cursor, limit),
    {
        let ghost ids = self@.history_of(user);
        let count = storage::read_user_verification_count(&self.storage, user);
        let start: u64 = if (cursor as u64) < count {
            cursor as u64
        } else {
            count
        };
        let end: u64 = if (limit as u64) <= count - start {
            start + limit as u64
        } else {
            count
        };
        let mut result: Vec<Verification> = Vec::new();
        let mut seq: u64 = start;
        assert(ids.subrange(start as int, start as int) =~= Seq::<u64>::empty());
        assert(views(result@) =~= Seq::<VerificationView>::empty());
        while seq < end
            invariant
                self.wf(),
                ids == self@.history_of(user),
                count == ids.len(),
                start <= seq <= end <= count,
                views(result@) == user_views(self@, user, ids.subrange(start as int, seq as int)),
            decreases end - seq,
        {
            let ghost before = result@;
            proof {
                lemma_user_views_step(self@, user, ids.subrange(start as int, end as int), seq - start);
                assert(ids.subrange(start as int, end as int).take(seq - start) =~= ids.subrange(
                    start as int,
                    seq as int,
                ));
                assert(ids.subrange(start as int, end as int).take(seq - start + 1) =~= ids.subrange(
                    start as int,
                    seq + 1,
                ));
            }
            if let Some(task_id) = storage::read_user_verification_task(&self.storage, user, seq) {
                if let Some(v) = storage::read_verification(&self.storage, task_id, user) {
                    result.push(v);
                    assert(views(result@) =~= views(before).push(result@.last()@));
                }
            }
            seq = seq + 1;
        }
        result
    }
}

} // verus!
