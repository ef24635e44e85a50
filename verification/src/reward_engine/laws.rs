//! Properties of the engine that span calls, and of the way it drives the
//! registry and the token.
use vstd::prelude::*;
use crate::ecotask_types::TaskStatus;
use crate::env::{Address, Env};
use crate::eco_token::storage::TokenState;
use crate::reward_engine::storage::{CidHash, EngineState, VerificationKey, VerificationStatus};
use crate::reward_engine::verification::{
    accept_admin_step, add_oracle_step, admin_set_step, approve_proof_step, cooldown_active,
    dispute_proof_step, initialize_step, payout_step, propose_admin_step, reject_proof_step,
    remove_oracle_step, resolve_dispute_step, set_oracle_step, set_reward_range_step,
    submit_proof_step, engine_valid, pending_after, pending_page, user_page, user_views, EngineError,
    RewardPaidEvent,
};
use crate::task_registry::storage::{CompletionKey, RegistryState};
use crate::map_sum::{lemma_map_sum_insert, map_sum};
use crate::reward_engine::storage::VerificationView;

verus! {

/// An approval that succeeds mints exactly the approved amount to the user,
/// raises the engine's total paid by the same amount, records the user's
/// completion of the task in the registry and marks the verification
/// approved with that amount.
pub proof fn approval_pays_exactly(
    s: EngineState,
    reg: RegistryState,
    tok: TokenState,
    e: Env,
    engine: Address,
    oracle: Address,
    user: Address,
    task_id: u64,
    amount: i128,
)
    requires
        engine_valid(s),
        approve_proof_step(s, reg, tok, e, engine, oracle, user, task_id, amount).3 is Ok,
    ensures
        ({
            let (s1, reg1, tok1, _r) = approve_proof_step(s, reg, tok, e, engine, oracle, user, task_id, amount);
            let key = VerificationKey { task_id, user };
            &&& tok1.supply == tok.supply + amount
            &&& tok1.balance(user) == tok.balance(user) + amount
            &&& s1.total_paid == s.total_paid + amount
            &&& tok1.supply - tok.supply == s1.total_paid - s.total_paid
            &&& !reg.completions.contains(CompletionKey { task_id, user })
            &&& reg1.completions == reg.completions.insert(CompletionKey { task_id, user })
            &&& s1.verifications[key].status == VerificationStatus::Approved
            &&& s1.verifications[key].reward_amount == amount
            &&& !s1.pending.contains(key)
        }),
{
    let key = VerificationKey { task_id, user };
    s.pending.index_of_first_ensures(key);
    lemma_remove_value_drops(s.pending, key);
}

/// An approving dispute resolution pays exactly as an approval does.
pub proof fn dispute_approval_pays_exactly(
    s: EngineState,
    reg: RegistryState,
    tok: TokenState,
    e: Env,
    engine: Address,
    caller: Address,
    user: Address,
    task_id: u64,
    amount: i128,
)
    requires
        resolve_dispute_step(s, reg, tok, e, engine, caller, user, task_id, true, amount).3 is Ok,
    ensures
        ({
            let (s1, reg1, tok1, r) = resolve_dispute_step(s, reg, tok, e, engine, caller, user, task_id, true, amount);
            let key = VerificationKey { task_id, user };
            &&& tok1.supply == tok.supply + amount
            &&& tok1.balance(user) == tok.balance(user) + amount
            &&& s1.total_paid == s.total_paid + amount
            &&& reg1.completions == reg.completions.insert(CompletionKey { task_id, user })
            &&& s1.verifications[key].status == VerificationStatus::Approved
            &&& s1.verifications[key].reward_amount == amount
            &&& r->Ok_0.reward_amount == amount
        }),
{
}

/// Rejecting a dispute pays nothing and touches neither the registry nor
/// the token.
pub proof fn dispute_rejection_pays_nothing(
    s: EngineState,
    reg: RegistryState,
    tok: TokenState,
    e: Env,
    engine: Address,
    caller: Address,
    user: Address,
    task_id: u64,
    amount: i128,
)
    requires
        resolve_dispute_step(s, reg, tok, e, engine, caller, user, task_id, false, amount).3 is Ok,
    ensures
        ({
            let (s1, reg1, tok1, r) = resolve_dispute_step(s, reg, tok, e, engine, caller, user, task_id, false, amount);
            &&& reg1 == reg
            &&& tok1 == tok
            &&& s1.total_paid == s.total_paid
            &&& s1.verifications[VerificationKey { task_id, user }].status == VerificationStatus::Rejected
            &&& r->Ok_0.reward_amount == 0
        }),
{
}

/// A reward is paid only within the engine's bounds and the task's budget,
/// to a user who has not completed the task, for a task that is active and
/// not past its deadline, and outside the user's cooldown.
pub proof fn paid_rewards_respect_bounds(
    s: EngineState,
    reg: RegistryState,
    tok: TokenState,
    e: Env,
    engine: Address,
    user: Address,
    task_id: u64,
    amount: i128,
)
    requires
        payout_step(s, reg, tok, e, engine, user, task_id, amount).3 is Ok,
    ensures
        amount > 0,
        s.min_reward matches Some(min) ==> min <= amount,
        s.max_reward matches Some(max) ==> amount <= max,
        reg.tasks.contains_key(task_id),
        amount <= reg.tasks[task_id].reward_amount,
        reg.tasks[task_id].status == TaskStatus::Active,
        reg.tasks[task_id].expires_at >= e.timestamp,
        reg.tasks[task_id].completions < reg.tasks[task_id].max_completions,
        !reg.completions.contains(CompletionKey { task_id, user }),
        !cooldown_active(s, e, user),
{
}

/// After a user is paid, no second payout to them succeeds until the
/// cooldown's ledgers have passed.
pub proof fn rewards_respect_cooldown(
    s: EngineState,
    reg: RegistryState,
    tok: TokenState,
    e1: Env,
    e2: Env,
    engine: Address,
    user: Address,
    task1: u64,
    task2: u64,
    amount1: i128,
    amount2: i128,
)
    requires
        payout_step(s, reg, tok, e1, engine, user, task1, amount1).3 is Ok,
        s.user_cooldown > 0,
        e1.sequence <= e2.sequence < e1.sequence + s.user_cooldown,
    ensures
        ({
            let (s1, reg1, tok1, _r) = payout_step(s, reg, tok, e1, engine, user, task1, amount1);
            payout_step(s1, reg1, tok1, e2, engine, user, task2, amount2).3 is Err
        }),
{
    let s1 = payout_step(s, reg, tok, e1, engine, user, task1, amount1).0;
    assert(cooldown_active(s1, e2, user));
}

/// An approval is paid whenever every rule allows it: an unpaused engine, a
/// registered oracle that authorizes the call, a pending verification, a
/// positive reward within the engine's bounds and the task's budget, an
/// active task up to and including its deadline with a free slot, creator
/// still holding a role and no completion yet by the user, a user out of
/// cooldown, an engine that is admin or sponsor in the registry, a minter
/// that authorizes or is the engine, a mint that keeps the token within its
/// cap and `i128`, and a total paid that stays within `i128`.
pub proof fn approval_succeeds_when_every_rule_allows(
    s: EngineState,
    reg: RegistryState,
    tok: TokenState,
    e: Env,
    engine: Address,
    oracle: Address,
    user: Address,
    task_id: u64,
    amount: i128,
)
    requires
        !s.paused,
        e.authorizes(oracle),
        s.oracles.contains(oracle),
        s.verifications.contains_key(VerificationKey { task_id, user }),
        s.verifications[VerificationKey { task_id, user }].status == VerificationStatus::Pending,
        0 < amount,
        s.min_reward is Some ==> s.min_reward.unwrap() <= amount,
        s.max_reward is Some ==> amount <= s.max_reward.unwrap(),
        reg.admin is Some,
        reg.tasks.contains_key(task_id),
        reg.tasks[task_id].status == TaskStatus::Active,
        e.timestamp <= reg.tasks[task_id].expires_at,
        amount <= reg.tasks[task_id].reward_amount,
        reg.tasks[task_id].completions < reg.tasks[task_id].max_completions,
        reg.tasks[task_id].creator == reg.admin.unwrap() || reg.sponsors.contains(
            reg.tasks[task_id].creator,
        ),
        !reg.completions.contains(CompletionKey { task_id, user }),
        engine == reg.admin.unwrap() || reg.sponsors.contains(engine),
        s.user_cooldown == 0 || !s.last_reward_ledger.contains_key(user)
            || s.last_reward_ledger[user] + s.user_cooldown <= e.sequence,
        tok.minter is Some,
        e.authorizes(tok.minter.unwrap()) || tok.minter.unwrap() == engine,
        tok.max_supply is Some ==> tok.supply + amount <= tok.max_supply.unwrap(),
        tok.balance(user) + amount <= i128::MAX,
        tok.supply + amount <= i128::MAX,
        s.total_paid + amount <= i128::MAX,
    ensures
        approve_proof_step(s, reg, tok, e, engine, oracle, user, task_id, amount).3
            == Ok::<RewardPaidEvent, EngineError>(
            RewardPaidEvent { oracle, user, task_id, amount },
        ),
{
}

/// A registered oracle that authorizes the call may submit a proof for any
/// task and user that have none yet, with a CID of 1 to `MAX_CID_LEN` bytes
/// whose hash no earlier proof used, while the engine is not paused: the
/// submission succeeds.
pub proof fn submission_succeeds_when_every_rule_allows(
    s: EngineState,
    e: Env,
    oracle: Address,
    user: Address,
    task_id: u64,
    cid: Seq<u8>,
    cid_hash: CidHash,
)
    requires
        !s.paused,
        e.authorizes(oracle),
        s.oracles.contains(oracle),
        0 < cid.len() <= crate::reward_engine::verification::MAX_CID_LEN,
        !s.verifications.contains_key(VerificationKey { task_id, user }),
        !s.cid_index.contains_key(cid_hash),
    ensures
        submit_proof_step(s, e, oracle, user, task_id, cid, cid_hash).1 == Ok::<
            crate::reward_engine::verification::ProofSubmittedEvent,
            EngineError,
        >(crate::reward_engine::verification::ProofSubmittedEvent { oracle, user, task_id }),
{
}

/// Settling a proof succeeds whenever its rules allow it, on an unpaused
/// engine: a registered oracle that authorizes may reject a pending proof;
/// the admin, authorizing, may dispute a pending or rejected proof and may
/// resolve a disputed one by rejecting it. Each marks the verification with
/// the new status.
pub proof fn settling_succeeds_when_its_rules_allow(
    s: EngineState,
    reg: RegistryState,
    tok: TokenState,
    e: Env,
    engine: Address,
    caller: Address,
    user: Address,
    task_id: u64,
    amount: i128,
)
    requires
        !s.paused,
        e.authorizes(caller),
        s.verifications.contains_key(VerificationKey { task_id, user }),
    ensures
        ({
            let key = VerificationKey { task_id, user };
            let (s1, r) = reject_proof_step(s, e, caller, user, task_id);
            s.oracles.contains(caller) && s.verifications[key].status == VerificationStatus::Pending
                ==> r is Ok && s1.verifications[key].status == VerificationStatus::Rejected
        }),
        ({
            let key = VerificationKey { task_id, user };
            let status = s.verifications[key].status;
            let (s1, r) = dispute_proof_step(s, e, caller, user, task_id);
            s.admin == Some(caller) && (status == VerificationStatus::Pending || status
                == VerificationStatus::Rejected) ==> r is Ok && s1.verifications[key].status
                == VerificationStatus::Disputed
        }),
        ({
            let key = VerificationKey { task_id, user };
            let (s1, _reg1, _tok1, r) = resolve_dispute_step(
                s,
                reg,
                tok,
                e,
                engine,
                caller,
                user,
                task_id,
                false,
                amount,
            );
            s.admin == Some(caller) && s.verifications[key].status == VerificationStatus::Disputed
                ==> r is Ok && s1.verifications[key].status == VerificationStatus::Rejected
        }),
{
}

/// The cooldown is kept per user. A user is in cooldown exactly when a
/// cooldown is set, the user has been rewarded before, and fewer than the
/// cooldown's ledgers have passed since that user's own last reward. An
/// approval that pays `user` records the ledger of the payout under `user`
/// and no other address, so it never puts another user into cooldown: a
/// later payout to `other` is refused for the cooldown only if `other`'s own
/// earlier reward already called for it, and never for a user who was not
/// rewarded before.
pub proof fn cooldown_is_per_user(
    s: EngineState,
    reg: RegistryState,
    tok: TokenState,
    e: Env,
    e2: Env,
    engine: Address,
    oracle: Address,
    user: Address,
    other: Address,
    task_id: u64,
    task2: u64,
    amount: i128,
    amount2: i128,
    reg2: RegistryState,
    tok2: TokenState,
)
    ensures
        cooldown_active(s, e2, other) <==> {
            &&& s.user_cooldown != 0
            &&& s.last_reward_ledger.contains_key(other)
            &&& e2.sequence < s.last_reward_ledger[other] + s.user_cooldown
        },
        ({
            let (s1, _reg1, _tok1, r) = payout_step(s, reg, tok, e, engine, user, task_id, amount);
            r is Ok ==> s1.last_reward_ledger == s.last_reward_ledger.insert(
                user,
                e.sequence as u64,
            )
        }),
        ({
            let (s1, _reg1, _tok1, r) = approve_proof_step(
                s,
                reg,
                tok,
                e,
                engine,
                oracle,
                user,
                task_id,
                amount,
            );
            r is Ok ==> s1.last_reward_ledger == s.last_reward_ledger.insert(
                user,
                e.sequence as u64,
            )
        }),
        ({
            let s1 = approve_proof_step(s, reg, tok, e, engine, oracle, user, task_id, amount).0;
            let r = approve_proof_step(
                s,
                reg,
                tok,
                e,
                engine,
                oracle,
                user,
                task_id,
                amount,
            ).3;
            r is Ok && other != user && payout_step(s1, reg2, tok2, e2, engine, other, task2, amount2).3
                == Err::<(), EngineError>(EngineError::CooldownActive) ==> {
                &&& s.user_cooldown != 0
                &&& s.last_reward_ledger.contains_key(other)
                &&& e2.sequence < s.last_reward_ledger[other] + s.user_cooldown
            }
        }),
{
}

/// A submitted proof reads back: its verification is stored under its task
/// and user with the CID, the submitting oracle, the submission time and the
/// next sequence number, it is pending and last on the pending list, and
/// the CID's hash finds it.
pub proof fn submitted_proof_reads_back(
    s: EngineState,
    e: Env,
    oracle: Address,
    user: Address,
    task_id: u64,
    cid: Seq<u8>,
    h: CidHash,
)
    requires
        submit_proof_step(s, e, oracle, user, task_id, cid, h).1 is Ok,
        s.verification_seq < u64::MAX,
    ensures
        submit_proof_step(s, e, oracle, user, task_id, cid, h).0.cid_index.contains_key(h),
        ({
            let t = submit_proof_step(s, e, oracle, user, task_id, cid, h).0;
            let key = VerificationKey { task_id, user };
            &&& t.cid_index[h] == key
            &&& t.verifications.contains_key(key)
            &&& t.verifications[key].proof_cid == cid
            &&& t.verifications[key].oracle == oracle
            &&& t.verifications[key].submitted_at == e.timestamp
            &&& t.verifications[key].status == VerificationStatus::Pending
            &&& t.verifications[key].seq == s.verification_seq + 1
        }),
        submit_proof_step(s, e, oracle, user, task_id, cid, h).0.pending.last() == (VerificationKey {
            task_id,
            user,
        }),
        submit_proof_step(s, e, oracle, user, task_id, cid, h).0.history_of(user).last() == task_id,
{
}

/// A settled verification stays settled: an approved one can be neither
/// approved, rejected, disputed nor resolved again, so a proof is paid at
/// most once; a rejected one can only be disputed; a disputed one can only
/// be resolved.
pub proof fn settled_verifications_stay_settled(
    s: EngineState,
    reg: RegistryState,
    tok: TokenState,
    e: Env,
    engine: Address,
    caller: Address,
    user: Address,
    task_id: u64,
    approve: bool,
    amount: i128,
)
    requires
        s.verifications.contains_key(VerificationKey { task_id, user }),
        s.verifications[VerificationKey { task_id, user }].status != VerificationStatus::Pending,
    ensures
        approve_proof_step(s, reg, tok, e, engine, caller, user, task_id, amount).3 is Err,
        reject_proof_step(s, e, caller, user, task_id).1 is Err,
        s.verifications[VerificationKey { task_id, user }].status == VerificationStatus::Approved
            ==> dispute_proof_step(s, e, caller, user, task_id).1 is Err,
        s.verifications[VerificationKey { task_id, user }].status != VerificationStatus::Disputed
            ==> resolve_dispute_step(s, reg, tok, e, engine, caller, user, task_id, approve, amount).3 is Err,
        s.verifications[VerificationKey { task_id, user }].status == VerificationStatus::Disputed
            ==> dispute_proof_step(s, e, caller, user, task_id).1 is Err,
{
}

/// A paused engine refuses every proof operation and changes nothing.
pub proof fn paused_engine_refuses_proofs(
    s: EngineState,
    reg: RegistryState,
    tok: TokenState,
    e: Env,
    engine: Address,
    caller: Address,
    user: Address,
    task_id: u64,
    cid: Seq<u8>,
    cid_hash: CidHash,
    approve: bool,
    amount: i128,
)
    requires
        s.paused,
    ensures
        submit_proof_step(s, e, caller, user, task_id, cid, cid_hash) == (s, Err::<
            crate::reward_engine::verification::ProofSubmittedEvent,
            EngineError,
        >(EngineError::Paused)),
        approve_proof_step(s, reg, tok, e, engine, caller, user, task_id, amount) == (
            s,
            reg,
            tok,
            Err::<crate::reward_engine::verification::RewardPaidEvent, EngineError>(EngineError::Paused),
        ),
        reject_proof_step(s, e, caller, user, task_id) == (s, Err::<
            crate::reward_engine::verification::ProofRejectedEvent,
            EngineError,
        >(EngineError::Paused)),
        dispute_proof_step(s, e, caller, user, task_id) == (s, Err::<
            crate::reward_engine::verification::DisputeRaisedEvent,
            EngineError,
        >(EngineError::Paused)),
        resolve_dispute_step(s, reg, tok, e, engine, caller, user, task_id, approve, amount) == (
            s,
            reg,
            tok,
            Err::<crate::reward_engine::verification::DisputeResolvedEvent, EngineError>(EngineError::Paused),
        ),
{
}

/// `t` keeps every CID hash that `s` has indexed, pointing at the same
/// verification.
pub open spec fn keeps_cid_index(s: EngineState, t: EngineState) -> bool {
    forall|h: CidHash| #[trigger]
        s.cid_index.contains_key(h) ==> t.cid_index.contains_key(h) && t.cid_index[h] == s.cid_index[h]
}

/// `t` keeps every verification that `s` has, filed under the same task,
/// user, proof and sequence number.
pub open spec fn keeps_verifications(s: EngineState, t: EngineState) -> bool {
    forall|k: VerificationKey| #[trigger]
        s.verifications.contains_key(k) ==> {
            &&& t.verifications.contains_key(k)
            &&& t.verifications[k].proof_cid == s.verifications[k].proof_cid
            &&& t.verifications[k].seq == s.verifications[k].seq
            &&& t.verifications[k].oracle == s.verifications[k].oracle
        }
}

/// Once submitted, a CID is never accepted again and a task and user never
/// get a second verification: no entry point forgets an indexed CID hash or
/// a verification, and `submit_proof` refuses a hash that is indexed and a
/// task and user that already have a verification.
pub proof fn proofs_are_never_resubmitted(
    s: EngineState,
    reg: RegistryState,
    tok: TokenState,
    e: Env,
    engine: Address,
    a: Address,
    b: Address,
    c: Address,
    d: Address,
    task_id: u64,
    cid: Seq<u8>,
    h: CidHash,
    approve: bool,
    amount: i128,
    min: i128,
    max: i128,
    ledgers: u64,
    flag: bool,
)
    ensures
        s.cid_index.contains_key(h) ==> submit_proof_step(s, e, a, b, task_id, cid, h).1 is Err,
        s.verifications.contains_key(VerificationKey { task_id, user: b }) ==> submit_proof_step(
            s,
            e,
            a,
            b,
            task_id,
            cid,
            h,
        ).1 is Err,
        keeps_cid_index(s, submit_proof_step(s, e, a, b, task_id, cid, h).0),
        keeps_cid_index(s, approve_proof_step(s, reg, tok, e, engine, a, b, task_id, amount).0),
        keeps_cid_index(s, reject_proof_step(s, e, a, b, task_id).0),
        keeps_cid_index(s, dispute_proof_step(s, e, a, b, task_id).0),
        keeps_cid_index(s, resolve_dispute_step(s, reg, tok, e, engine, a, b, task_id, approve, amount).0),
        keeps_cid_index(s, initialize_step(s, a, b, c, d).0),
        keeps_cid_index(s, set_oracle_step(s, e, a, b).0),
        keeps_cid_index(s, add_oracle_step(s, e, a, b).0),
        keeps_cid_index(s, remove_oracle_step(s, e, a, b).0),
        keeps_cid_index(s, set_reward_range_step(s, e, a, min, max).0),
        keeps_cid_index(s, admin_set_step(s, e, a, EngineState { token: Some(b), ..s }).0),
        keeps_cid_index(s, admin_set_step(s, e, a, EngineState { registry: Some(b), ..s }).0),
        keeps_cid_index(s, admin_set_step(s, e, a, EngineState { user_cooldown: ledgers, ..s }).0),
        keeps_cid_index(s, admin_set_step(s, e, a, EngineState { paused: flag, ..s }).0),
        keeps_cid_index(s, propose_admin_step(s, e, a, b).0),
        keeps_cid_index(s, accept_admin_step(s, e, a).0),
        keeps_verifications(s, submit_proof_step(s, e, a, b, task_id, cid, h).0),
        keeps_verifications(s, approve_proof_step(s, reg, tok, e, engine, a, b, task_id, amount).0),
        keeps_verifications(s, reject_proof_step(s, e, a, b, task_id).0),
        keeps_verifications(s, dispute_proof_step(s, e, a, b, task_id).0),
        keeps_verifications(s, resolve_dispute_step(s, reg, tok, e, engine, a, b, task_id, approve, amount).0),
        keeps_verifications(s, initialize_step(s, a, b, c, d).0),
        keeps_verifications(s, set_oracle_step(s, e, a, b).0),
        keeps_verifications(s, add_oracle_step(s, e, a, b).0),
        keeps_verifications(s, remove_oracle_step(s, e, a, b).0),
        keeps_verifications(s, set_reward_range_step(s, e, a, min, max).0),
        keeps_verifications(s, admin_set_step(s, e, a, EngineState { token: Some(b), ..s }).0),
        keeps_verifications(s, admin_set_step(s, e, a, EngineState { registry: Some(b), ..s }).0),
        keeps_verifications(s, admin_set_step(s, e, a, EngineState { user_cooldown: ledgers, ..s }).0),
        keeps_verifications(s, admin_set_step(s, e, a, EngineState { paused: flag, ..s }).0),
        keeps_verifications(s, propose_admin_step(s, e, a, b).0),
        keeps_verifications(s, accept_admin_step(s, e, a).0),
{
}

/// What an approved verification paid; nothing for any other.
pub open spec fn paid_amount() -> spec_fn(VerificationView) -> int {
    |v: VerificationView|
        if v.status == VerificationStatus::Approved {
            v.reward_amount as int
        } else {
            0
        }
}

/// The total paid is the sum of the rewards of the approved verifications,
/// each of them positive.
pub open spec fn total_paid_is_sum_of_rewards(s: EngineState) -> bool {
    &&& s.verifications.dom().finite()
    &&& forall|k: VerificationKey| #[trigger]
        s.verifications.contains_key(k) ==> (s.verifications[k].status == VerificationStatus::Approved
            ==> s.verifications[k].reward_amount > 0)
    &&& s.total_paid == map_sum(s.verifications, paid_amount())
}

/// A fresh engine has paid nothing and approved nothing.
pub proof fn fresh_engine_total_paid_is_sum_of_rewards(s: EngineState)
    requires
        s.verifications == Map::<VerificationKey, VerificationView>::empty(),
        s.total_paid == 0,
    ensures
        total_paid_is_sum_of_rewards(s),
{
    assert(s.verifications.dom() =~= Set::<VerificationKey>::empty());
}

/// Replacing a verification whose status is not approved by one with status
/// `v.status` adds `v`'s reward when `v` is approved, nothing otherwise.
proof fn lemma_settle_sum(s: EngineState, key: VerificationKey, v: VerificationView)
    requires
        total_paid_is_sum_of_rewards(s),
        s.verifications.contains_key(key),
        s.verifications[key].status != VerificationStatus::Approved,
        v.status == VerificationStatus::Approved ==> v.reward_amount > 0,
    ensures
        s.verifications.insert(key, v).dom().finite(),
        map_sum(s.verifications.insert(key, v), paid_amount()) == s.total_paid + (paid_amount())(v),
        forall|k: VerificationKey| #[trigger]
            s.verifications.insert(key, v).contains_key(k) ==> (s.verifications.insert(key, v)[k].status
                == VerificationStatus::Approved ==> s.verifications.insert(key, v)[k].reward_amount > 0),
{
    lemma_map_sum_insert(s.verifications, paid_amount(), key, v);
}

/// The total paid is always the sum of the approved rewards, each positive,
/// and it never goes down: every entry point keeps that, approvals adding
/// exactly their reward and every other call adding nothing.
pub proof fn total_paid_stays_sum_of_rewards(
    s: EngineState,
    reg: RegistryState,
    tok: TokenState,
    e: Env,
    engine: Address,
    a: Address,
    b: Address,
    c: Address,
    d: Address,
    task_id: u64,
    cid: Seq<u8>,
    h: CidHash,
    approve: bool,
    amount: i128,
    min: i128,
    max: i128,
    ledgers: u64,
    flag: bool,
)
    requires
        total_paid_is_sum_of_rewards(s),
    ensures
        total_paid_is_sum_of_rewards(submit_proof_step(s, e, a, b, task_id, cid, h).0),
        total_paid_is_sum_of_rewards(approve_proof_step(s, reg, tok, e, engine, a, b, task_id, amount).0),
        total_paid_is_sum_of_rewards(reject_proof_step(s, e, a, b, task_id).0),
        total_paid_is_sum_of_rewards(dispute_proof_step(s, e, a, b, task_id).0),
        total_paid_is_sum_of_rewards(resolve_dispute_step(s, reg, tok, e, engine, a, b, task_id, approve, amount).0),
        submit_proof_step(s, e, a, b, task_id, cid, h).0.total_paid == s.total_paid,
        approve_proof_step(s, reg, tok, e, engine, a, b, task_id, amount).0.total_paid >= s.total_paid,
        reject_proof_step(s, e, a, b, task_id).0.total_paid == s.total_paid,
        dispute_proof_step(s, e, a, b, task_id).0.total_paid == s.total_paid,
        resolve_dispute_step(s, reg, tok, e, engine, a, b, task_id, approve, amount).0.total_paid
            >= s.total_paid,
        !approve ==> resolve_dispute_step(s, reg, tok, e, engine, a, b, task_id, approve, amount).0.total_paid
            == s.total_paid,
        initialize_step(s, a, b, c, d).0.total_paid == s.total_paid,
        initialize_step(s, a, b, c, d).0.verifications == s.verifications,
        set_oracle_step(s, e, a, b).0 == (EngineState { oracles: set_oracle_step(s, e, a, b).0.oracles, ..s }),
        add_oracle_step(s, e, a, b).0 == (EngineState { oracles: add_oracle_step(s, e, a, b).0.oracles, ..s }),
        remove_oracle_step(s, e, a, b).0 == (EngineState {
            oracles: remove_oracle_step(s, e, a, b).0.oracles,
            ..s
        }),
        set_reward_range_step(s, e, a, min, max).0.total_paid == s.total_paid,
        set_reward_range_step(s, e, a, min, max).0.verifications == s.verifications,
        admin_set_step(s, e, a, EngineState { token: Some(b), ..s }).0.total_paid == s.total_paid,
        admin_set_step(s, e, a, EngineState { token: Some(b), ..s }).0.verifications == s.verifications,
        admin_set_step(s, e, a, EngineState { registry: Some(b), ..s }).0.total_paid == s.total_paid,
        admin_set_step(s, e, a, EngineState { registry: Some(b), ..s }).0.verifications == s.verifications,
        admin_set_step(s, e, a, EngineState { user_cooldown: ledgers, ..s }).0.total_paid == s.total_paid,
        admin_set_step(s, e, a, EngineState { user_cooldown: ledgers, ..s }).0.verifications
            == s.verifications,
        admin_set_step(s, e, a, EngineState { paused: flag, ..s }).0.total_paid == s.total_paid,
        admin_set_step(s, e, a, EngineState { paused: flag, ..s }).0.verifications == s.verifications,
        propose_admin_step(s, e, a, b).0.total_paid == s.total_paid,
        propose_admin_step(s, e, a, b).0.verifications == s.verifications,
        accept_admin_step(s, e, a).0.total_paid == s.total_paid,
        accept_admin_step(s, e, a).0.verifications == s.verifications,
{
    let key = VerificationKey { task_id, user: b };
    if submit_proof_step(s, e, a, b, task_id, cid, h).1 is Ok {
        lemma_map_sum_insert(
            s.verifications,
            paid_amount(),
            key,
            crate::reward_engine::verification::submitted(s, e, a, b, task_id, cid),
        );
    }
    if s.verifications.contains_key(key) {
        let v = s.verifications[key];
        if approve_proof_step(s, reg, tok, e, engine, a, b, task_id, amount).3 is Ok {
            lemma_settle_sum(
                s,
                key,
                VerificationView {
                    status: VerificationStatus::Approved,
                    reward_amount: amount,
                    resolved_at: Some(e.timestamp),
                    ..v
                },
            );
        }
        if reject_proof_step(s, e, a, b, task_id).1 is Ok {
            lemma_settle_sum(
                s,
                key,
                VerificationView { status: VerificationStatus::Rejected, resolved_at: Some(e.timestamp), ..v },
            );
        }
        if dispute_proof_step(s, e, a, b, task_id).1 is Ok {
            lemma_settle_sum(s, key, VerificationView { status: VerificationStatus::Disputed, ..v });
        }
        if resolve_dispute_step(s, reg, tok, e, engine, a, b, task_id, approve, amount).3 is Ok {
            if approve {
                lemma_settle_sum(
                    s,
                    key,
                    VerificationView {
                        status: VerificationStatus::Approved,
                        reward_amount: amount,
                        resolved_at: Some(e.timestamp),
                        ..v
                    },
                );
            } else {
                lemma_settle_sum(
                    s,
                    key,
                    VerificationView {
                        status: VerificationStatus::Rejected,
                        resolved_at: Some(e.timestamp),
                        ..v
                    },
                );
            }
        }
    }
}

/// The pause flag changes only through `pause` and `unpause`: every other
/// entry point keeps it, and a successful `pause` or `unpause` sets it.
pub proof fn pause_flag_persists(
    s: EngineState,
    reg: RegistryState,
    tok: TokenState,
    e: Env,
    engine: Address,
    a: Address,
    b: Address,
    c: Address,
    d: Address,
    task_id: u64,
    cid: Seq<u8>,
    h: CidHash,
    approve: bool,
    amount: i128,
    min: i128,
    max: i128,
    ledgers: u64,
    flag: bool,
)
    ensures
        submit_proof_step(s, e, a, b, task_id, cid, h).0.paused == s.paused,
        approve_proof_step(s, reg, tok, e, engine, a, b, task_id, amount).0.paused == s.paused,
        reject_proof_step(s, e, a, b, task_id).0.paused == s.paused,
        dispute_proof_step(s, e, a, b, task_id).0.paused == s.paused,
        resolve_dispute_step(s, reg, tok, e, engine, a, b, task_id, approve, amount).0.paused == s.paused,
        initialize_step(s, a, b, c, d).0.paused == s.paused,
        set_oracle_step(s, e, a, b).0.paused == s.paused,
        add_oracle_step(s, e, a, b).0.paused == s.paused,
        remove_oracle_step(s, e, a, b).0.paused == s.paused,
        set_reward_range_step(s, e, a, min, max).0.paused == s.paused,
        admin_set_step(s, e, a, EngineState { token: Some(b), ..s }).0.paused == s.paused,
        admin_set_step(s, e, a, EngineState { registry: Some(b), ..s }).0.paused == s.paused,
        admin_set_step(s, e, a, EngineState { user_cooldown: ledgers, ..s }).0.paused == s.paused,
        propose_admin_step(s, e, a, b).0.paused == s.paused,
        accept_admin_step(s, e, a).0.paused == s.paused,
        admin_set_step(s, e, a, EngineState { paused: flag, ..s }).1 is Ok ==> admin_set_step(
            s,
            e,
            a,
            EngineState { paused: flag, ..s },
        ).0.paused == flag,
        admin_set_step(s, e, a, EngineState { paused: flag, ..s }).1 is Err ==> admin_set_step(
            s,
            e,
            a,
            EngineState { paused: flag, ..s },
        ).0.paused == s.paused,
{
}

/// The CID hash `h` finds the verification of `user` for task `task_id`,
/// whose proof is `cid`.
pub open spec fn cid_finds(s: EngineState, h: CidHash, task_id: u64, user: Address, cid: Seq<u8>) -> bool {
    let key = VerificationKey { task_id, user };
    &&& s.cid_index.contains_key(h)
    &&& s.cid_index[h] == key
    &&& s.verifications.contains_key(key)
    &&& s.verifications[key].task_id == task_id
    &&& s.verifications[key].user == user
    &&& s.verifications[key].proof_cid == cid
}

/// Looking a proof up by its CID hash finds it for good: a successful
/// submission makes its hash find it, and no entry point, whatever its
/// arguments, makes a hash stop finding the proof it found.
pub proof fn cid_lookup_round_trips(
    s: EngineState,
    reg: RegistryState,
    tok: TokenState,
    e: Env,
    engine: Address,
    found_task: u64,
    found_user: Address,
    found_cid: Seq<u8>,
    found_hash: CidHash,
    a: Address,
    b: Address,
    c: Address,
    d: Address,
    task_id: u64,
    cid: Seq<u8>,
    h: CidHash,
    approve: bool,
    amount: i128,
    min: i128,
    max: i128,
    ledgers: u64,
    flag: bool,
)
    ensures
        submit_proof_step(s, e, a, b, task_id, cid, h).1 is Ok ==> cid_finds(
            submit_proof_step(s, e, a, b, task_id, cid, h).0,
            h,
            task_id,
            b,
            cid,
        ),
        cid_finds(s, found_hash, found_task, found_user, found_cid) ==> {
            &&& cid_finds(submit_proof_step(s, e, a, b, task_id, cid, h).0, found_hash, found_task, found_user, found_cid)
            &&& cid_finds(approve_proof_step(s, reg, tok, e, engine, a, b, task_id, amount).0, found_hash, found_task, found_user, found_cid)
            &&& cid_finds(reject_proof_step(s, e, a, b, task_id).0, found_hash, found_task, found_user, found_cid)
            &&& cid_finds(dispute_proof_step(s, e, a, b, task_id).0, found_hash, found_task, found_user, found_cid)
            &&& cid_finds(resolve_dispute_step(s, reg, tok, e, engine, a, b, task_id, approve, amount).0, found_hash, found_task, found_user, found_cid)
            &&& cid_finds(initialize_step(s, a, b, c, d).0, found_hash, found_task, found_user, found_cid)
            &&& cid_finds(set_oracle_step(s, e, a, b).0, found_hash, found_task, found_user, found_cid)
            &&& cid_finds(add_oracle_step(s, e, a, b).0, found_hash, found_task, found_user, found_cid)
            &&& cid_finds(remove_oracle_step(s, e, a, b).0, found_hash, found_task, found_user, found_cid)
            &&& cid_finds(set_reward_range_step(s, e, a, min, max).0, found_hash, found_task, found_user, found_cid)
            &&& cid_finds(admin_set_step(s, e, a, EngineState { token: Some(b), ..s }).0, found_hash, found_task, found_user, found_cid)
            &&& cid_finds(admin_set_step(s, e, a, EngineState { registry: Some(b), ..s }).0, found_hash, found_task, found_user, found_cid)
            &&& cid_finds(admin_set_step(s, e, a, EngineState { user_cooldown: ledgers, ..s }).0, found_hash, found_task, found_user, found_cid)
            &&& cid_finds(admin_set_step(s, e, a, EngineState { paused: flag, ..s }).0, found_hash, found_task, found_user, found_cid)
            &&& cid_finds(propose_admin_step(s, e, a, b).0, found_hash, found_task, found_user, found_cid)
            &&& cid_finds(accept_admin_step(s, e, a).0, found_hash, found_task, found_user, found_cid)
        },
{
}

/// A failed call changes nothing: not the engine, and for the calls that
/// pay, not the registry or the token either.
pub proof fn failed_calls_change_nothing(
    s: EngineState,
    reg: RegistryState,
    tok: TokenState,
    e: Env,
    engine: Address,
    a: Address,
    b: Address,
    c: Address,
    d: Address,
    task_id: u64,
    cid: Seq<u8>,
    h: CidHash,
    approve: bool,
    amount: i128,
    min: i128,
    max: i128,
)
    ensures
        approve_proof_step(s, reg, tok, e, engine, a, b, task_id, amount).3 is Err ==> {
            let (s1, reg1, tok1, _r) = approve_proof_step(s, reg, tok, e, engine, a, b, task_id, amount);
            s1 == s && reg1 == reg && tok1 == tok
        },
        resolve_dispute_step(s, reg, tok, e, engine, a, b, task_id, approve, amount).3 is Err ==> {
            let (s1, reg1, tok1, _r) = resolve_dispute_step(s, reg, tok, e, engine, a, b, task_id, approve, amount);
            s1 == s && reg1 == reg && tok1 == tok
        },
        submit_proof_step(s, e, a, b, task_id, cid, h).1 is Err ==> submit_proof_step(s, e, a, b, task_id, cid, h).0
            == s,
        reject_proof_step(s, e, a, b, task_id).1 is Err ==> reject_proof_step(s, e, a, b, task_id).0 == s,
        dispute_proof_step(s, e, a, b, task_id).1 is Err ==> dispute_proof_step(s, e, a, b, task_id).0 == s,
        initialize_step(s, a, b, c, d).1 is Err ==> initialize_step(s, a, b, c, d).0 == s,
        set_oracle_step(s, e, a, b).1 is Err ==> set_oracle_step(s, e, a, b).0 == s,
        add_oracle_step(s, e, a, b).1 is Err ==> add_oracle_step(s, e, a, b).0 == s,
        remove_oracle_step(s, e, a, b).1 is Err ==> remove_oracle_step(s, e, a, b).0 == s,
        set_reward_range_step(s, e, a, min, max).1 is Err ==> set_reward_range_step(s, e, a, min, max).0 == s,
        forall|next: EngineState| #[trigger] admin_set_step(s, e, a, next).1 is Err ==> admin_set_step(s, e, a, next).0 == s,
        propose_admin_step(s, e, a, b).1 is Err ==> propose_admin_step(s, e, a, b).0 == s,
        accept_admin_step(s, e, a).1 is Err ==> accept_admin_step(s, e, a).0 == s,
{
}

/// A proposal alone does not hand over the admin role; the proposed address
/// accepting it does, unless it is an oracle: an oracle is refused, so the
/// admin and the oracles stay different addresses.
pub proof fn admin_handover_takes_two_steps(s: EngineState, e1: Env, e2: Env, current: Address, proposed: Address)
    requires
        propose_admin_step(s, e1, current, proposed).1 is Ok,
        e2.authorizes(proposed),
    ensures
        propose_admin_step(s, e1, current, proposed).0.admin == s.admin,
        !s.oracles.contains(proposed) ==> {
            let t = accept_admin_step(propose_admin_step(s, e1, current, proposed).0, e2, proposed);
            &&& t.1 is Ok
            &&& t.0.admin == Some(proposed)
            &&& t.0.pending_admin is None
        },
        s.oracles.contains(proposed) ==> accept_admin_step(
            propose_admin_step(s, e1, current, proposed).0,
            e2,
            proposed,
        ) == (
            propose_admin_step(s, e1, current, proposed).0,
            Err::<crate::reward_engine::verification::AdminAcceptedEvent, EngineError>(
                EngineError::OracleMustDifferFromAdmin,
            ),
        ),
{
}

/// Pagination by sequence number is stable. A page holds pending
/// verifications with sequence numbers above the cursor, in increasing
/// order, and is the start of all of them; every pending verification above
/// the cursor is among them. So, whatever is approved, rejected or disputed
/// between two pages, a page never repeats what an earlier page returned
/// (those are at or below the next cursor) and never skips a verification
/// that is still pending (it is above the cursor, hence listed).
pub proof fn pending_pages_are_stable(s: EngineState, cursor: u64, limit: u32)
    requires
        engine_valid(s),
    ensures
        ({
            let all = pending_after(s, s.pending, cursor);
            let page = pending_page(s, cursor, limit);
            &&& page == all.take(page.len() as int)
            &&& page.len() == if all.len() <= limit {
                all.len()
            } else {
                limit as nat
            }
            &&& forall|i: int| 0 <= i < all.len() ==> #[trigger] all[i].seq > cursor
            &&& forall|i: int| 0 <= i < all.len() ==> #[trigger] all[i].status == VerificationStatus::Pending
            &&& forall|i: int, j: int| 0 <= i < j < all.len() ==> #[trigger] all[i].seq < #[trigger] all[j].seq
            &&& forall|k: VerificationKey|
                #![trigger s.pending.contains(k)]
                s.pending.contains(k) && s.verifications[k].seq > cursor ==> all.contains(s.verifications[k])
        }),
{
    let all = pending_after(s, s.pending, cursor);
    assert forall|i: int| 0 <= i < s.pending.len() implies s.verifications.contains_key(#[trigger] s.pending[i])
        && s.verifications[s.pending[i]].status == VerificationStatus::Pending by {
        assert(s.pending.contains(s.pending[i]));
    }
    lemma_pending_after_sorted(s, s.pending, cursor);
    assert forall|k: VerificationKey|
        #![trigger s.pending.contains(k)]
        s.pending.contains(k) && s.verifications[k].seq > cursor implies all.contains(s.verifications[k]) by {
        lemma_pending_after_complete(s, s.pending, cursor, k);
    }
    if all.len() <= limit {
        assert(all.take(all.len() as int) =~= all);
    }
}

/// Along keys in increasing order of sequence number, the stored
/// verifications above the cursor come out pending (when every key is) and
/// in increasing order, none above the last key's.
proof fn lemma_pending_after_sorted(s: EngineState, keys: Seq<VerificationKey>, cursor: u64)
    requires
        forall|i: int|
            0 <= i < keys.len() ==> s.verifications.contains_key(#[trigger] keys[i])
                && s.verifications[keys[i]].status == VerificationStatus::Pending,
        forall|i: int, j: int|
            0 <= i < j < keys.len() ==> s.verifications[#[trigger] keys[i]].seq < s.verifications[#[trigger] keys[j]].seq,
    ensures
        ({
            let all = pending_after(s, keys, cursor);
            &&& forall|i: int| 0 <= i < all.len() ==> #[trigger] all[i].seq > cursor
            &&& forall|i: int| 0 <= i < all.len() ==> #[trigger] all[i].status == VerificationStatus::Pending
            &&& forall|i: int, j: int| 0 <= i < j < all.len() ==> #[trigger] all[i].seq < #[trigger] all[j].seq
            &&& keys.len() > 0 ==> forall|i: int| 0 <= i < all.len() ==> #[trigger] all[i].seq <= s.verifications[keys.last()].seq
        }),
    decreases keys.len(),
{
    if keys.len() > 0 {
        let rest = keys.drop_last();
        assert forall|i: int| 0 <= i < rest.len() implies s.verifications.contains_key(#[trigger] rest[i])
            && s.verifications[rest[i]].status == VerificationStatus::Pending by {
            assert(rest[i] == keys[i]);
        }
        assert forall|i: int, j: int| 0 <= i < j < rest.len() implies s.verifications[#[trigger] rest[i]].seq < s.verifications[#[trigger] rest[j]].seq by {
            assert(rest[i] == keys[i] && rest[j] == keys[j]);
        }
        lemma_pending_after_sorted(s, rest, cursor);
        let last = keys.last();
        assert(s.verifications.contains_key(keys[keys.len() - 1]));
        if rest.len() > 0 {
            assert(s.verifications[rest.last()].seq < s.verifications[last].seq) by {
                assert(rest.last() == keys[keys.len() - 2]);
            }
        }
    }
}

/// Every key of `keys` whose stored verification is above the cursor has
/// that verification among the stored verifications of `keys` above it.
proof fn lemma_pending_after_complete(s: EngineState, keys: Seq<VerificationKey>, cursor: u64, k: VerificationKey)
    requires
        keys.contains(k),
        s.verifications.contains_key(k),
        s.verifications[k].seq > cursor,
    ensures
        pending_after(s, keys, cursor).contains(s.verifications[k]),
    decreases keys.len(),
{
    let rest = keys.drop_last();
    let all = pending_after(s, keys, cursor);
    if keys.last() == k {
        assert(all[all.len() - 1] == s.verifications[k]);
    } else {
        let i = choose|i: int| 0 <= i < keys.len() && keys[i] == k;
        assert(i < keys.len() - 1);
        assert(rest[i] == k);
        lemma_pending_after_complete(s, rest, cursor, k);
        let part = pending_after(s, rest, cursor);
        let j = choose|j: int| 0 <= j < part.len() && part[j] == s.verifications[k];
        assert(all[j] == s.verifications[k]);
    }
}

/// Consecutive pages of a user's history tile it: the page at `cursor` of
/// size `l` followed by the page right after it of size `m` is the page at
/// `cursor` of size `l + m`, so paging neither skips nor repeats an entry.
pub proof fn user_pages_tile(s: EngineState, user: Address, cursor: u32, l: u32, m: u32)
    requires
        cursor + l + m <= u32::MAX,
    ensures
        user_page(s, user, cursor, l) + user_page(s, user, (cursor + l) as u32, m) == user_page(
            s,
            user,
            cursor,
            (l + m) as u32,
        ),
{
    let ids = s.history_of(user);
    let n = ids.len() as int;
    let start = if cursor <= n {
        cursor as int
    } else {
        n
    };
    let mid = if start + l <= n {
        start + l
    } else {
        n
    };
    let end = if start + l + m <= n {
        start + l + m
    } else {
        n
    };
    assert(ids.subrange(start, mid) + ids.subrange(mid, end) =~= ids.subrange(start, end));
    lemma_user_views_concat(s, user, ids.subrange(start, mid), ids.subrange(mid, end));
}

/// The stored verifications of two lists of task ids, one after the other,
/// are those of the joined list.
proof fn lemma_user_views_concat(s: EngineState, user: Address, a: Seq<u64>, b: Seq<u64>)
    ensures
        user_views(s, user, a + b) == user_views(s, user, a) + user_views(s, user, b),
    decreases b.len(),
{
    if b.len() == 0 {
        assert(a + b =~= a);
        assert(user_views(s, user, a) + user_views(s, user, b) =~= user_views(s, user, a));
    } else {
        assert((a + b).drop_last() =~= a + b.drop_last());
        lemma_user_views_concat(s, user, a, b.drop_last());
        let k = VerificationKey { task_id: b.last(), user };
        if s.verifications.contains_key(k) {
            assert(user_views(s, user, a) + user_views(s, user, b) =~= (user_views(s, user, a)
                + user_views(s, user, b.drop_last())).push(s.verifications[k]));
        }
    }
}

/// Taking a key off a list that holds it once leaves it off the list.
proof fn lemma_remove_value_drops(keys: Seq<VerificationKey>, key: VerificationKey)
    ensures
        !keys.no_duplicates() || !keys.remove_value(key).contains(key),
{
    keys.index_of_first_ensures(key);
    if keys.no_duplicates() && keys.contains(key) {
        let i = keys.index_of_first(key)->0;
        let rv = keys.remove(i);
        if rv.contains(key) {
            let j = choose|j: int| 0 <= j < rv.len() && rv[j] == key;
            if j < i {
                assert(keys[j] == key);
            } else {
                assert(keys[j + 1] == key);
            }
        }
    }
}

} // verus!
