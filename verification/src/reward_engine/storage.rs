//! Ledger state of the engine and the reads and writes that the entry points
//! make on it.
use vstd::prelude::*;
use crate::ecotask_types::copy_bytes;
use crate::env::Address;
use crate::table::{Table, TableKey};

verus! {

/// Ledgers below which a persistent entry's lifetime is renewed.
pub const PERSISTENT_TTL_THRESHOLD: u32 = 100;

/// Ledgers a persistent entry is kept alive for after each write.
pub const PERSISTENT_TTL_EXTEND_TO: u32 = 4_096;

/// Ledgers below which the instance's lifetime is renewed.
pub const INSTANCE_TTL_THRESHOLD: u32 = 100;

/// Ledgers the instance is kept alive for (31 days at 5 s per ledger).
pub const INSTANCE_TTL_EXTEND_TO: u32 = 535_680;

/// The largest page a paginated query is meant to be asked for.
pub const MAX_PAGE_SIZE: u32 = 50;

#[derive(Clone, Copy, PartialEq, Eq, Structural, Debug)]
pub enum VerificationStatus {
    Pending,
    Approved,
    Rejected,
    Disputed,
}

/// A submitted proof and its verdict.
#[derive(Debug, PartialEq, Eq)]
pub struct Verification {
    pub task_id: u64,
    pub user: Address,
    pub proof_cid: Vec<u8>,
    /// 0 until the proof is approved.
    pub reward_amount: i128,
    pub status: VerificationStatus,
    pub submitted_at: u64,
    pub resolved_at: Option<u64>,
    /// The oracle that submitted the proof.
    pub oracle: Address,
    /// Assigned at submission, increasing, never changed: a stable
    /// pagination cursor.
    pub seq: u64,
}

/// A verification as a mathematical value.
pub struct VerificationView {
    pub task_id: u64,
    pub user: Address,
    pub proof_cid: Seq<u8>,
    pub reward_amount: i128,
    pub status: VerificationStatus,
    pub submitted_at: u64,
    pub resolved_at: Option<u64>,
    pub oracle: Address,
    pub seq: u64,
}

impl View for Verification {
    type V = VerificationView;

    open spec fn view(&self) -> VerificationView {
        VerificationView {
            task_id: self.task_id,
            user: self.user,
            proof_cid: self.proof_cid@,
            reward_amount: self.reward_amount,
            status: self.status,
            submitted_at: self.submitted_at,
            resolved_at: self.resolved_at,
            oracle: self.oracle,
            seq: self.seq,
        }
    }
}

impl Verification {
    /// A copy of the verification.
    pub fn copy(&self) -> (r: Verification)
        ensures
            r@ == self@,
    {
        Verification {
            task_id: self.task_id,
            user: self.user,
            proof_cid: copy_bytes(&self.proof_cid),
            reward_amount: self.reward_amount,
            status: self.status,
            submitted_at: self.submitted_at,
            resolved_at: self.resolved_at,
            oracle: self.oracle,
            seq: self.seq,
        }
    }
}

/// The key of a verification: one per task and user.
#[derive(Clone, Copy, PartialEq, Eq, Structural, Debug)]
pub struct VerificationKey {
    pub task_id: u64,
    pub user: Address,
}

impl TableKey for VerificationKey {
    fn key_eq(&self, other: &Self) -> (r: bool) {
        self.task_id == other.task_id && self.user.0 == other.user.0
    }
}

/// A SHA-256 digest of a proof CID.
#[derive(Clone, Copy, PartialEq, Eq, Debug)]
pub struct CidHash(pub [u8; 32]);

impl TableKey for CidHash {
    fn key_eq(&self, other: &Self) -> (r: bool) {
        let mut i: usize = 0;
        while i < 32
            invariant
                i <= 32,
                forall|j: int| 0 <= j < i ==> self.0@[j] == other.0@[j],
            decreases 32 - i,
        {
            if self.0[i] != other.0[i] {
                return false;
            }
            i = i + 1;
        }
        assert(self.0@ =~= other.0@);
        assert(self.0 =~= other.0);
        true
    }
}

/// The size and ends of the list of pending verifications.
#[derive(Clone, Copy, PartialEq, Eq, Debug)]
pub struct PendingListState {
    pub count: u64,
    pub head: Option<VerificationKey>,
    pub tail: Option<VerificationKey>,
}

/// The engine's ledger state, as mathematical values.
#[verifier::ext_equal]
pub struct EngineState {
    pub admin: Option<Address>,
    pub pending_admin: Option<Address>,
    pub token: Option<Address>,
    pub registry: Option<Address>,
    pub oracles: Seq<Address>,
    pub verifications: Map<VerificationKey, VerificationView>,
    pub cid_index: Map<CidHash, VerificationKey>,
    pub min_reward: Option<i128>,
    pub max_reward: Option<i128>,
    /// The pending verifications, oldest first.
    pub pending: Seq<VerificationKey>,
    /// The last sequence number handed out.
    pub verification_seq: u64,
    /// The task ids of each user's verifications, in submission order.
    pub user_verifications: Map<Address, Seq<u64>>,
    pub total_paid: i128,
    pub paused: bool,
    /// Ledgers a user waits between rewards; 0 for no wait.
    pub user_cooldown: u64,
    pub last_reward_ledger: Map<Address, u64>,
}

impl EngineState {
    /// The task ids of `user`'s verifications, in submission order.
    pub open spec fn history_of(self, user: Address) -> Seq<u64> {
        if self.user_verifications.contains_key(user) {
            self.user_verifications[user]
        } else {
            Seq::empty()
        }
    }
}

/// `s` without the occurrences of `a`.
pub open spec fn without(s: Seq<Address>, a: Address) -> Seq<Address>
    decreases s.len(),
{
    if s.len() == 0 {
        s
    } else if s.last() == a {
        without(s.drop_last(), a)
    } else {
        without(s.drop_last(), a).push(s.last())
    }
}

/// The previous and next links of a list that holds `keys` in this order:
/// each key on the list has both links, pointing at its neighbours.
spec fn links_agree(
    keys: Seq<VerificationKey>,
    prev: Map<VerificationKey, Option<VerificationKey>>,
    next: Map<VerificationKey, Option<VerificationKey>>,
) -> bool {
    &&& forall|k: VerificationKey| #[trigger] prev.contains_key(k) <==> keys.contains(k)
    &&& forall|k: VerificationKey| #[trigger] next.contains_key(k) <==> keys.contains(k)
    &&& forall|i: int|
        0 <= i < keys.len() ==> next[#[trigger] keys[i]] == if i + 1 < keys.len() {
            Some(keys[i + 1])
        } else {
            None
        }
    &&& forall|i: int|
        0 <= i < keys.len() ==> prev[#[trigger] keys[i]] == if i > 0 {
            Some(keys[i - 1])
        } else {
            None
        }
}

/// Unlinking the key at position `i`, by joining its neighbours, leaves the
/// links of the list without it.
proof fn lemma_unlink(
    keys: Seq<VerificationKey>,
    i: int,
    prev: Map<VerificationKey, Option<VerificationKey>>,
    next: Map<VerificationKey, Option<VerificationKey>>,
)
    requires
        keys.no_duplicates(),
        links_agree(keys, prev, next),
        0 <= i < keys.len(),
    ensures
        keys.remove(i).no_duplicates(),
        ({
            let key = keys[i];
            let p = prev[key];
            let n = next[key];
            let next1 = if p is Some {
                next.insert(p.unwrap(), n)
            } else {
                next
            };
            let prev1 = if n is Some {
                prev.insert(n.unwrap(), p)
            } else {
                prev
            };
            links_agree(keys.remove(i), prev1.remove(key), next1.remove(key))
        }),
{
    let key = keys[i];
    let p = prev[key];
    let n = next[key];
    let next1 = if p is Some {
        next.insert(p.unwrap(), n)
    } else {
        next
    };
    let prev1 = if n is Some {
        prev.insert(n.unwrap(), p)
    } else {
        prev
    };
    let nk = keys.remove(i);
    let np = prev1.remove(key);
    let nn = next1.remove(key);
    assert(keys.contains(key));
    if i > 0 {
        assert(keys.contains(keys[i - 1]));
    }
    if i + 1 < keys.len() {
        assert(keys.contains(keys[i + 1]));
    }
    assert forall|a: int, b: int| 0 <= a < b < nk.len() implies nk[a] != nk[b] by {
        let a0 = if a < i { a } else { a + 1 };
        let b0 = if b < i { b } else { b + 1 };
        assert(nk[a] == keys[a0] && nk[b] == keys[b0]);
    }
    assert forall|k: VerificationKey| nk.contains(k) <==> (keys.contains(k) && k != key) by {
        if nk.contains(k) {
            let j = choose|j: int| 0 <= j < nk.len() && nk[j] == k;
            let j0 = if j < i { j } else { j + 1 };
            assert(keys[j0] == k);
        }
        if keys.contains(k) && k != key {
            let j = choose|j: int| 0 <= j < keys.len() && keys[j] == k;
            if j < i {
                assert(nk[j] == k);
            } else {
                assert(nk[j - 1] == k);
            }
        }
    }
    assert forall|k: VerificationKey| #[trigger] np.contains_key(k) <==> nk.contains(k) by {
        if nk.contains(k) {
            assert(keys.contains(k) && k != key);
        }
    }
    assert forall|k: VerificationKey| #[trigger] nn.contains_key(k) <==> nk.contains(k) by {
        if nk.contains(k) {
            assert(keys.contains(k) && k != key);
        }
    }
    assert forall|j: int| 0 <= j < nk.len() implies nn[#[trigger] nk[j]] == if j + 1 < nk.len() {
        Some(nk[j + 1])
    } else {
        None
    } by {
        let j0 = if j < i { j } else { j + 1 };
        assert(nk[j] == keys[j0]);
        if j + 1 < nk.len() {
            let j1 = if j + 1 < i { j + 1 } else { j + 2 };
            assert(nk[j + 1] == keys[j1]);
        }
    }
    assert forall|j: int| 0 <= j < nk.len() implies np[#[trigger] nk[j]] == if j > 0 {
        Some(nk[j - 1])
    } else {
        None
    } by {
        let j0 = if j < i { j } else { j + 1 };
        assert(nk[j] == keys[j0]);
        if j > 0 {
            let j1 = if j - 1 < i { j - 1 } else { j };
            assert(nk[j - 1] == keys[j1]);
        }
    }
}

/// The engine's ledger storage.
pub struct EngineStorage {
    pub(crate) admin: Option<Address>,
    pub(crate) pending_admin: Option<Address>,
    pub(crate) token: Option<Address>,
    pub(crate) registry: Option<Address>,
    pub(crate) oracles: Vec<Address>,
    pub(crate) verifications: Table<VerificationKey, Verification>,
    pub(crate) cid_index: Table<CidHash, VerificationKey>,
    pub(crate) min_reward: Option<i128>,
    pub(crate) max_reward: Option<i128>,
    pub(crate) pending_count: u64,
    pub(crate) pending_head: Option<VerificationKey>,
    pub(crate) pending_tail: Option<VerificationKey>,
    pub(crate) pending_prev: Table<VerificationKey, Option<VerificationKey>>,
    pub(crate) pending_next: Table<VerificationKey, Option<VerificationKey>>,
    pub(crate) pending_keys: Ghost<Seq<VerificationKey>>,
    pub(crate) verification_seq: u64,
    pub(crate) user_verifications: Table<Address, Vec<u64>>,
    pub(crate) total_paid: i128,
    pub(crate) paused: bool,
    pub(crate) user_cooldown: u64,
    pub(crate) last_reward_ledger: Table<Address, u64>,
}

impl View for EngineStorage {
    type V = EngineState;

    closed spec fn view(&self) -> EngineState {
        EngineState {
            admin: self.admin,
            pending_admin: self.pending_admin,
            token: self.token,
            registry: self.registry,
            oracles: self.oracles@,
            verifications: Map::new(
                |k: VerificationKey| self.verifications@.contains_key(k),
                |k: VerificationKey| self.verifications@[k]@,
            ),
            cid_index: self.cid_index@,
            min_reward: self.min_reward,
            max_reward: self.max_reward,
            pending: self.pending_keys@,
            verification_seq: self.verification_seq,
            user_verifications: Map::new(
                |a: Address| self.user_verifications@.contains_key(a),
                |a: Address| self.user_verifications@[a]@,
            ),
            total_paid: self.total_paid,
            paused: self.paused,
            user_cooldown: self.user_cooldown,
            last_reward_ledger: self.last_reward_ledger@,
        }
    }
}

impl EngineStorage {
    /// The linked pending list stores exactly the ghost sequence of keys:
    /// each key once, with head, tail, count and the previous and next links
    /// of every node agreeing with the sequence.
    pub closed spec fn list_wf(&self) -> bool {
        let keys = self.pending_keys@;
        &&& keys.no_duplicates()
        &&& self.pending_count == keys.len()
        &&& self.pending_head == if keys.len() == 0 {
            None
        } else {
            Some(keys[0])
        }
        &&& self.pending_tail == if keys.len() == 0 {
            None
        } else {
            Some(keys.last())
        }
        &&& links_agree(keys, self.pending_prev@, self.pending_next@)
    }

    pub closed spec fn wf(&self) -> bool {
        &&& self.verifications.wf()
        &&& self.cid_index.wf()
        &&& self.pending_prev.wf()
        &&& self.pending_next.wf()
        &&& self.user_verifications.wf()
        &&& self.last_reward_ledger.wf()
        &&& self.list_wf()
    }

    /// Storage of a freshly deployed engine: nothing written yet.
    pub fn new() -> (r: EngineStorage)
        ensures
            r.wf(),
            r@ == (EngineState {
                admin: None,
                pending_admin: None,
                token: None,
                registry: None,
                oracles: Seq::empty(),
                verifications: Map::empty(),
                cid_index: Map::empty(),
                min_reward: None,
                max_reward: None,
                pending: Seq::empty(),
                verification_seq: 0,
                user_verifications: Map::empty(),
                total_paid: 0,
                paused: false,
                user_cooldown: 0,
                last_reward_ledger: Map::empty(),
            }),
    {
        let r = EngineStorage {
            admin: None,
            pending_admin: None,
            token: None,
            registry: None,
            oracles: Vec::new(),
            verifications: Table::new(),
            cid_index: Table::new(),
            min_reward: None,
            max_reward: None,
            pending_count: 0,
            pending_head: None,
            pending_tail: None,
            pending_prev: Table::new(),
            pending_next: Table::new(),
            pending_keys: Ghost(Seq::empty()),
            verification_seq: 0,
            user_verifications: Table::new(),
            total_paid: 0,
            paused: false,
            user_cooldown: 0,
            last_reward_ledger: Table::new(),
        };
        assert(r@.verifications =~= Map::<VerificationKey, VerificationView>::empty());
        assert(r@.user_verifications =~= Map::<Address, Seq<u64>>::empty());
        r
    }
}

pub fn write_admin(s: &mut EngineStorage, admin: Address)
    requires
        old(s).wf(),
    ensures
        final(s).wf(),
        final(s)@ == (EngineState { admin: Some(admin), ..old(s)@ }),
{
    s.admin = Some(admin);
}

/// The admin; the engine must have one.
pub fn read_admin(s: &EngineStorage) -> (r: Address)
    requires
        s@.admin is Some,
    ensures
        r == s@.admin.unwrap(),
{
    s.admin.unwrap()
}

pub fn has_admin(s: &EngineStorage) -> (r: bool)
    ensures
        r == s@.admin is Some,
{
    s.admin.is_some()
}

pub fn write_pending_admin(s: &mut EngineStorage, admin: Address)
    requires
        old(s).wf(),
    ensures
        final(s).wf(),
        final(s)@ == (EngineState { pending_admin: Some(admin), ..old(s)@ }),
{
    s.pending_admin = Some(admin);
}

pub fn read_pending_admin(s: &EngineStorage) -> (r: Option<Address>)
    ensures
        r == s@.pending_admin,
{
    s.pending_admin
}

pub fn remove_pending_admin(s: &mut EngineStorage)
    requires
        old(s).wf(),
    ensures
        final(s).wf(),
        final(s)@ == (EngineState { pending_admin: None, ..old(s)@ }),
{
    s.pending_admin = None;
}

pub fn write_token(s: &mut EngineStorage, token: Address)
    requires
        old(s).wf(),
    ensures
        final(s).wf(),
        final(s)@ == (EngineState { token: Some(token), ..old(s)@ }),
{
    s.token = Some(token);
}

/// The token contract's address; it must have been written.
pub fn read_token(s: &EngineStorage) -> (r: Address)
    requires
        s@.token is Some,
    ensures
        r == s@.token.unwrap(),
{
    s.token.unwrap()
}

pub fn write_registry(s: &mut EngineStorage, registry: Address)
    requires
        old(s).wf(),
    ensures
        final(s).wf(),
        final(s)@ == (EngineState { registry: Some(registry), ..old(s)@ }),
{
    s.registry = Some(registry);
}

/// The registry contract's address; it must have been written.
pub fn read_registry(s: &EngineStorage) -> (r: Address)
    requires
        s@.registry is Some,
    ensures
        r == s@.registry.unwrap(),
{
    s.registry.unwrap()
}

/// Replaces the oracle roster.
pub fn write_oracles(s: &mut EngineStorage, oracles: Vec<Address>)
    requires
        old(s).wf(),
    ensures
        final(s).wf(),
        final(s)@ == (EngineState { oracles: oracles@, ..old(s)@ }),
{
    s.oracles = oracles;
}

/// A copy of the oracle roster.
pub fn read_oracles(s: &EngineStorage) -> (r: Vec<Address>)
    ensures
        r@ == s@.oracles,
{
    let mut r: Vec<Address> = Vec::new();
    let mut i: usize = 0;
    while i < s.oracles.len()
        invariant
            i <= s.oracles@.len(),
            r@ == s.oracles@.subrange(0, i as int),
        decreases s.oracles@.len() - i,
    {
        r.push(s.oracles[i]);
        i = i + 1;
    }
    assert(s.oracles@.subrange(0, s.oracles@.len() as int) == s.oracles@);
    r
}

/// Appends `oracle` to the roster.
pub fn push_oracle(s: &mut EngineStorage, oracle: Address)
    requires
        old(s).wf(),
    ensures
        final(s).wf(),
        final(s)@ == (EngineState { oracles: old(s)@.oracles.push(oracle), ..old(s)@ }),
{
    s.oracles.push(oracle);
}

/// Drops every occurrence of `oracle` from the roster, keeping the order of
/// the others.
pub fn remove_oracle_from_list(s: &mut EngineStorage, oracle: Address)
    requires
        old(s).wf(),
    ensures
        final(s).wf(),
        final(s)@ == (EngineState { oracles: without(old(s)@.oracles, oracle), ..old(s)@ }),
{
    let mut filtered: Vec<Address> = Vec::new();
    let mut i: usize = 0;
    while i < s.oracles.len()
        invariant
            i <= s.oracles@.len(),
            filtered@ == without(s.oracles@.subrange(0, i as int), oracle),
        decreases s.oracles@.len() - i,
    {
        let o = s.oracles[i];
        assert(s.oracles@.subrange(0, i + 1).drop_last() == s.oracles@.subrange(0, i as int));
        if o != oracle {
            filtered.push(o);
        }
        i = i + 1;
    }
    assert(s.oracles@.subrange(0, s.oracles@.len() as int) == s.oracles@);
    s.oracles = filtered;
}

/// Whether `addr` is on the oracle roster.
pub fn is_registered_oracle(s: &EngineStorage, addr: Address) -> (r: bool)
    ensures
        r == s@.oracles.contains(addr),
{
    let mut i: usize = 0;
    while i < s.oracles.len()
        invariant
            i <= s.oracles@.len(),
            forall|j: int| 0 <= j < i ==> s.oracles@[j] != addr,
        decreases s.oracles@.len() - i,
    {
        if s.oracles[i] == addr {
            assert(s.oracles@[i as int] == addr);
            return true;
        }
        i = i + 1;
    }
    false
}

/// Stores `v` as the verification of `user` for task `task_id`.
pub fn write_verification(s: &mut EngineStorage, task_id: u64, user: Address, v: Verification)
    requires
        old(s).wf(),
    ensures
        final(s).wf(),
        final(s)@ == (EngineState {
            verifications: old(s)@.verifications.insert(VerificationKey { task_id, user }, v@),
            ..old(s)@
        }),
{
    let ghost old_view = s@;
    let ghost vv = v@;
    s.verifications.insert(VerificationKey { task_id, user }, v);
    assert(s@.verifications =~= old_view.verifications.insert(
        VerificationKey { task_id, user },
        vv,
    ));
    assert(s@.user_verifications =~= old_view.user_verifications);
}

/// A copy of the verification of `user` for task `task_id`, if any.
pub fn read_verification(s: &EngineStorage, task_id: u64, user: Address) -> (r: Option<Verification>)
    requires
        s.wf(),
    ensures
        r is Some <==> s@.verifications.contains_key(VerificationKey { task_id, user }),
        r matches Some(v) ==> v@ == s@.verifications[VerificationKey { task_id, user }],
{
    match s.verifications.get(&VerificationKey { task_id, user }) {
        Some(v) => Some(v.copy()),
        None => None,
    }
}

/// Records that the proof whose CID hashes to `cid_hash` belongs to
/// `verification_key`.
pub fn write_cid_index(s: &mut EngineStorage, cid_hash: CidHash, verification_key: VerificationKey)
    requires
        old(s).wf(),
    ensures
        final(s).wf(),
        final(s)@ == (EngineState {
            cid_index: old(s)@.cid_index.insert(cid_hash, verification_key),
            ..old(s)@
        }),
{
    let ghost old_view = s@;
    s.cid_index.insert(cid_hash, verification_key);
    assert(s@.verifications =~= old_view.verifications);
    assert(s@.user_verifications =~= old_view.user_verifications);
}

/// The verification key recorded for a CID hash, if any.
pub fn read_cid_index(s: &EngineStorage, cid_hash: CidHash) -> (r: Option<VerificationKey>)
    requires
        s.wf(),
    ensures
        r is Some <==> s@.cid_index.contains_key(cid_hash),
        r matches Some(k) ==> k == s@.cid_index[cid_hash],
{
    match s.cid_index.get(&cid_hash) {
        Some(k) => Some(*k),
        None => None,
    }
}

/// Stores both reward bounds.
pub fn write_reward_range(s: &mut EngineStorage, min: i128, max: i128)
    requires
        old(s).wf(),
    ensures
        final(s).wf(),
        final(s)@ == (EngineState { min_reward: Some(min), max_reward: Some(max), ..old(s)@ }),
{
    s.min_reward = Some(min);
    s.max_reward = Some(max);
}

pub fn read_min_reward(s: &EngineStorage) -> (r: Option<i128>)
    ensures
        r == s@.min_reward,
{
    s.min_reward
}

pub fn read_max_reward(s: &EngineStorage) -> (r: Option<i128>)
    ensures
        r == s@.max_reward,
{
    s.max_reward
}

/// Hands out the next verification sequence number: 1, 2, 3, ...
pub fn next_verification_seq(s: &mut EngineStorage) -> (r: u64)
    requires
        old(s).wf(),
        old(s)@.verification_seq < u64::MAX,
    ensures
        final(s).wf(),
        r == old(s)@.verification_seq + 1,
        final(s)@ == (EngineState { verification_seq: r, ..old(s)@ }),
{
    s.verification_seq = s.verification_seq + 1;
    s.verification_seq
}

/// Appends `task_id` to `user`'s verification history.
pub fn push_user_verification_key(s: &mut EngineStorage, user: Address, task_id: u64)
    requires
        old(s).wf(),
    ensures
        final(s).wf(),
        final(s)@ == (EngineState {
            user_verifications: old(s)@.user_verifications.insert(
                user,
                old(s)@.history_of(user).push(task_id),
            ),
            ..old(s)@
        }),
{
    let ghost old_view = s@;
    let mut ids = match s.user_verifications.remove(&user) {
        Some(ids) => ids,
        None => Vec::new(),
    };
    assert(ids@ == old_view.history_of(user));
    ids.push(task_id);
    s.user_verifications.insert(user, ids);
    assert(s@.user_verifications =~= old_view.user_verifications.insert(
        user,
        old_view.history_of(user).push(task_id),
    ));
    assert(s@.verifications =~= old_view.verifications);
}

/// The number of verifications `user` has submitted.
pub fn read_user_verification_count(s: &EngineStorage, user: Address) -> (r: u64)
    requires
        s.wf(),
    ensures
        r == s@.history_of(user).len(),
{
    match s.user_verifications.get(&user) {
        Some(ids) => ids.len() as u64,
        None => 0,
    }
}

/// The task id at position `seq` of `user`'s history, if it has one.
pub fn read_user_verification_task(s: &EngineStorage, user: Address, seq: u64) -> (r: Option<u64>)
    requires
        s.wf(),
    ensures
        r == if seq < s@.history_of(user).len() {
            Some(s@.history_of(user)[seq as int])
        } else {
            None::<u64>
        },
{
    match s.user_verifications.get(&user) {
        Some(ids) => {
            if seq < ids.len() as u64 {
                Some(ids[seq as usize])
            } else {
                None
            }
        },
        None => None,
    }
}

/// Adds `amount` to the total paid out; fails if the total would overflow.
pub fn add_total_paid(s: &mut EngineStorage, amount: i128) -> (r: bool)
    requires
        old(s).wf(),
    ensures
        final(s).wf(),
        r == (i128::MIN <= old(s)@.total_paid + amount <= i128::MAX),
        r ==> final(s)@ == (EngineState {
            total_paid: (old(s)@.total_paid + amount) as i128,
            ..old(s)@
        }),
        !r ==> final(s)@ == old(s)@,
{
    match s.total_paid.checked_add(amount) {
        Some(t) => {
            s.total_paid = t;
            true
        },
        None => false,
    }
}

pub fn read_total_paid(s: &EngineStorage) -> (r: i128)
    ensures
        r == s@.total_paid,
{
    s.total_paid
}

pub fn write_user_cooldown(s: &mut EngineStorage, ledgers: u64)
    requires
        old(s).wf(),
    ensures
        final(s).wf(),
        final(s)@ == (EngineState { user_cooldown: ledgers, ..old(s)@ }),
{
    s.user_cooldown = ledgers;
}

/// The cooldown in ledgers; 0 when none was set.
pub fn read_user_cooldown(s: &EngineStorage) -> (r: u64)
    ensures
        r == s@.user_cooldown,
{
    s.user_cooldown
}

/// Records the ledger at which `user` was last rewarded.
pub fn write_last_reward_ledger(s: &mut EngineStorage, user: Address, ledger: u64)
    requires
        old(s).wf(),
    ensures
        final(s).wf(),
        final(s)@ == (EngineState {
            last_reward_ledger: old(s)@.last_reward_ledger.insert(user, ledger),
            ..old(s)@
        }),
{
    let ghost old_view = s@;
    s.last_reward_ledger.insert(user, ledger);
    assert(s@.verifications =~= old_view.verifications);
    assert(s@.user_verifications =~= old_view.user_verifications);
}

/// The ledger at which `user` was last rewarded, `None` if never.
pub fn read_last_reward_ledger(s: &EngineStorage, user: Address) -> (r: Option<u64>)
    requires
        s.wf(),
    ensures
        r is Some <==> s@.last_reward_ledger.contains_key(user),
        r matches Some(l) ==> l == s@.last_reward_ledger[user],
{
    match s.last_reward_ledger.get(&user) {
        Some(l) => Some(*l),
        None => None,
    }
}

pub fn set_paused(s: &mut EngineStorage, paused: bool)
    requires
        old(s).wf(),
    ensures
        final(s).wf(),
        final(s)@ == (EngineState { paused, ..old(s)@ }),
{
    s.paused = paused;
}

pub fn is_paused(s: &EngineStorage) -> (r: bool)
    ensures
        r == s@.paused,
{
    s.paused
}


/// The key that follows `key` in the pending list, `None` at the end of the
/// list or when `key` is not on it.
pub open spec fn successor(keys: Seq<VerificationKey>, key: VerificationKey) -> Option<VerificationKey> {
    if keys.contains(key) && keys.index_of(key) + 1 < keys.len() {
        Some(keys[keys.index_of(key) + 1])
    } else {
        None
    }
}

/// The pending list holds each key at most once.
pub proof fn lemma_pending_distinct(s: &EngineStorage)
    requires
        s.wf(),
    ensures
        s@.pending.no_duplicates(),
{
}

/// The size and the two ends of the pending list.
pub fn read_pending_list(s: &EngineStorage) -> (r: PendingListState)
    requires
        s.wf(),
    ensures
        r.count == s@.pending.len(),
        r.head == if s@.pending.len() == 0 {
            None
        } else {
            Some(s@.pending[0])
        },
        r.tail == if s@.pending.len() == 0 {
            None
        } else {
            Some(s@.pending.last())
        },
{
    PendingListState { count: s.pending_count, head: s.pending_head, tail: s.pending_tail }
}

/// Stores the size and the two ends of the pending list.
fn write_pending_list(s: &mut EngineStorage, state: PendingListState)
    ensures
        *final(s) == (EngineStorage {
            pending_count: state.count,
            pending_head: state.head,
            pending_tail: state.tail,
            ..*old(s)
        }),
{
    s.pending_count = state.count;
    s.pending_head = state.head;
    s.pending_tail = state.tail;
}

/// Appends the key of `user`'s verification of task `task_id` to the end of
/// the pending list, linking it after the current tail.
pub fn push_verification_key(s: &mut EngineStorage, task_id: u64, user: Address)
    requires
        old(s).wf(),
        !old(s)@.pending.contains(VerificationKey { task_id, user }),
        old(s)@.pending.len() < u64::MAX,
    ensures
        final(s).wf(),
        final(s)@ == (EngineState {
            pending: old(s)@.pending.push(VerificationKey { task_id, user }),
            ..old(s)@
        }),
{
    let key = VerificationKey { task_id, user };
    let ghost keys = s.pending_keys@;
    let ghost old_view = s@;
    let mut state = read_pending_list(s);
    match state.tail {
        None => {
            s.pending_prev.insert(key, None);
            s.pending_next.insert(key, None);
            state.head = Some(key);
            state.tail = Some(key);
        },
        Some(tail_key) => {
            s.pending_next.insert(tail_key, Some(key));
            s.pending_prev.insert(key, Some(tail_key));
            s.pending_next.insert(key, None);
            state.tail = Some(key);
        },
    }
    state.count = state.count + 1;
    write_pending_list(s, state);
    s.pending_keys = Ghost(keys.push(key));
    proof {
        let nk = keys.push(key);
        assert forall|i: int, j: int| 0 <= i < j < nk.len() implies nk[i] != nk[j] by {
            if j == keys.len() {
                assert(keys.contains(keys[i]));
            }
        }
        assert forall|k: VerificationKey| #[trigger] s.pending_prev@.contains_key(k) <==> nk.contains(k) by {
            if keys.contains(k) {
                let i = choose|i: int| 0 <= i < keys.len() && keys[i] == k;
                assert(nk[i] == k);
            }
            if k == key {
                assert(nk[keys.len() as int] == k);
            }
            if nk.contains(k) && k != key {
                let i = choose|i: int| 0 <= i < nk.len() && nk[i] == k;
                assert(keys[i] == k);
            }
        }
        assert forall|k: VerificationKey| #[trigger] s.pending_next@.contains_key(k) <==> nk.contains(k) by {
            if keys.contains(k) {
                let i = choose|i: int| 0 <= i < keys.len() && keys[i] == k;
                assert(nk[i] == k);
            }
            if k == key {
                assert(nk[keys.len() as int] == k);
            }
            if nk.contains(k) && k != key {
                let i = choose|i: int| 0 <= i < nk.len() && nk[i] == k;
                assert(keys[i] == k);
            }
        }
        assert forall|i: int| 0 <= i < nk.len() implies s.pending_next@[#[trigger] nk[i]] == if i + 1
            < nk.len() {
            Some(nk[i + 1])
        } else {
            None
        } by {
            if i < keys.len() {
                assert(keys.contains(keys[i]));
                if i + 1 < keys.len() {
                    assert(keys[i] != keys.last());
                }
            }
        }
        assert forall|i: int| 0 <= i < nk.len() implies s.pending_prev@[#[trigger] nk[i]] == if i > 0 {
            Some(nk[i - 1])
        } else {
            None
        } by {
            if i < keys.len() {
                assert(keys.contains(keys[i]));
            }
        }
    }
    assert(s@.verifications =~= old_view.verifications);
    assert(s@.user_verifications =~= old_view.user_verifications);
}

/// Unlinks the key of `user`'s verification of task `task_id` from the
/// pending list, joining its neighbours; does nothing when the key is not on
/// the list.
pub fn remove_verification_key(s: &mut EngineStorage, task_id: u64, user: Address)
    requires
        old(s).wf(),
    ensures
        final(s).wf(),
        final(s)@ == (EngineState {
            pending: old(s)@.pending.remove_value(VerificationKey { task_id, user }),
            ..old(s)@
        }),
{
    let key = VerificationKey { task_id, user };
    let ghost keys = s.pending_keys@;
    let ghost old_view = s@;
    proof {
        keys.index_of_first_ensures(key);
    }
    if !s.pending_prev.contains_key(&key) {
        return;
    }
    let ghost i = keys.index_of_first(key)->0;
    let ghost old_view_prev = s.pending_prev@;
    let ghost old_view_next = s.pending_next@;
    let prev: Option<VerificationKey> = match s.pending_prev.get(&key) {
        Some(p) => *p,
        None => None,
    };
    let next: Option<VerificationKey> = match s.pending_next.get(&key) {
        Some(n) => *n,
        None => None,
    };
    let mut state = read_pending_list(s);
    match prev {
        Some(p) => {
            s.pending_next.insert(p, next);
        },
        None => {
            state.head = next;
        },
    }
    match next {
        Some(n) => {
            s.pending_prev.insert(n, prev);
        },
        None => {
            state.tail = prev;
        },
    }
    s.pending_prev.remove(&key);
    s.pending_next.remove(&key);
    state.count = state.count.saturating_sub(1);
    write_pending_list(s, state);
    s.pending_keys = Ghost(keys.remove(i));
    proof {
        lemma_unlink(keys, i, old_view_prev, old_view_next);
        let nk = keys.remove(i);
        if nk.len() > 0 {
            assert(nk[0] == if i == 0 { keys[1] } else { keys[0] });
            assert(nk.last() == if i == keys.len() - 1 { keys[keys.len() - 2] } else { keys.last() });
        }
    }
    assert(s@.verifications =~= old_view.verifications);
    assert(s@.user_verifications =~= old_view.user_verifications);
}

/// The key after `key` on the pending list.
pub fn read_pending_node_next(s: &EngineStorage, key: VerificationKey) -> (r: Option<VerificationKey>)
    requires
        s.wf(),
    ensures
        r == successor(s@.pending, key),
{
    let ghost keys = s.pending_keys@;
    match s.pending_next.get(&key) {
        Some(n) => {
            proof {
                let i = keys.index_of(key);
                assert(keys[i] == key);
            }
            *n
        },
        None => None,
    }
}

} // verus!
