//! Properties of the registry that span calls.
use vstd::prelude::*;
use crate::ecotask_types::TaskStatus;
use crate::env::{Address, Env};
use crate::task_registry::registry::{
    add_sponsor_step, admin_cancel_task_step, cancel_task_step, complete_task_step,
    create_task_step, expire_task_permissionless_step, expire_task_step, extend_task_expiry_step,
    initialize_step, live_status, present_ids, remove_sponsor_step, transfer_admin_step,
    RegistryError,
};
use crate::task_registry::storage::{creator_page, CompletionKey, RegistryState};

verus! {

/// Every stored task sits under its own id below the task count, has used
/// no more completion slots than it has, is active only while a slot is
/// free, and is completed only with every slot used.
pub open spec fn tasks_valid(s: RegistryState) -> bool {
    forall|id: u64| #[trigger]
        s.tasks.contains_key(id) ==> {
            let t = s.tasks[id];
            &&& t.id == id
            &&& id < s.task_count
            &&& t.completions <= t.max_completions
            &&& t.status == TaskStatus::Active ==> t.completions < t.max_completions
            &&& t.status == TaskStatus::Completed ==> t.completions == t.max_completions
        }
}

/// Every entry point keeps the tasks valid.
pub proof fn entry_points_keep_tasks_valid(
    s: RegistryState,
    e: Env,
    a: Address,
    b: Address,
    id: u64,
    time: u64,
    task_type: Seq<u8>,
    location_hash: [u8; 32],
    reward_amount: i128,
    max_completions: u32,
)
    requires
        tasks_valid(s),
        s.admin is Some,
        s.task_count < u64::MAX,
    ensures
        tasks_valid(initialize_step(s, a).0),
        tasks_valid(add_sponsor_step(s, e, a, b).0),
        tasks_valid(remove_sponsor_step(s, e, a, b).0),
        tasks_valid(
            create_task_step(s, e, a, task_type, location_hash, reward_amount, max_completions, time).0,
        ),
        tasks_valid(complete_task_step(s, e, a, id, b).0),
        tasks_valid(expire_task_step(s, e, a, id).0),
        tasks_valid(expire_task_permissionless_step(s, e, id).0),
        tasks_valid(extend_task_expiry_step(s, e, a, id, time).0),
        tasks_valid(cancel_task_step(s, e, a, id).0),
        tasks_valid(admin_cancel_task_step(s, e, a, id).0),
        tasks_valid(transfer_admin_step(s, e, a, b).0),
{
    let c = create_task_step(s, e, a, task_type, location_hash, reward_amount, max_completions, time);
    assert(tasks_valid(c.0)) by {
        assert forall|k: u64| #[trigger] c.0.tasks.contains_key(k) implies {
            let t = c.0.tasks[k];
            &&& t.id == k
            &&& k < c.0.task_count
            &&& t.completions <= t.max_completions
            &&& t.status == TaskStatus::Active ==> t.completions < t.max_completions
            &&& t.status == TaskStatus::Completed ==> t.completions == t.max_completions
        } by {
            if c.1 is Ok && k != s.task_count {
                assert(s.tasks.contains_key(k));
            }
        }
    }
}

/// The completion records of task `id`.
pub open spec fn completion_records(s: RegistryState, id: u64) -> Set<CompletionKey> {
    s.completions.filter(|k: CompletionKey| k.task_id == id)
}

/// Each task's completion count is the number of its completion records,
/// and every record belongs to a stored task.
pub open spec fn completions_counted(s: RegistryState) -> bool {
    &&& s.completions.finite()
    &&& forall|k: CompletionKey| #[trigger] s.completions.contains(k) ==> s.tasks.contains_key(k.task_id)
    &&& forall|id: u64| #[trigger]
        s.tasks.contains_key(id) ==> s.tasks[id].completions == completion_records(s, id).len()
}

/// A fresh registry has no tasks and no completion records.
pub proof fn fresh_registry_completions_counted(s: RegistryState)
    requires
        s.tasks == Map::<u64, crate::ecotask_types::TaskView>::empty(),
        s.completions == Set::<CompletionKey>::empty(),
    ensures
        completions_counted(s),
{
}

/// Every entry point keeps each task's completion count equal to the number
/// of its completion records: a completion adds one record and one to the
/// count of its task, a new task starts with neither, and nothing else
/// touches either.
pub proof fn completions_match_records(
    s: RegistryState,
    e: Env,
    a: Address,
    b: Address,
    id: u64,
    time: u64,
    task_type: Seq<u8>,
    location_hash: [u8; 32],
    reward_amount: i128,
    max_completions: u32,
)
    requires
        tasks_valid(s),
        completions_counted(s),
        s.admin is Some,
        s.task_count < u64::MAX,
    ensures
        completions_counted(initialize_step(s, a).0),
        completions_counted(add_sponsor_step(s, e, a, b).0),
        completions_counted(remove_sponsor_step(s, e, a, b).0),
        completions_counted(
            create_task_step(s, e, a, task_type, location_hash, reward_amount, max_completions, time).0,
        ),
        completions_counted(complete_task_step(s, e, a, id, b).0),
        completions_counted(expire_task_step(s, e, a, id).0),
        completions_counted(expire_task_permissionless_step(s, e, id).0),
        completions_counted(extend_task_expiry_step(s, e, a, id, time).0),
        completions_counted(cancel_task_step(s, e, a, id).0),
        completions_counted(admin_cancel_task_step(s, e, a, id).0),
        completions_counted(transfer_admin_step(s, e, a, b).0),
{
    let c = create_task_step(s, e, a, task_type, location_hash, reward_amount, max_completions, time);
    if c.1 is Ok {
        let new_id = s.task_count;
        assert(!s.tasks.contains_key(new_id));
        assert forall|k: u64| #[trigger] c.0.tasks.contains_key(k) implies c.0.tasks[k].completions
            == completion_records(c.0, k).len() by {
            if k == new_id {
                assert(completion_records(c.0, k) =~= Set::<CompletionKey>::empty());
            }
        }
    }
    let d = complete_task_step(s, e, a, id, b);
    if d.1 is Ok {
        let ck = CompletionKey { task_id: id, user: b };
        s.completions.lemma_len_filter(|k: CompletionKey| k.task_id == id);
        assert(completion_records(d.0, id) =~= completion_records(s, id).insert(ck));
        assert forall|k: u64| #[trigger] d.0.tasks.contains_key(k) implies d.0.tasks[k].completions
            == completion_records(d.0, k).len() by {
            if k != id {
                assert(completion_records(d.0, k) =~= completion_records(s, k));
            }
        }
    }
}

/// Every registry call keeps each completion record it finds.
pub open spec fn keeps_completions(s: RegistryState, t: RegistryState) -> bool {
    s.completions.subset_of(t.completions)
}

/// No entry point erases a completion record, and a completion succeeds only
/// for a pair without one and then records it: the same user can never
/// complete the same task twice, whatever happens in between.
pub proof fn completions_are_never_erased(
    s: RegistryState,
    e: Env,
    a: Address,
    b: Address,
    id: u64,
    time: u64,
    task_type: Seq<u8>,
    location_hash: [u8; 32],
    reward_amount: i128,
    max_completions: u32,
)
    requires
        s.admin is Some,
    ensures
        keeps_completions(s, initialize_step(s, a).0),
        keeps_completions(s, add_sponsor_step(s, e, a, b).0),
        keeps_completions(s, remove_sponsor_step(s, e, a, b).0),
        keeps_completions(
            s,
            create_task_step(s, e, a, task_type, location_hash, reward_amount, max_completions, time).0,
        ),
        keeps_completions(s, complete_task_step(s, e, a, id, b).0),
        keeps_completions(s, expire_task_step(s, e, a, id).0),
        keeps_completions(s, expire_task_permissionless_step(s, e, id).0),
        keeps_completions(s, extend_task_expiry_step(s, e, a, id, time).0),
        keeps_completions(s, cancel_task_step(s, e, a, id).0),
        keeps_completions(s, admin_cancel_task_step(s, e, a, id).0),
        keeps_completions(s, transfer_admin_step(s, e, a, b).0),
        complete_task_step(s, e, a, id, b).1 is Ok ==> !s.completions.contains(
            CompletionKey { task_id: id, user: b },
        ) && complete_task_step(s, e, a, id, b).0.completions.contains(
            CompletionKey { task_id: id, user: b },
        ),
{
}

/// Completing a task twice for the same user fails the second time.
pub proof fn no_double_claim(
    s: RegistryState,
    e1: Env,
    e2: Env,
    caller1: Address,
    caller2: Address,
    id: u64,
    user: Address,
)
    requires
        s.admin is Some,
        complete_task_step(s, e1, caller1, id, user).1 is Ok,
    ensures
        complete_task_step(complete_task_step(s, e1, caller1, id, user).0, e2, caller2, id, user).1
            is Err,
{
}

/// A task that is no longer active never changes again.
pub proof fn finished_tasks_are_final(
    s: RegistryState,
    e: Env,
    a: Address,
    b: Address,
    id: u64,
    k: u64,
    time: u64,
)
    requires
        s.admin is Some,
        s.tasks.contains_key(k),
        s.tasks[k].status != TaskStatus::Active,
    ensures
        complete_task_step(s, e, a, id, b).0.tasks[k] == s.tasks[k],
        expire_task_step(s, e, a, id).0.tasks[k] == s.tasks[k],
        expire_task_permissionless_step(s, e, id).0.tasks[k] == s.tasks[k],
        extend_task_expiry_step(s, e, a, id, time).0.tasks[k] == s.tasks[k],
        cancel_task_step(s, e, a, id).0.tasks[k] == s.tasks[k],
        admin_cancel_task_step(s, e, a, id).0.tasks[k] == s.tasks[k],
{
}

/// A created task reads back as created: the next id, with the given type,
/// location hash, reward, slots and deadline, active, no completions,
/// created now, and last in its creator's list; the counter
/// moves on by one.
pub proof fn created_task_reads_back(
    s: RegistryState,
    e: Env,
    creator: Address,
    task_type: Seq<u8>,
    location_hash: [u8; 32],
    reward_amount: i128,
    max_completions: u32,
    expires_at: u64,
)
    requires
        s.admin is Some,
        s.task_count < u64::MAX,
        create_task_step(s, e, creator, task_type, location_hash, reward_amount, max_completions, expires_at).1 is Ok,
    ensures
        ({
            let (t, r) = create_task_step(
                s,
                e,
                creator,
                task_type,
                location_hash,
                reward_amount,
                max_completions,
                expires_at,
            );
            let id = s.task_count;
            &&& r == Ok::<(u64, crate::task_registry::registry::TaskCreatedEvent), RegistryError>(
                (id, crate::task_registry::registry::TaskCreatedEvent { creator, task_id: id }),
            )
            &&& t.task_count == id + 1
            &&& t.tasks[id].id == id
            &&& t.tasks[id].creator == creator
            &&& t.tasks[id].task_type == task_type
            &&& t.tasks[id].location_hash == location_hash
            &&& t.tasks[id].reward_amount == reward_amount
            &&& t.tasks[id].max_completions == max_completions
            &&& t.tasks[id].completions == 0
            &&& t.tasks[id].status == TaskStatus::Active
            &&& t.tasks[id].created_at == e.timestamp
            &&& t.tasks[id].expires_at == expires_at
            &&& t.tasks_of(creator) == s.tasks_of(creator).push(id)
        }),
{
}

/// One deadline rule throughout: an active task is past its deadline exactly
/// when its live status is expired, completing it then fails with
/// `TaskExpired` (once the earlier checks pass), and exactly then anyone may
/// record its expiry.
pub proof fn deadline_rule_is_shared(s: RegistryState, e: Env, caller: Address, id: u64, user: Address)
    requires
        s.admin is Some,
        s.tasks.contains_key(id),
        s.tasks[id].status == TaskStatus::Active,
    ensures
        (live_status(s.tasks[id], e.timestamp) == TaskStatus::Expired) == (s.tasks[id].expires_at
            < e.timestamp),
        (expire_task_permissionless_step(s, e, id).1 is Ok) == (s.tasks[id].expires_at < e.timestamp),
        complete_task_step(s, e, caller, id, user).1 is Ok ==> s.tasks[id].expires_at >= e.timestamp,
{
}

/// The live view only ever turns an active task past its deadline into an
/// expired one: a completed, cancelled or expired task shows its stored
/// status whatever the time, and an active task shows as active up to and
/// including its deadline and as expired after it.
pub proof fn live_status_expires_only_overdue_active_tasks(
    task: crate::ecotask_types::TaskView,
    now: u64,
)
    ensures
        task.status != TaskStatus::Active ==> live_status(task, now) == task.status,
        task.status == TaskStatus::Active && now <= task.expires_at ==> live_status(task, now)
            == TaskStatus::Active,
        task.status == TaskStatus::Active && task.expires_at < now ==> live_status(task, now)
            == TaskStatus::Expired,
{
}

/// The admin or a sponsor may create a task of any non-empty type with a
/// positive reward, at least one slot and a deadline after now: the call
/// succeeds and the task takes the next id.
pub proof fn creating_a_valid_task_succeeds(
    s: RegistryState,
    e: Env,
    creator: Address,
    task_type: Seq<u8>,
    location_hash: [u8; 32],
    reward_amount: i128,
    max_completions: u32,
    expires_at: u64,
)
    requires
        s.admin is Some,
        e.authorizes(creator),
        creator == s.admin.unwrap() || s.sponsors.contains(creator),
        task_type.len() > 0,
        reward_amount > 0,
        max_completions > 0,
        e.timestamp < expires_at,
    ensures
        create_task_step(s, e, creator, task_type, location_hash, reward_amount, max_completions, expires_at).1
            == Ok::<(u64, crate::task_registry::registry::TaskCreatedEvent), RegistryError>(
            (
                s.task_count,
                crate::task_registry::registry::TaskCreatedEvent { creator, task_id: s.task_count },
            ),
        ),
{
}

/// The admin or a sponsor may record a user's completion of an active task
/// whose creator still holds a role, up to and including its deadline, once
/// per user and while a slot is free: the call succeeds, the task counts one
/// more completion, and it becomes completed exactly when that was its last
/// slot.
pub proof fn completing_an_open_task_succeeds(
    s: RegistryState,
    e: Env,
    caller: Address,
    task_id: u64,
    user: Address,
)
    requires
        s.admin is Some,
        e.authorizes(caller),
        caller == s.admin.unwrap() || s.sponsors.contains(caller),
        s.tasks.contains_key(task_id),
        s.tasks[task_id].creator == s.admin.unwrap() || s.sponsors.contains(s.tasks[task_id].creator),
        s.tasks[task_id].status == TaskStatus::Active,
        e.timestamp <= s.tasks[task_id].expires_at,
        !s.completions.contains(CompletionKey { task_id, user }),
        s.tasks[task_id].completions < s.tasks[task_id].max_completions,
    ensures
        ({
            let (t, r) = complete_task_step(s, e, caller, task_id, user);
            let task = s.tasks[task_id];
            &&& r == Ok::<crate::task_registry::registry::TaskCompletedEvent, RegistryError>(
                crate::task_registry::registry::TaskCompletedEvent { user, task_id },
            )
            &&& t.tasks[task_id].completions == task.completions + 1
            &&& t.completions.contains(CompletionKey { task_id, user })
            &&& (t.tasks[task_id].status == TaskStatus::Completed) == (task.completions + 1
                == task.max_completions)
            &&& task.completions + 1 < task.max_completions ==> t.tasks[task_id].status
                == TaskStatus::Active
        }),
{
}

/// The creator, or the admin, of an active task may move its deadline to
/// any later time that is still in the future, and the creator may cancel
/// it: each call succeeds and changes exactly that field of the task.
pub proof fn active_tasks_can_be_extended_or_cancelled(
    s: RegistryState,
    e: Env,
    caller: Address,
    task_id: u64,
    new_expires_at: u64,
)
    requires
        s.admin is Some,
        e.authorizes(caller),
        s.tasks.contains_key(task_id),
        s.tasks[task_id].status == TaskStatus::Active,
    ensures
        ({
            let task = s.tasks[task_id];
            let (t, r) = extend_task_expiry_step(s, e, caller, task_id, new_expires_at);
            (caller == s.admin.unwrap() || caller == task.creator) && e.timestamp < new_expires_at
                && task.expires_at < new_expires_at ==> {
                &&& r is Ok
                &&& t.tasks[task_id] == crate::ecotask_types::TaskView {
                    expires_at: new_expires_at,
                    ..task
                }
            }
        }),
        ({
            let task = s.tasks[task_id];
            let (t, r) = cancel_task_step(s, e, caller, task_id);
            caller == task.creator ==> {
                &&& r is Ok
                &&& t.tasks[task_id] == crate::ecotask_types::TaskView {
                    status: TaskStatus::Cancelled,
                    ..task
                }
            }
        }),
{
}

/// A failed call changes nothing.
pub proof fn failed_calls_change_nothing(
    s: RegistryState,
    e: Env,
    a: Address,
    b: Address,
    id: u64,
    time: u64,
    task_type: Seq<u8>,
    location_hash: [u8; 32],
    reward_amount: i128,
    max_completions: u32,
)
    ensures
        initialize_step(s, a).1 is Err ==> initialize_step(s, a).0 == s,
        add_sponsor_step(s, e, a, b).1 is Err ==> add_sponsor_step(s, e, a, b).0 == s,
        remove_sponsor_step(s, e, a, b).1 is Err ==> remove_sponsor_step(s, e, a, b).0 == s,
        create_task_step(s, e, a, task_type, location_hash, reward_amount, max_completions, time).1 is Err
            ==> create_task_step(s, e, a, task_type, location_hash, reward_amount, max_completions, time).0
            == s,
        complete_task_step(s, e, a, id, b).1 is Err ==> complete_task_step(s, e, a, id, b).0 == s,
        expire_task_step(s, e, a, id).1 is Err ==> expire_task_step(s, e, a, id).0 == s,
        expire_task_permissionless_step(s, e, id).1 is Err ==> expire_task_permissionless_step(
            s,
            e,
            id,
        ).0 == s,
        extend_task_expiry_step(s, e, a, id, time).1 is Err ==> extend_task_expiry_step(
            s,
            e,
            a,
            id,
            time,
        ).0 == s,
        cancel_task_step(s, e, a, id).1 is Err ==> cancel_task_step(s, e, a, id).0 == s,
        admin_cancel_task_step(s, e, a, id).1 is Err ==> admin_cancel_task_step(s, e, a, id).0 == s,
        transfer_admin_step(s, e, a, b).1 is Err ==> transfer_admin_step(s, e, a, b).0 == s,
{
}

/// Consecutive pages of a creator's task list tile it: the page at `offset`
/// of size `l` followed by the page right after it of size `m` is the page
/// at `offset` of size `l + m`, so paging neither skips nor repeats an id.
pub proof fn creator_pages_tile(ids: Seq<u64>, offset: int, l: int, m: int)
    requires
        0 <= offset,
        0 < l,
        0 < m,
    ensures
        creator_page(ids, offset, l) + creator_page(ids, offset + l, m) == creator_page(
            ids,
            offset,
            l + m,
        ),
{
    if offset >= ids.len() {
        assert(creator_page(ids, offset, l) + creator_page(ids, offset + l, m) =~= Seq::<u64>::empty());
    } else if offset + l >= ids.len() {
        assert(creator_page(ids, offset, l) + creator_page(ids, offset + l, m) =~= ids.subrange(
            offset,
            ids.len() as int,
        ));
    } else if offset + l + m < ids.len() {
        assert(creator_page(ids, offset, l) + creator_page(ids, offset + l, m) =~= ids.subrange(
            offset,
            offset + l + m,
        ));
    } else {
        assert(creator_page(ids, offset, l) + creator_page(ids, offset + l, m) =~= ids.subrange(
            offset,
            ids.len() as int,
        ));
    }
}

/// The ids `list_tasks` reads over two adjacent ranges are the ids it reads
/// over their union, in order.
pub proof fn listed_ranges_tile(tasks: Map<u64, crate::ecotask_types::TaskView>, a: int, b: int, c: int)
    requires
        a <= b <= c,
    ensures
        present_ids(tasks, a, b) + present_ids(tasks, b, c) == present_ids(tasks, a, c),
    decreases c - b,
{
    if b == c {
        assert(present_ids(tasks, a, b) + present_ids(tasks, b, c) =~= present_ids(tasks, a, c));
    } else {
        listed_ranges_tile(tasks, a, b, c - 1);
        if tasks.contains_key((c - 1) as u64) {
            assert(present_ids(tasks, a, b) + present_ids(tasks, b, c) =~= (present_ids(tasks, a, b)
                + present_ids(tasks, b, c - 1)).push((c - 1) as u64));
        }
    }
}

} // verus!
