//! The registry's entry points.
use vstd::prelude::*;
use crate::ecotask_types::{Task, TaskStatus, TaskView};
use crate::env::{Address, Env};
use crate::task_registry::access::{self, admin_check, sponsor_check};
use crate::task_registry::storage::{self, creator_page, CompletionKey, RegistryState, RegistryStorage};

verus! {

/// Why a registry call fails. A failed call changes nothing.
#[derive(Clone, Copy, PartialEq, Eq, Structural, Debug)]
pub enum RegistryError {
    /// An address that had to authorize the call did not.
    NotAuthorized,
    AlreadyInitialized,
    Unauthorized,
    TaskNotFound,
    TaskTypeMustNotBeEmpty,
    RewardMustBePositive,
    MaxCompletionsMustBePositive,
    ExpiryMustBeInFuture,
    SponsorRevoked,
    TaskNotActive,
    TaskExpired,
    AlreadyCompleted,
    MaxCompletionsReached,
    TaskNotYetExpired,
    NewExpiryMustExtendCurrent,
    NewAdminMustBeDifferent,
}

impl RegistryError {
    pub open spec fn spec_message(self) -> Seq<char> {
        match self {
            RegistryError::NotAuthorized => "Error(Auth, InvalidAction)"@,
            RegistryError::AlreadyInitialized => "registry: already initialized"@,
            RegistryError::Unauthorized => "registry: unauthorized"@,
            RegistryError::TaskNotFound => "registry: task not found"@,
            RegistryError::TaskTypeMustNotBeEmpty => "registry: task type must not be empty"@,
            RegistryError::RewardMustBePositive => "registry: reward must be positive"@,
            RegistryError::MaxCompletionsMustBePositive => "registry: max completions must be positive"@,
            RegistryError::ExpiryMustBeInFuture => "registry: expiry must be in the future"@,
            RegistryError::SponsorRevoked => "registry: sponsor revoked"@,
            RegistryError::TaskNotActive => "registry: task is not active"@,
            RegistryError::TaskExpired => "registry: task expired"@,
            RegistryError::AlreadyCompleted => "registry: already completed"@,
            RegistryError::MaxCompletionsReached => "registry: max completions reached"@,
            RegistryError::TaskNotYetExpired => "registry: task not yet expired"@,
            RegistryError::NewExpiryMustExtendCurrent => "registry: new expiry must extend the current one"@,
            RegistryError::NewAdminMustBeDifferent => "registry: new admin must be different"@,
        }
    }

    /// The message the failure is reported with.
    pub fn message(&self) -> (r: &'static str)
        ensures
            r@ == self.spec_message(),
    {
        match self {
            RegistryError::NotAuthorized => "Error(Auth, InvalidAction)",
            RegistryError::AlreadyInitialized => "registry: already initialized",
            RegistryError::Unauthorized => "registry: unauthorized",
            RegistryError::TaskNotFound => "registry: task not found",
            RegistryError::TaskTypeMustNotBeEmpty => "registry: task type must not be empty",
            RegistryError::RewardMustBePositive => "registry: reward must be positive",
            RegistryError::MaxCompletionsMustBePositive => "registry: max completions must be positive",
            RegistryError::ExpiryMustBeInFuture => "registry: expiry must be in the future",
            RegistryError::SponsorRevoked => "registry: sponsor revoked",
            RegistryError::TaskNotActive => "registry: task is not active",
            RegistryError::TaskExpired => "registry: task expired",
            RegistryError::AlreadyCompleted => "registry: already completed",
            RegistryError::MaxCompletionsReached => "registry: max completions reached",
            RegistryError::TaskNotYetExpired => "registry: task not yet expired",
            RegistryError::NewExpiryMustExtendCurrent => "registry: new expiry must extend the current one",
            RegistryError::NewAdminMustBeDifferent => "registry: new admin must be different",
        }
    }
}

#[derive(Clone, Copy, PartialEq, Eq, Debug)]
pub struct TaskCreatedEvent {
    pub creator: Address,
    pub task_id: u64,
}

#[derive(Clone, Copy, PartialEq, Eq, Debug)]
pub struct TaskCompletedEvent {
    pub user: Address,
    pub task_id: u64,
}

#[derive(Clone, Copy, PartialEq, Eq, Debug)]
pub struct TaskExpiredEvent {
    pub task_id: u64,
}

#[derive(Clone, Copy, PartialEq, Eq, Debug)]
pub struct TaskCancelledEvent {
    pub creator: Address,
    pub task_id: u64,
}

#[derive(Clone, Copy, PartialEq, Eq, Debug)]
pub struct TaskExtendedEvent {
    pub creator: Address,
    pub task_id: u64,
    pub new_expires_at: u64,
}

#[derive(Clone, Copy, PartialEq, Eq, Debug)]
pub struct SponsorAddedEvent {
    pub sponsor: Address,
}

#[derive(Clone, Copy, PartialEq, Eq, Debug)]
pub struct SponsorRemovedEvent {
    pub sponsor: Address,
}

/// The most tasks `get_tasks_by_creator` returns.
pub const MAX_CREATOR_TASKS_QUERY: u64 = 50;

// ---------------------------------------------------------------------------
// What each entry point does to the registry's state, and what it returns.
// ---------------------------------------------------------------------------

pub open spec fn initialize_step(s: RegistryState, admin: Address) -> (RegistryState, Result<(), RegistryError>) {
    if s.admin is Some {
        (s, Err(RegistryError::AlreadyInitialized))
    } else {
        (RegistryState { admin: Some(admin), ..s }, Ok(()))
    }
}

pub open spec fn add_sponsor_step(s: RegistryState, e: Env, caller: Address, sponsor: Address) -> (
    RegistryState,
    Result<SponsorAddedEvent, RegistryError>,
) {
    if !e.authorizes(caller) {
        (s, Err(RegistryError::NotAuthorized))
    } else if admin_check(s, caller) is Err {
        (s, Err(RegistryError::Unauthorized))
    } else {
        (
            RegistryState { sponsors: s.sponsors.insert(sponsor), ..s },
            Ok(SponsorAddedEvent { sponsor }),
        )
    }
}

pub open spec fn remove_sponsor_step(s: RegistryState, e: Env, caller: Address, sponsor: Address) -> (
    RegistryState,
    Result<SponsorRemovedEvent, RegistryError>,
) {
    if !e.authorizes(caller) {
        (s, Err(RegistryError::NotAuthorized))
    } else if admin_check(s, caller) is Err {
        (s, Err(RegistryError::Unauthorized))
    } else {
        (
            RegistryState { sponsors: s.sponsors.remove(sponsor), ..s },
            Ok(SponsorRemovedEvent { sponsor }),
        )
    }
}

/// A new task takes the next id, is active with no completions, was created
/// now, and is appended to its creator's list.
pub open spec fn create_task_step(
    s: RegistryState,
    e: Env,
    creator: Address,
    task_type: Seq<u8>,
    location_hash: [u8; 32],
    reward_amount: i128,
    max_completions: u32,
    expires_at: u64,
) -> (RegistryState, Result<(u64, TaskCreatedEvent), RegistryError>) {
    let id = s.task_count;
    let task = TaskView {
        id,
        creator,
        task_type,
        location_hash,
        reward_amount,
        max_completions,
        completions: 0,
        status: TaskStatus::Active,
        created_at: e.timestamp,
        expires_at,
    };
    if !e.authorizes(creator) {
        (s, Err(RegistryError::NotAuthorized))
    } else if sponsor_check(s, creator) is Err {
        (s, Err(RegistryError::Unauthorized))
    } else if task_type.len() == 0 {
        (s, Err(RegistryError::TaskTypeMustNotBeEmpty))
    } else if reward_amount <= 0 {
        (s, Err(RegistryError::RewardMustBePositive))
    } else if max_completions == 0 {
        (s, Err(RegistryError::MaxCompletionsMustBePositive))
    } else if expires_at <= e.timestamp {
        (s, Err(RegistryError::ExpiryMustBeInFuture))
    } else {
        (
            RegistryState {
                task_count: (id + 1) as u64,
                tasks: s.tasks.insert(id, task),
                creator_tasks: s.creator_tasks.insert(creator, s.tasks_of(creator).push(id)),
                ..s
            },
            Ok((id, TaskCreatedEvent { creator, task_id: id })),
        )
    }
}

/// The status a task shows at time `now`: an active task whose deadline has
/// passed shows as expired.
pub open spec fn live_status(task: TaskView, now: u64) -> TaskStatus {
    if task.status == TaskStatus::Active && task.expires_at < now {
        TaskStatus::Expired
    } else {
        task.status
    }
}

/// The completing caller must authorize and be admin or sponsor; the task's
/// creator must still be admin or sponsor; the task must be active, not past
/// its deadline, not yet completed by `user` and have a free slot. The last
/// slot completes the task.
pub open spec fn complete_task_step(s: RegistryState, e: Env, caller: Address, task_id: u64, user: Address) -> (
    RegistryState,
    Result<TaskCompletedEvent, RegistryError>,
) {
    if !e.authorizes(caller) {
        (s, Err(RegistryError::NotAuthorized))
    } else {
        complete_task_by(s, e.timestamp, caller, task_id, user)
    }
}

/// `complete_task` by a caller that has authorized it, at time `now`.
pub open spec fn complete_task_by(s: RegistryState, now: u64, caller: Address, task_id: u64, user: Address) -> (
    RegistryState,
    Result<TaskCompletedEvent, RegistryError>,
) {
    let task = s.tasks[task_id];
    let completions = (task.completions + 1) as u32;
    let done = TaskView {
        completions,
        status: if completions >= task.max_completions {
            TaskStatus::Completed
        } else {
            task.status
        },
        ..task
    };
    if sponsor_check(s, caller) is Err {
        (s, Err(RegistryError::Unauthorized))
    } else if !s.tasks.contains_key(task_id) {
        (s, Err(RegistryError::TaskNotFound))
    } else if task.creator != s.admin.unwrap() && !s.sponsors.contains(task.creator) {
        (s, Err(RegistryError::SponsorRevoked))
    } else if task.status != TaskStatus::Active {
        (s, Err(RegistryError::TaskNotActive))
    } else if task.expires_at < now {
        (s, Err(RegistryError::TaskExpired))
    } else if s.completions.contains(CompletionKey { task_id, user }) {
        (s, Err(RegistryError::AlreadyCompleted))
    } else if task.completions >= task.max_completions {
        (s, Err(RegistryError::MaxCompletionsReached))
    } else {
        (
            RegistryState {
                tasks: s.tasks.insert(task_id, done),
                completions: s.completions.insert(CompletionKey { task_id, user }),
                ..s
            },
            Ok(TaskCompletedEvent { user, task_id }),
        )
    }
}

/// The admin ends an active task early.
pub open spec fn expire_task_step(s: RegistryState, e: Env, caller: Address, task_id: u64) -> (
    RegistryState,
    Result<(), RegistryError>,
) {
    let task = s.tasks[task_id];
    if !e.authorizes(caller) {
        (s, Err(RegistryError::NotAuthorized))
    } else if admin_check(s, caller) is Err {
        (s, Err(RegistryError::Unauthorized))
    } else if !s.tasks.contains_key(task_id) {
        (s, Err(RegistryError::TaskNotFound))
    } else if task.status != TaskStatus::Active {
        (s, Err(RegistryError::TaskNotActive))
    } else {
        (RegistryState { tasks: s.tasks.insert(task_id, TaskView { status: TaskStatus::Expired, ..task }), ..s }, Ok(()))
    }
}

/// Anyone records the expiry of an active task whose deadline has passed.
pub open spec fn expire_task_permissionless_step(s: RegistryState, e: Env, task_id: u64) -> (
    RegistryState,
    Result<TaskExpiredEvent, RegistryError>,
) {
    let task = s.tasks[task_id];
    if !s.tasks.contains_key(task_id) {
        (s, Err(RegistryError::TaskNotFound))
    } else if task.status != TaskStatus::Active {
        (s, Err(RegistryError::TaskNotActive))
    } else if task.expires_at >= e.timestamp {
        (s, Err(RegistryError::TaskNotYetExpired))
    } else {
        (
            RegistryState { tasks: s.tasks.insert(task_id, TaskView { status: TaskStatus::Expired, ..task }), ..s },
            Ok(TaskExpiredEvent { task_id }),
        )
    }
}

/// The creator or the admin pushes an active task's deadline to a later
/// time in the future.
pub open spec fn extend_task_expiry_step(
    s: RegistryState,
    e: Env,
    caller: Address,
    task_id: u64,
    new_expires_at: u64,
) -> (RegistryState, Result<TaskExtendedEvent, RegistryError>) {
    let task = s.tasks[task_id];
    if !e.authorizes(caller) {
        (s, Err(RegistryError::NotAuthorized))
    } else if !s.tasks.contains_key(task_id) {
        (s, Err(RegistryError::TaskNotFound))
    } else if caller != s.admin.unwrap() && task.creator != caller {
        (s, Err(RegistryError::Unauthorized))
    } else if task.status != TaskStatus::Active {
        (s, Err(RegistryError::TaskNotActive))
    } else if new_expires_at <= e.timestamp {
        (s, Err(RegistryError::ExpiryMustBeInFuture))
    } else if new_expires_at <= task.expires_at {
        (s, Err(RegistryError::NewExpiryMustExtendCurrent))
    } else {
        (
            RegistryState { tasks: s.tasks.insert(task_id, TaskView { expires_at: new_expires_at, ..task }), ..s },
            Ok(TaskExtendedEvent { creator: task.creator, task_id, new_expires_at }),
        )
    }
}

/// The creator cancels an active task.
pub open spec fn cancel_task_step(s: RegistryState, e: Env, caller: Address, task_id: u64) -> (
    RegistryState,
    Result<TaskCancelledEvent, RegistryError>,
) {
    let task = s.tasks[task_id];
    if !e.authorizes(caller) {
        (s, Err(RegistryError::NotAuthorized))
    } else if !s.tasks.contains_key(task_id) {
        (s, Err(RegistryError::TaskNotFound))
    } else if task.creator != caller {
        (s, Err(RegistryError::Unauthorized))
    } else if task.status != TaskStatus::Active {
        (s, Err(RegistryError::TaskNotActive))
    } else {
        (
            RegistryState { tasks: s.tasks.insert(task_id, TaskView { status: TaskStatus::Cancelled, ..task }), ..s },
            Ok(TaskCancelledEvent { creator: task.creator, task_id }),
        )
    }
}

/// The admin cancels any active task.
pub open spec fn admin_cancel_task_step(s: RegistryState, e: Env, caller: Address, task_id: u64) -> (
    RegistryState,
    Result<TaskCancelledEvent, RegistryError>,
) {
    let task = s.tasks[task_id];
    if !e.authorizes(caller) {
        (s, Err(RegistryError::NotAuthorized))
    } else if admin_check(s, caller) is Err {
        (s, Err(RegistryError::Unauthorized))
    } else if !s.tasks.contains_key(task_id) {
        (s, Err(RegistryError::TaskNotFound))
    } else if task.status != TaskStatus::Active {
        (s, Err(RegistryError::TaskNotActive))
    } else {
        (
            RegistryState { tasks: s.tasks.insert(task_id, TaskView { status: TaskStatus::Cancelled, ..task }), ..s },
            Ok(TaskCancelledEvent { creator: task.creator, task_id }),
        )
    }
}

/// The admin hands the role over in one step.
pub open spec fn transfer_admin_step(s: RegistryState, e: Env, current_admin: Address, new_admin: Address) -> (
    RegistryState,
    Result<(), RegistryError>,
) {
    if !e.authorizes(current_admin) {
        (s, Err(RegistryError::NotAuthorized))
    } else if current_admin != s.admin.unwrap() {
        (s, Err(RegistryError::Unauthorized))
    } else if new_admin == current_admin {
        (s, Err(RegistryError::NewAdminMustBeDifferent))
    } else {
        (RegistryState { admin: Some(new_admin), ..s }, Ok(()))
    }
}

/// The ids from `from` up to `to` (exclusive) that name a stored task, in
/// increasing order.
pub open spec fn present_ids(tasks: Map<u64, TaskView>, from: int, to: int) -> Seq<u64>
    decreases to - from,
{
    if to <= from {
        Seq::empty()
    } else if tasks.contains_key((to - 1) as u64) {
        present_ids(tasks, from, to - 1).push((to - 1) as u64)
    } else {
        present_ids(tasks, from, to - 1)
    }
}

/// The ids `list_tasks(cursor, limit)` reads: the stored ones among the next
/// `limit` ids from `cursor`, below the task count.
pub open spec fn listed_ids(s: RegistryState, cursor: u64, limit: u32) -> Seq<u64> {
    let end = if cursor + limit < s.task_count {
        cursor + limit
    } else {
        s.task_count as int
    };
    present_ids(s.tasks, cursor as int, end)
}

/// The task registry: its ledger storage and entry points.
pub struct RegistryContract {
    /// The registry's own address on the ledger.
    pub address: Address,
    pub storage: RegistryStorage,
}

impl View for RegistryContract {
    type V = RegistryState;

    open spec fn view(&self) -> RegistryState {
        self.storage@
    }
}

impl RegistryContract {
    pub open spec fn wf(&self) -> bool {
        self.storage.wf()
    }

    /// A freshly deployed, uninitialized registry at `address`.
    pub fn new(address: Address) -> (r: RegistryContract)
        ensures
            r.wf(),
            r.address == address,
            r@ == (RegistryState {
                admin: None,
                pending_admin: None,
                task_count: 0,
                tasks: Map::empty(),
                sponsors: Set::empty(),
                completions: Set::empty(),
                creator_tasks: Map::empty(),
            }),
    {
        RegistryContract { address, storage: RegistryStorage::new() }
    }

    /// Sets the admin; fails if there already is one.
    pub fn initialize(&mut self, e: &Env, admin: Address) -> (r: Result<(), RegistryError>)
        requires
            old(self).wf(),
        ensures
            final(self).address == old(self).address,
            final(self).wf(),
            final(self)@ == initialize_step(old(self)@, admin).0,
            r == initialize_step(old(self)@, admin).1,
    {
        if storage::has_admin(&self.storage) {
            return Err(RegistryError::AlreadyInitialized);
        }
        storage::write_admin(&mut self.storage, admin);
        Ok(())
    }

    /// The admin allows `sponsor` to create and complete tasks.
    pub fn add_sponsor(&mut self, e: &Env, caller: Address, sponsor: Address) -> (r: Result<
        SponsorAddedEvent,
        RegistryError,
    >)
        requires
            old(self).wf(),
            old(self)@.admin is Some,
        ensures
            final(self).address == old(self).address,
            final(self).wf(),
            final(self)@ == add_sponsor_step(old(self)@, *e, caller, sponsor).0,
            r == add_sponsor_step(old(self)@, *e, caller, sponsor).1,
    {
        if !e.require_auth(caller) {
            return Err(RegistryError::NotAuthorized);
        }
        access::require_admin(&self.storage, caller)?;
        storage::add_sponsor(&mut self.storage, sponsor);
        Ok(SponsorAddedEvent { sponsor })
    }

    /// The admin withdraws `sponsor`'s rights.
    pub fn remove_sponsor(&mut self, e: &Env, caller: Address, sponsor: Address) -> (r: Result<
        SponsorRemovedEvent,
        RegistryError,
    >)
        requires
            old(self).wf(),
            old(self)@.admin is Some,
        ensures
            final(self).address == old(self).address,
            final(self).wf(),
            final(self)@ == remove_sponsor_step(old(self)@, *e, caller, sponsor).0,
            r == remove_sponsor_step(old(self)@, *e, caller, sponsor).1,
    {
        if !e.require_auth(caller) {
            return Err(RegistryError::NotAuthorized);
        }
        access::require_admin(&self.storage, caller)?;
        storage::remove_sponsor(&mut self.storage, sponsor);
        Ok(SponsorRemovedEvent { sponsor })
    }

    /// Creates a task and returns its id; `creator` must be admin or sponsor
    /// and authorize.
    pub fn create_task(
        &mut self,
        e: &Env,
        creator: Address,
        task_type: Vec<u8>,
        location_hash: [u8; 32],
        reward_amount: i128,
        max_completions: u32,
        expires_at: u64,
    ) -> (r: Result<(u64, TaskCreatedEvent), RegistryError>)
        requires
            old(self).wf(),
            old(self)@.admin is Some,
            old(self)@.task_count < u64::MAX,
        ensures
            final(self).address == old(self).address,
            final(self).wf(),
            final(self)@ == create_task_step(
                old(self)@,
                *e,
                creator,
                task_type@,
                location_hash,
                reward_amount,
                max_completions,
                expires_at,
            ).0,
            r == create_task_step(
                old(self)@,
                *e,
                creator,
                task_type@,
                location_hash,
                reward_amount,
                max_completions,
                expires_at,
            ).1,
    {
        if !e.require_auth(creator) {
            return Err(RegistryError::NotAuthorized);
        }
        access::require_sponsor(&self.storage, creator)?;
        if task_type.len() == 0 {
            return Err(RegistryError::TaskTypeMustNotBeEmpty);
        }
        if reward_amount <= 0 {
            return Err(RegistryError::RewardMustBePositive);
        }
        if max_completions == 0 {
            return Err(RegistryError::MaxCompletionsMustBePositive);
        }
        if expires_at <= e.timestamp {
            return Err(RegistryError::ExpiryMustBeInFuture);
        }
        let task_id = storage::next_task_id(&mut self.storage);
        let task = Task {
            id: task_id,
            creator,
            task_type,
            location_hash,
            reward_amount,
            max_completions,
            completions: 0,
            status: TaskStatus::Active,
            created_at: e.timestamp,
            expires_at,
        };
        storage::write_task(&mut self.storage, task);
        storage::push_creator_task(&mut self.storage, creator, task_id);
        Ok((task_id, TaskCreatedEvent { creator, task_id }))
    }

    /// The task with id `task_id` as stored: an active task past its
    /// deadline still shows as active until its expiry is recorded.
    pub fn get_task(&self, e: &Env, task_id: u64) -> (r: Result<Task, RegistryError>)
        requires
            self.wf(),
        ensures
            r is Ok <==> self@.tasks.contains_key(task_id),
            r matches Ok(t) ==> t@ == self@.tasks[task_id],
            r matches Err(err) ==> err == RegistryError::TaskNotFound,
    {
        match storage::read_task(&self.storage, task_id) {
            Some(task) => Ok(task),
            None => Err(RegistryError::TaskNotFound),
        }
    }

    /// The task with id `task_id` with the status it has at the ledger's
    /// time: past its deadline an active task shows as expired.
    pub fn get_task_live_status(&self, e: &Env, task_id: u64) -> (r: Result<Task, RegistryError>)
        requires
            self.wf(),
        ensures
            r is Ok <==> self@.tasks.contains_key(task_id),
            r matches Ok(t) ==> t@ == (TaskView {
                status: live_status(self@.tasks[task_id], e.timestamp),
                ..self@.tasks[task_id]
            }),
            r matches Err(err) ==> err == RegistryError::TaskNotFound,
    {
        let mut task = match storage::read_task(&self.storage, task_id) {
            Some(task) => task,
            None => {
                return Err(RegistryError::TaskNotFound);
            },
        };
        if task.status == TaskStatus::Active && task.expires_at < e.timestamp {
            task.status = TaskStatus::Expired;
        }
        Ok(task)
    }

    /// What `complete_task` would answer, without changing anything: the
    /// checks it makes, in the same order.
    pub fn complete_task_result(&self, e: &Env, caller: Address, task_id: u64, user: Address) -> (r:
        Result<TaskCompletedEvent, RegistryError>)
        requires
            self.wf(),
            self@.admin is Some,
        ensures
            r == complete_task_step(self@, *e, caller, task_id, user).1,
    {
        if !e.require_auth(caller) {
            return Err(RegistryError::NotAuthorized);
        }
        access::require_sponsor(&self.storage, caller)?;
        let task = match storage::read_task(&self.storage, task_id) {
            Some(task) => task,
            None => {
                return Err(RegistryError::TaskNotFound);
            },
        };
        let admin = storage::read_admin(&self.storage);
        if task.creator != admin && !storage::is_sponsor(&self.storage, task.creator) {
            return Err(RegistryError::SponsorRevoked);
        }
        if task.status != TaskStatus::Active {
            return Err(RegistryError::TaskNotActive);
        }
        if task.expires_at < e.timestamp {
            return Err(RegistryError::TaskExpired);
        }
        if storage::is_completed(&self.storage, task_id, user) {
            return Err(RegistryError::AlreadyCompleted);
        }
        if task.completions >= task.max_completions {
            return Err(RegistryError::MaxCompletionsReached);
        }
        Ok(TaskCompletedEvent { user, task_id })
    }

    /// Records that `user` completed task `task_id`; `caller` must be admin
    /// or sponsor and authorize.
    pub fn complete_task(&mut self, e: &Env, caller: Address, task_id: u64, user: Address) -> (r:
        Result<TaskCompletedEvent, RegistryError>)
        requires
            old(self).wf(),
            old(self)@.admin is Some,
        ensures
            final(self).wf(),
            final(self).address == old(self).address,
            final(self)@ == complete_task_step(old(self)@, *e, caller, task_id, user).0,
            r == complete_task_step(old(self)@, *e, caller, task_id, user).1,
    {
        let checked = self.complete_task_result(e, caller, task_id, user);
        if checked.is_err() {
            return checked;
        }
        let mut task = match storage::read_task(&self.storage, task_id) {
            Some(task) => task,
            None => {
                return Err(RegistryError::TaskNotFound);
            },
        };
        task.completions = task.completions + 1;
        if task.completions >= task.max_completions {
            task.status = TaskStatus::Completed;
        }
        storage::write_task(&mut self.storage, task);
        storage::mark_completed(&mut self.storage, task_id, user);
        checked
    }

    /// The admin ends an active task early.
    pub fn expire_task(&mut self, e: &Env, caller: Address, task_id: u64) -> (r: Result<(), RegistryError>)
        requires
            old(self).wf(),
            old(self)@.admin is Some,
        ensures
            final(self).address == old(self).address,
            final(self).wf(),
            final(self)@ == expire_task_step(old(self)@, *e, caller, task_id).0,
            r == expire_task_step(old(self)@, *e, caller, task_id).1,
    {
        if !e.require_auth(caller) {
            return Err(RegistryError::NotAuthorized);
        }
        access::require_admin(&self.storage, caller)?;
        let mut task = match storage::read_task(&self.storage, task_id) {
            Some(task) => task,
            None => {
                return Err(RegistryError::TaskNotFound);
            },
        };
        if task.status != TaskStatus::Active {
            return Err(RegistryError::TaskNotActive);
        }
        task.status = TaskStatus::Expired;
        storage::write_task(&mut self.storage, task);
        Ok(())
    }

    /// Records, for anyone, the expiry of an active task whose deadline has
    /// passed.
    pub fn expire_task_permissionless(&mut self, e: &Env, task_id: u64) -> (r: Result<
        TaskExpiredEvent,
        RegistryError,
    >)
        requires
            old(self).wf(),
        ensures
            final(self).address == old(self).address,
            final(self).wf(),
            final(self)@ == expire_task_permissionless_step(old(self)@, *e, task_id).0,
            r == expire_task_permissionless_step(old(self)@, *e, task_id).1,
    {
        let mut task = match storage::read_task(&self.storage, task_id) {
            Some(task) => task,
            None => {
                return Err(RegistryError::TaskNotFound);
            },
        };
        if task.status != TaskStatus::Active {
            return Err(RegistryError::TaskNotActive);
        }
        if task.expires_at >= e.timestamp {
            return Err(RegistryError::TaskNotYetExpired);
        }
        task.status = TaskStatus::Expired;
        storage::write_task(&mut self.storage, task);
        Ok(TaskExpiredEvent { task_id })
    }

    /// The creator or the admin moves an active task's deadline to a later
    /// time that is still in the future.
    pub fn extend_task_expiry(
        &mut self,
        e: &Env,
        caller: Address,
        task_id: u64,
        new_expires_at: u64,
    ) -> (r: Result<TaskExtendedEvent, RegistryError>)
        requires
            old(self).wf(),
            old(self)@.admin is Some,
        ensures
            final(self).address == old(self).address,
            final(self).wf(),
            final(self)@ == extend_task_expiry_step(old(self)@, *e, caller, task_id, new_expires_at).0,
            r == extend_task_expiry_step(old(self)@, *e, caller, task_id, new_expires_at).1,
    {
        if !e.require_auth(caller) {
            return Err(RegistryError::NotAuthorized);
        }
        let admin = storage::read_admin(&self.storage);
        let mut task = match storage::read_task(&self.storage, task_id) {
            Some(task) => task,
            None => {
                return Err(RegistryError::TaskNotFound);
            },
        };
        if caller != admin && task.creator != caller {
            return Err(RegistryError::Unauthorized);
        }
        if task.status != TaskStatus::Active {
            return Err(RegistryError::TaskNotActive);
        }
        if new_expires_at <= e.timestamp {
            return Err(RegistryError::ExpiryMustBeInFuture);
        }
        if new_expires_at <= task.expires_at {
            return Err(RegistryError::NewExpiryMustExtendCurrent);
        }
        task.expires_at = new_expires_at;
        let creator = task.creator;
        storage::write_task(&mut self.storage, task);
        Ok(TaskExtendedEvent { creator, task_id, new_expires_at })
    }

    /// The creator cancels its active task.
    pub fn cancel_task(&mut self, e: &Env, caller: Address, task_id: u64) -> (r: Result<
        TaskCancelledEvent,
        RegistryError,
    >)
        requires
            old(self).wf(),
        ensures
            final(self).address == old(self).address,
            final(self).wf(),
            final(self)@ == cancel_task_step(old(self)@, *e, caller, task_id).0,
            r == cancel_task_step(old(self)@, *e, caller, task_id).1,
    {
        if !e.require_auth(caller) {
            return Err(RegistryError::NotAuthorized);
        }
        let mut task = match storage::read_task(&self.storage, task_id) {
            Some(task) => task,
            None => {
                return Err(RegistryError::TaskNotFound);
            },
        };
        if task.creator != caller {
            return Err(RegistryError::Unauthorized);
        }
        if task.status != TaskStatus::Active {
            return Err(RegistryError::TaskNotActive);
        }
        task.status = TaskStatus::Cancelled;
        let creator = task.creator;
        storage::write_task(&mut self.storage, task);
        Ok(TaskCancelledEvent { creator, task_id })
    }

    /// The admin cancels any active task.
    pub fn admin_cancel_task(&mut self, e: &Env, caller: Address, task_id: u64) -> (r: Result<
        TaskCancelledEvent,
        RegistryError,
    >)
        requires
            old(self).wf(),
            old(self)@.admin is Some,
        ensures
            final(self).address == old(self).address,
            final(self).wf(),
            final(self)@ == admin_cancel_task_step(old(self)@, *e, caller, task_id).0,
            r == admin_cancel_task_step(old(self)@, *e, caller, task_id).1,
    {
        if !e.require_auth(caller) {
            return Err(RegistryError::NotAuthorized);
        }
        access::require_admin(&self.storage, caller)?;
        let mut task = match storage::read_task(&self.storage, task_id) {
            Some(task) => task,
            None => {
                return Err(RegistryError::TaskNotFound);
            },
        };
        if task.status != TaskStatus::Active {
            return Err(RegistryError::TaskNotActive);
        }
        task.status = TaskStatus::Cancelled;
        let creator = task.creator;
        storage::write_task(&mut self.storage, task);
        Ok(TaskCancelledEvent { creator, task_id })
    }

    /// The number of tasks created so far, which is the next task id.
    pub fn task_count(&self, e: &Env) -> (r: u64)
        ensures
            r == self@.task_count,
    {
        storage::read_task_count(&self.storage)
    }

    /// Whether `user` completed task `task_id`.
    pub fn is_task_completed(&self, e: &Env, task_id: u64, user: Address) -> (r: bool)
        requires
            self.wf(),
        ensures
            r == self@.completions.contains(CompletionKey { task_id, user }),
    {
        storage::is_completed(&self.storage, task_id, user)
    }

    /// The first ids of `creator`'s tasks, at most `MAX_CREATOR_TASKS_QUERY`.
    pub fn get_tasks_by_creator(&self, e: &Env, creator: Address) -> (r: Vec<u64>)
        requires
            self.wf(),
        ensures
            r@ == creator_page(self@.tasks_of(creator), 0, MAX_CREATOR_TASKS_QUERY as int),
    {
        storage::read_creator_tasks_paged(&self.storage, creator, 0, MAX_CREATOR_TASKS_QUERY)
    }

    /// Up to `limit` ids of `creator`'s tasks, from position `cursor` of its
    /// list.
    pub fn get_tasks_by_creator_paged(&self, e: &Env, creator: Address, cursor: u32, limit: u32) -> (r:
        Vec<u64>)
        requires
            self.wf(),
        ensures
            r@ == creator_page(self@.tasks_of(creator), cursor as int, limit as int),
    {
        storage::read_creator_tasks_paged(&self.storage, creator, cursor as u64, limit as u64)
    }

    /// Up to `limit` tasks in id order, from id `cursor` on.
    pub fn list_tasks(&self, e: &Env, cursor: u64, limit: u32) -> (r: Vec<Task>)
        requires
            self.wf(),
        ensures
            r@.len() == listed_ids(self@, cursor, limit).len(),
            forall|i: int|
                0 <= i < r@.len() ==> #[trigger] r@[i]@ == self@.tasks[listed_ids(self@, cursor, limit)[i]],
    {
        let count = storage::read_task_count(&self.storage);
        let mut tasks: Vec<Task> = Vec::new();
        let mut current = cursor;
        let mut remaining = limit;
        let ghost end = if cursor + limit < count {
            cursor + limit
        } else {
            count as int
        };
        while current < count && remaining > 0
            invariant
                self.wf(),
                count == self@.task_count,
                cursor <= current,
                current + remaining == cursor + limit,
                end == (if cursor + limit < count { cursor + limit } else { count as int }),
                current == cursor || current <= end,
                tasks@.len() == present_ids(self@.tasks, cursor as int, current as int).len(),
                forall|i: int|
                    0 <= i < tasks@.len() ==> #[trigger] tasks@[i]@ == self@.tasks[present_ids(
                        self@.tasks,
                        cursor as int,
                        current as int,
                    )[i]],
            decreases count - current,
        {
            let ghost before = present_ids(self@.tasks, cursor as int, current as int);
            if let Some(task) = storage::read_task(&self.storage, current) {
                tasks.push(task);
            }
            current = current + 1;
            remaining = remaining - 1;
            assert(present_ids(self@.tasks, cursor as int, current as int) == if self@.tasks.contains_key(
                (current - 1) as u64,
            ) {
                before.push((current - 1) as u64)
            } else {
                before
            });
        }
        if current == cursor {
            assert(end <= cursor);
            assert(present_ids(self@.tasks, cursor as int, end) =~= Seq::<u64>::empty());
        } else {
            assert(current == end);
        }
        tasks
    }

    /// The admin hands the role to `new_admin` at once.
    pub fn transfer_admin(&mut self, e: &Env, current_admin: Address, new_admin: Address) -> (r:
        Result<(), RegistryError>)
        requires
            old(self).wf(),
            old(self)@.admin is Some,
        ensures
            final(self).address == old(self).address,
            final(self).wf(),
            final(self)@ == transfer_admin_step(old(self)@, *e, current_admin, new_admin).0,
            r == transfer_admin_step(old(self)@, *e, current_admin, new_admin).1,
    {
        if !e.require_auth(current_admin) {
            return Err(RegistryError::NotAuthorized);
        }
        let stored_admin = storage::read_admin(&self.storage);
        if current_admin != stored_admin {
            return Err(RegistryError::Unauthorized);
        }
        if new_admin == current_admin {
            return Err(RegistryError::NewAdminMustBeDifferent);
        }
        storage::write_admin(&mut self.storage, new_admin);
        Ok(())
    }
}

} // verus!
