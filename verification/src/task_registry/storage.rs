//! Ledger state of the registry and the reads and writes that the entry
//! points make on it.
use vstd::prelude::*;
use crate::ecotask_types::{Task, TaskView};
use crate::env::Address;
use crate::table::{Table, TableKey};

verus! {

/// Ledgers below which a persistent entry's lifetime is renewed.
pub const PERSISTENT_TTL_THRESHOLD: u32 = 100;

/// Ledgers a persistent entry is kept alive for after each write.
pub const PERSISTENT_TTL_EXTEND_TO: u32 = 4_096;

/// Ledgers below which the instance's lifetime is renewed.
pub const INSTANCE_TTL_THRESHOLD: u32 = 100;

/// Ledgers the instance is kept alive for (31 days at 5 s per ledger).
pub const INSTANCE_TTL_EXTEND_TO: u32 = 535_680;

/// The record that `user` completed task `task_id`.
#[derive(Clone, Copy, PartialEq, Eq, Structural, Debug)]
pub struct CompletionKey {
    pub task_id: u64,
    pub user: Address,
}

impl TableKey for CompletionKey {
    fn key_eq(&self, other: &Self) -> (r: bool) {
        self.task_id == other.task_id && self.user.0 == other.user.0
    }
}

/// The registry's ledger state, as mathematical values.
#[verifier::ext_equal]
pub struct RegistryState {
    pub admin: Option<Address>,
    pub pending_admin: Option<Address>,
    /// The number of tasks created so far, which is the next task id.
    pub task_count: u64,
    pub tasks: Map<u64, TaskView>,
    pub sponsors: Set<Address>,
    pub completions: Set<CompletionKey>,
    /// The ids of each creator's tasks, in creation order.
    pub creator_tasks: Map<Address, Seq<u64>>,
}

impl RegistryState {
    /// The ids of the tasks `creator` created, in creation order.
    pub open spec fn tasks_of(self, creator: Address) -> Seq<u64> {
        if self.creator_tasks.contains_key(creator) {
            self.creator_tasks[creator]
        } else {
            Seq::empty()
        }
    }

    pub open spec fn with_task(self, task: TaskView) -> RegistryState {
        RegistryState { tasks: self.tasks.insert(task.id, task), ..self }
    }
}

/// The registry's ledger storage.
pub struct RegistryStorage {
    admin: Option<Address>,
    pending_admin: Option<Address>,
    task_count: u64,
    tasks: Table<u64, Task>,
    sponsors: Table<Address, ()>,
    completions: Table<CompletionKey, ()>,
    creator_tasks: Table<Address, Vec<u64>>,
}

impl View for RegistryStorage {
    type V = RegistryState;

    closed spec fn view(&self) -> RegistryState {
        RegistryState {
            admin: self.admin,
            pending_admin: self.pending_admin,
            task_count: self.task_count,
            tasks: Map::new(|id: u64| self.tasks@.contains_key(id), |id: u64| self.tasks@[id]@),
            sponsors: self.sponsors@.dom(),
            completions: self.completions@.dom(),
            creator_tasks: Map::new(
                |a: Address| self.creator_tasks@.contains_key(a),
                |a: Address| self.creator_tasks@[a]@,
            ),
        }
    }
}

impl RegistryStorage {
    pub closed spec fn wf(&self) -> bool {
        &&& self.tasks.wf()
        &&& forall|id: u64| #[trigger] self.tasks@.contains_key(id) ==> self.tasks@[id].id == id
        &&& self.sponsors.wf()
        &&& self.completions.wf()
        &&& self.creator_tasks.wf()
    }

    /// Storage of a freshly deployed registry: nothing written yet.
    pub fn new() -> (r: RegistryStorage)
        ensures
            r.wf(),
            r@ == (RegistryState {
                admin: None,
                pending_admin: None,
                task_count: 0,
                tasks: Map::empty(),
                sponsors: Set::empty(),
                completions: Set::empty(),
                creator_tasks: Map::empty(),
            }),
    {
        let r = RegistryStorage {
            admin: None,
            pending_admin: None,
            task_count: 0,
            tasks: Table::new(),
            sponsors: Table::new(),
            completions: Table::new(),
            creator_tasks: Table::new(),
        };
        assert(r@.tasks =~= Map::<u64, TaskView>::empty());
        assert(r@.sponsors =~= Set::<Address>::empty());
        assert(r@.completions =~= Set::<CompletionKey>::empty());
        assert(r@.creator_tasks =~= Map::<Address, Seq<u64>>::empty());
        r
    }
}

/// Stores `task` under its id.
pub fn write_task(s: &mut RegistryStorage, task: Task)
    requires
        old(s).wf(),
    ensures
        final(s).wf(),
        final(s)@ == old(s)@.with_task(task@),
{
    let ghost old_view = s@;
    let ghost t = task@;
    s.tasks.insert(task.id, task);
    assert(s@.tasks =~= old_view.tasks.insert(t.id, t));
    assert(s@.creator_tasks =~= old_view.creator_tasks);
}

/// A copy of the task with id `task_id`, if there is one.
pub fn read_task(s: &RegistryStorage, task_id: u64) -> (r: Option<Task>)
    requires
        s.wf(),
    ensures
        r is Some <==> s@.tasks.contains_key(task_id),
        r matches Some(t) ==> t@ == s@.tasks[task_id] && t.id == task_id,
{
    match s.tasks.get(&task_id) {
        Some(t) => Some(t.copy()),
        None => None,
    }
}

/// Takes the next task id and advances the counter.
pub fn next_task_id(s: &mut RegistryStorage) -> (r: u64)
    requires
        old(s).wf(),
        old(s)@.task_count < u64::MAX,
    ensures
        final(s).wf(),
        r == old(s)@.task_count,
        final(s)@ == (RegistryState { task_count: (old(s)@.task_count + 1) as u64, ..old(s)@ }),
{
    let count = s.task_count;
    s.task_count = count + 1;
    count
}

/// The number of tasks created so far, which is the next task id.
pub fn read_task_count(s: &RegistryStorage) -> (r: u64)
    ensures
        r == s@.task_count,
{
    s.task_count
}

pub fn write_admin(s: &mut RegistryStorage, admin: Address)
    requires
        old(s).wf(),
    ensures
        final(s).wf(),
        final(s)@ == (RegistryState { admin: Some(admin), ..old(s)@ }),
{
    s.admin = Some(admin);
}

/// The admin; the registry must have one.
pub fn read_admin(s: &RegistryStorage) -> (r: Address)
    requires
        s@.admin is Some,
    ensures
        r == s@.admin.unwrap(),
{
    s.admin.unwrap()
}

pub fn has_admin(s: &RegistryStorage) -> (r: bool)
    ensures
        r == s@.admin is Some,
{
    s.admin.is_some()
}

pub fn write_pending_admin(s: &mut RegistryStorage, admin: Address)
    requires
        old(s).wf(),
    ensures
        final(s).wf(),
        final(s)@ == (RegistryState { pending_admin: Some(admin), ..old(s)@ }),
{
    s.pending_admin = Some(admin);
}

pub fn read_pending_admin(s: &RegistryStorage) -> (r: Option<Address>)
    ensures
        r == s@.pending_admin,
{
    s.pending_admin
}

pub fn remove_pending_admin(s: &mut RegistryStorage)
    requires
        old(s).wf(),
    ensures
        final(s).wf(),
        final(s)@ == (RegistryState { pending_admin: None, ..old(s)@ }),
{
    s.pending_admin = None;
}

pub fn add_sponsor(s: &mut RegistryStorage, sponsor: Address)
    requires
        old(s).wf(),
    ensures
        final(s).wf(),
        final(s)@ == (RegistryState { sponsors: old(s)@.sponsors.insert(sponsor), ..old(s)@ }),
{
    let ghost old_view = s@;
    s.sponsors.insert(sponsor, ());
    assert(s@.sponsors =~= old_view.sponsors.insert(sponsor));
    assert(s@.creator_tasks =~= old_view.creator_tasks);
    assert(s@.tasks =~= old_view.tasks);
}

pub fn remove_sponsor(s: &mut RegistryStorage, sponsor: Address)
    requires
        old(s).wf(),
    ensures
        final(s).wf(),
        final(s)@ == (RegistryState { sponsors: old(s)@.sponsors.remove(sponsor), ..old(s)@ }),
{
    let ghost old_view = s@;
    let _ = s.sponsors.remove(&sponsor);
    assert(s@.sponsors =~= old_view.sponsors.remove(sponsor));
    assert(s@.creator_tasks =~= old_view.creator_tasks);
    assert(s@.tasks =~= old_view.tasks);
}

pub fn is_sponsor(s: &RegistryStorage, addr: Address) -> (r: bool)
    requires
        s.wf(),
    ensures
        r == s@.sponsors.contains(addr),
{
    s.sponsors.contains_key(&addr)
}

/// Records that `user` completed task `task_id`.
pub fn mark_completed(s: &mut RegistryStorage, task_id: u64, user: Address)
    requires
        old(s).wf(),
    ensures
        final(s).wf(),
        final(s)@ == (RegistryState {
            completions: old(s)@.completions.insert(CompletionKey { task_id, user }),
            ..old(s)@
        }),
{
    let ghost old_view = s@;
    s.completions.insert(CompletionKey { task_id, user }, ());
    assert(s@.completions =~= old_view.completions.insert(CompletionKey { task_id, user }));
    assert(s@.creator_tasks =~= old_view.creator_tasks);
    assert(s@.tasks =~= old_view.tasks);
}

pub fn is_completed(s: &RegistryStorage, task_id: u64, user: Address) -> (r: bool)
    requires
        s.wf(),
    ensures
        r == s@.completions.contains(CompletionKey { task_id, user }),
{
    s.completions.contains_key(&CompletionKey { task_id, user })
}

/// The number of tasks `creator` created.
pub fn read_creator_task_count(s: &RegistryStorage, creator: Address) -> (r: u64)
    requires
        s.wf(),
    ensures
        r == s@.tasks_of(creator).len(),
{
    match s.creator_tasks.get(&creator) {
        Some(ids) => ids.len() as u64,
        None => 0,
    }
}

/// Appends `task_id` to the tasks of `creator`.
pub fn push_creator_task(s: &mut RegistryStorage, creator: Address, task_id: u64)
    requires
        old(s).wf(),
    ensures
        final(s).wf(),
        final(s)@ == (RegistryState {
            creator_tasks: old(s)@.creator_tasks.insert(
                creator,
                old(s)@.tasks_of(creator).push(task_id),
            ),
            ..old(s)@
        }),
{
    let ghost old_view = s@;
    let mut ids = match s.creator_tasks.remove(&creator) {
        Some(ids) => ids,
        None => Vec::new(),
    };
    assert(ids@ == old_view.tasks_of(creator));
    ids.push(task_id);
    s.creator_tasks.insert(creator, ids);
    assert(s@.creator_tasks =~= old_view.creator_tasks.insert(
        creator,
        old_view.tasks_of(creator).push(task_id),
    ));
    assert(s@.tasks =~= old_view.tasks);
}

/// The ids at positions `offset` up to `offset + limit` (exclusive) of the
/// tasks of `creator`, cut at the end of the list.
pub open spec fn creator_page(ids: Seq<u64>, offset: int, limit: int) -> Seq<u64> {
    if offset >= ids.len() || limit == 0 {
        Seq::empty()
    } else if offset + limit < ids.len() {
        ids.subrange(offset, offset + limit)
    } else {
        ids.subrange(offset, ids.len() as int)
    }
}

/// Up to `limit` task ids of `creator`, starting at position `offset`.
pub fn read_creator_tasks_paged(s: &RegistryStorage, creator: Address, offset: u64, limit: u64) -> (r:
    Vec<u64>)
    requires
        s.wf(),
        offset < s@.tasks_of(creator).len() && limit != 0 ==> offset + limit <= u64::MAX,
    ensures
        r@ == creator_page(s@.tasks_of(creator), offset as int, limit as int),
{
    let mut result: Vec<u64> = Vec::new();
    let count = read_creator_task_count(s, creator);
    if offset >= count || limit == 0 {
        return result;
    }
    let end = if offset + limit < count {
        offset + limit
    } else {
        count
    };
    match s.creator_tasks.get(&creator) {
        Some(ids) => {
            assert(ids@ == s@.tasks_of(creator));
            assert(end <= count);
            assert(count == ids@.len());
            let n = ids.len();
            assert(ids@.len() == n);
            let stop = end as usize;
            let mut index = offset as usize;
            while index < stop
                invariant
                    offset <= index <= stop,
                    stop == end,
                    end <= ids@.len(),
                    ids@ == s@.tasks_of(creator),
                    result@ == ids@.subrange(offset as int, index as int),
                decreases stop - index,
            {
                result.push(ids[index]);
                index = index + 1;
            }
        },
        None => {},
    }
    result
}

} // verus!
