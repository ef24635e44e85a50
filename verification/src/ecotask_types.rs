//! Types shared by the task registry and the reward engine.
use vstd::prelude::*;
use crate::env::Address;

verus! {

/// A byte-for-byte copy of `b`.
pub fn copy_bytes(b: &Vec<u8>) -> (r: Vec<u8>)
    ensures
        r@ == b@,
{
    let mut r: Vec<u8> = Vec::new();
    let mut i: usize = 0;
    while i < b.len()
        invariant
            i <= b@.len(),
            r@ == b@.subrange(0, i as int),
        decreases b@.len() - i,
    {
        r.push(b[i]);
        i = i + 1;
    }
    assert(b@.subrange(0, b@.len() as int) == b@);
    r
}

/// Lifecycle status of a task in the registry.
#[derive(Clone, Copy, PartialEq, Eq, Structural, Debug)]
pub enum TaskStatus {
    Active,
    Completed,
    Expired,
    Cancelled,
}

/// A task as stored in the task registry and returned by `get_task`.
#[derive(Debug, PartialEq, Eq)]
pub struct Task {
    pub id: u64,
    pub creator: Address,
    pub task_type: Vec<u8>,
    pub location_hash: [u8; 32],
    pub reward_amount: i128,
    pub max_completions: u32,
    pub completions: u32,
    pub status: TaskStatus,
    pub created_at: u64,
    pub expires_at: u64,
}

/// A task as a mathematical value.
pub struct TaskView {
    pub id: u64,
    pub creator: Address,
    pub task_type: Seq<u8>,
    pub location_hash: [u8; 32],
    pub reward_amount: i128,
    pub max_completions: u32,
    pub completions: u32,
    pub status: TaskStatus,
    pub created_at: u64,
    pub expires_at: u64,
}

impl View for Task {
    type V = TaskView;

    open spec fn view(&self) -> TaskView {
        TaskView {
            id: self.id,
            creator: self.creator,
            task_type: self.task_type@,
            location_hash: self.location_hash,
            reward_amount: self.reward_amount,
            max_completions: self.max_completions,
            completions: self.completions,
            status: self.status,
            created_at: self.created_at,
            expires_at: self.expires_at,
        }
    }
}

impl Task {
    /// A copy of the task.
    pub fn copy(&self) -> (r: Task)
        ensures
            r@ == self@,
    {
        Task {
            id: self.id,
            creator: self.creator,
            task_type: copy_bytes(&self.task_type),
            location_hash: self.location_hash,
            reward_amount: self.reward_amount,
            max_completions: self.max_completions,
            completions: self.completions,
            status: self.status,
            created_at: self.created_at,
            expires_at: self.expires_at,
        }
    }
}

} // verus!
