//! The task registry: tasks, sponsors allowed to create and complete them,
//! and the record of which user completed which task.
pub mod storage;
pub mod access;
pub mod registry;
pub mod laws;
