//! Executable, verified models of the EcoTask contracts: the ECO reward token,
//! the task registry and the reward engine that pays verified proofs.
//!
//! Each contract keeps its ledger state in a storage struct whose view is a
//! mathematical state; every entry point is a transition on that state whose
//! contract states the result and the new state exactly. A failed call leaves
//! every state it could touch unchanged, as a failed ledger transaction does.
pub mod table;
pub mod map_sum;
pub mod env;
pub mod ecotask_types;
pub mod eco_token;
pub mod task_registry;
pub mod reward_engine;
