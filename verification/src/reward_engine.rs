//! The reward engine: oracles submit proofs of completed tasks, approve or
//! reject them; approval completes the task in the registry and mints the
//! reward. The admin settles disputes and can pause the engine.
pub mod storage;
pub mod verification;
pub mod laws;
