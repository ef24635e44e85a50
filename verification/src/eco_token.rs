//! The ECO reward token: balances, allowances, a minter role, a supply cap and
//! a two-step admin handover.
pub mod storage;
pub mod token;
pub mod laws;
