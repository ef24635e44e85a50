# ecotask_contracts

Verified models of the three EcoTask ledger contracts, written in Verus:

- `eco_token` — the ECO reward token: minting by a designated minter under an
  optional supply cap, transfers, burns, expiring allowances, metadata and a
  two-step admin handover.
- `task_registry` — the task database: sponsors, task creation, completions
  (once per user, up to a task's slots), expiry, cancellation and paged
  listings.
- `reward_engine` — proof verification: oracles submit proofs (each CID once,
  known by its SHA-256 hash), approve or reject them; approval completes the
  task in the registry and mints the reward through the token, all or
  nothing. The admin settles disputes, pauses the engine and sets reward
  bounds and a per-user cooldown. Pending proofs sit on a doubly linked list
  and are paged by their sequence numbers.

Each contract keeps its ledger state in a storage struct whose view is a
mathematical state (`TokenState`, `RegistryState`, `EngineState`). Every entry
point takes the invocation context (`env::Env`: ledger sequence, time and the
addresses that authorized the call) and is specified as a transition
`*_step(state, env, args) -> (new state, result)`; a failed call returns the
error and leaves every state unchanged. The `laws` module of each contract
states and proves properties that span calls: conservation of supply, the
supply cap, no double completion, all-or-nothing payouts, stable pagination,
and more.

The only outside code the library calls is the Soroban host's SHA-256, in
`reward_engine::verification::sha256`.

Layout:

```
src/lib.rs                 crate root
src/table.rs               finite map stored as a vector of entries
src/env.rs                 addresses and the invocation context
src/ecotask_types.rs       tasks and their status
src/eco_token/             storage, entry points, laws
src/task_registry/         storage, access checks, entry points, laws
src/reward_engine/         storage (with the pending list), entry points, laws
tests/                     scenarios for each contract and across them
```
