# Subscription vault

A prepaid subscription vault for recurring billing, verified with Verus.

Subscribers deposit tokens, merchants charge subscriptions by interval, by metered usage or
once, and withdraw what they have earned. Lifetime caps, grace periods, plan templates with
versions, credit limits, usage rate limits, merchant pauses, an emergency stop, oracle
pricing, billing statements with compaction, metadata, a blocklist and exports are part of it.

- `src/` is the library. `vault.rs` holds the state and its mathematical view, `contract.rs`
  the entrypoints, and one module each the areas they work in. The vault never calls out:
  events and token transfers are queued in an outbox.
- `laws.rs`, `funds.rs`, `soundness.rs`, `accounting.rs`, `statement_laws.rs` and `runs.rs`
  state what holds across operations: no funds are created or lost, books reconcile, a period
  is charged once, history accounts for every charge, and more.
- `tests/` runs the library on concrete values.
- `app/` is the Soroban contract around the library: authorization, storage, events, token
  transfers and the price oracle.
