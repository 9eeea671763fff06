# Pulse state processing

Verified validator accounting for a PulseChain beacon state.

- `src/arith.rs`: checked arithmetic (on `u64` through `safe_arith`), wrapping and truncation.
- `src/chain_spec.rs`, `src/beacon_state.rs`: chain parameters and the part of the state that
  the accounting reads and writes.
- `src/common/`: the reward burn, credits and debits, and slashing a validator.
- `src/per_epoch_processing/`: the correlated slashing penalty, and the Altair rewards and
  penalties. `settlement.rs` says what it means to settle balances one by one.
- `app/`: runs the accounting against a node that keeps the exit queue, the progressive
  balances, the proposer shuffling and the base reward table.

Every executable function in `src/` states what it returns and what it leaves of the state,
on failure too. Proof functions named `law_*` state what holds across functions: where the
arithmetic wraps, what cannot halt an epoch, what is paid and what stays as it is.
