# rewards

The rewards contract of a learning platform on Soroban, verified with Verus.

The owner of a quest funds a pool of tokens. Rewards for completed milestones
are paid from it, once each, and what is not owed to anyone can be refunded
after the quest has ended.

- `src/contract.rs`, `src/funding.rs`, `src/payouts.rs`, `src/claims.rs` and
  `src/refunds.rs` hold the operations of the contract, each with the world that
  it leads to for every answer of the contracts that it asks.
- `src/rules.rs` holds the rules as functions of plain values.
- `src/common.rs`, `src/errors.rs`, `src/keys.rs`, `src/quest.rs` hold the records,
  codes, keys and events that the contracts of the platform share.
- `src/ledger.rs` and `src/services.rs` give typed access to the stores and to the
  other contracts.
- `src/model.rs` is the model of the ledger; `src/host.rs` is what is taken on
  trust of `soroban_sdk`.
- `src/effects.rs`, `src/laws.rs`, `src/batches.rs`, `src/history.rs` and
  `src/sums.rs` state and prove what holds of the contract as a whole: the books
  balance, the pools are backed by tokens, and nobody is paid twice.
- `app/` is the contract as it is deployed: entry points and types only.
