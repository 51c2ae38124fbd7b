//! The rewards contract of a learning platform on Soroban.
//!
//! The owner of a quest funds a pool of tokens for it. Once an enrollee has
//! completed a milestone, its reward goes from the pool to the enrollee: at the
//! word of the owner ([`RewardsContract::distribute_reward`]) or claimed by the
//! enrollee ([`RewardsContract::claim_batch`]). What is left can be refunded once
//! the quest is closed or its deadline has passed.
//!
//! The contracts are stated over a model of the ledger ([`model::World`]): what
//! the contract has in its stores, and everything that it asked of the host,
//! answers included. An operation that asks other contracts states what it does
//! for every answer, as in [`funding::funding_run`]. [`host`] holds what is taken
//! on trust. [`meanings`] says what the words of the contracts come down to, and
//! [`promises`] what each operation is for. [`effects`], [`laws`], [`batches`] and
//! [`history`] state what follows for the contract as a whole.

pub mod batches;
pub mod claims;
pub mod common;
pub mod contract;
pub mod effects;
pub mod errors;
pub mod funding;
pub mod history;
pub mod host;
pub mod keys;
pub mod laws;
pub mod ledger;
pub mod meanings;
pub mod model;
pub mod payouts;
pub mod promises;
pub mod quest;
pub mod refunds;
pub mod rules;
pub mod services;
pub mod sums;

pub use common::{
    emit_quest_created, emit_reward_distributed, emit_reward_funded, error_info,
    extend_instance_ttl, extend_persistent_ttl, get_instance, get_persistent, is_contract_address,
    is_paused_by_key, is_valid_url, log_cross_call, log_cross_return, QuestInfo, QuestStatus,
    QuestVersion, UserStatus, Visibility,
};
pub use contract::RewardsContract;
pub use errors::RewardsErrorEnum;
pub use keys::{DataKey, IsDataKey};
