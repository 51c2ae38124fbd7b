//! The errors of the rewards contract.

use vstd::prelude::*;

use crate::common::{ERR_INVALID_INPUT, ERR_NOT_FOUND, ERR_PAUSED, ERR_UNAUTHORIZED};

verus! {

/// The errors of the rewards contract, in the order of their codes.
#[derive(Copy, Clone, Debug, Eq, PartialEq, PartialOrd, Ord, Structural)]
pub enum RewardsErrorEnum {
    /// Entity not found (shared code).
    NotFound,
    /// Caller is not authorized (shared code).
    Unauthorized,
    /// Invalid input provided (shared code).
    InvalidInput,
    InsufficientPool,
    InvalidAmount,
    QuestNotFunded,
    QuestLookupFailed,
    MilestoneNotCompleted,
    MilestoneContractNotInitialized,
    ArithmeticOverflow,
    AlreadyPaid,
    InvalidToken,
    RewardAmountMismatch,
    QuestNotArchived,
    RefundWindowNotOpen,
    /// The quest has no deadline, or its deadline has not yet passed.
    QuestNotExpired,
    UserSuspended,
    BatchTooLarge,
    QuestContractNotInitialized,
    AlreadyInitialized,
    NotInitialized,
    /// The contract is administratively paused (shared code).
    Paused,
}

impl RewardsErrorEnum {
    /// The number that stands for the error on the ledger.
    pub open spec fn spec_code(self) -> u32 {
        match self {
            RewardsErrorEnum::NotFound => ERR_NOT_FOUND,
            RewardsErrorEnum::Unauthorized => ERR_UNAUTHORIZED,
            RewardsErrorEnum::InvalidInput => ERR_INVALID_INPUT,
            RewardsErrorEnum::InsufficientPool => 4,
            RewardsErrorEnum::InvalidAmount => 5,
            RewardsErrorEnum::QuestNotFunded => 6,
            RewardsErrorEnum::QuestLookupFailed => 7,
            RewardsErrorEnum::MilestoneNotCompleted => 8,
            RewardsErrorEnum::MilestoneContractNotInitialized => 9,
            RewardsErrorEnum::ArithmeticOverflow => 10,
            RewardsErrorEnum::AlreadyPaid => 11,
            RewardsErrorEnum::InvalidToken => 12,
            RewardsErrorEnum::RewardAmountMismatch => 13,
            RewardsErrorEnum::QuestNotArchived => 14,
            RewardsErrorEnum::RefundWindowNotOpen => 15,
            RewardsErrorEnum::QuestNotExpired => 16,
            RewardsErrorEnum::UserSuspended => 17,
            RewardsErrorEnum::BatchTooLarge => 18,
            RewardsErrorEnum::QuestContractNotInitialized => 21,
            RewardsErrorEnum::AlreadyInitialized => 99,
            RewardsErrorEnum::NotInitialized => 100,
            RewardsErrorEnum::Paused => ERR_PAUSED,
        }
    }

    /// The number that stands for the error on the ledger.
    pub fn code(self) -> (code: u32)
        ensures
            code == self.spec_code(),
    {
        match self {
            RewardsErrorEnum::NotFound => ERR_NOT_FOUND,
            RewardsErrorEnum::Unauthorized => ERR_UNAUTHORIZED,
            RewardsErrorEnum::InvalidInput => ERR_INVALID_INPUT,
            RewardsErrorEnum::InsufficientPool => 4,
            RewardsErrorEnum::InvalidAmount => 5,
            RewardsErrorEnum::QuestNotFunded => 6,
            RewardsErrorEnum::QuestLookupFailed => 7,
            RewardsErrorEnum::MilestoneNotCompleted => 8,
            RewardsErrorEnum::MilestoneContractNotInitialized => 9,
            RewardsErrorEnum::ArithmeticOverflow => 10,
            RewardsErrorEnum::AlreadyPaid => 11,
            RewardsErrorEnum::InvalidToken => 12,
            RewardsErrorEnum::RewardAmountMismatch => 13,
            RewardsErrorEnum::QuestNotArchived => 14,
            RewardsErrorEnum::RefundWindowNotOpen => 15,
            RewardsErrorEnum::QuestNotExpired => 16,
            RewardsErrorEnum::UserSuspended => 17,
            RewardsErrorEnum::BatchTooLarge => 18,
            RewardsErrorEnum::QuestContractNotInitialized => 21,
            RewardsErrorEnum::AlreadyInitialized => 99,
            RewardsErrorEnum::NotInitialized => 100,
            RewardsErrorEnum::Paused => ERR_PAUSED,
        }
    }
}

} // verus!
