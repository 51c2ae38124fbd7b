//! The rules of the rewards contract, as functions of plain values.

use vstd::prelude::*;

use crate::common::{QuestStatus, UserStatus, MAX_REWARD_AMOUNT};
use crate::errors::RewardsErrorEnum;

verus! {

/// Shortest refund grace period that can be set: one day.
pub const MIN_REFUND_GRACE_PERIOD: u64 = 86_400;

/// Longest refund grace period that can be set: one year.
pub const MAX_REFUND_GRACE_PERIOD: u64 = 31_536_000;

/// Most milestones that an enrollee can claim at once.
pub const MAX_CLAIM_BATCH_SIZE: u32 = 20;

/// Whether a number fits into an amount.
pub open spec fn fits(number: int) -> bool {
    i128::MIN <= number <= i128::MAX
}

/// Whether an amount can be moved at once.
pub open spec fn payable(amount: i128) -> bool {
    0 < amount <= MAX_REWARD_AMOUNT
}

/// Whether an amount can be moved at once.
pub fn is_payable(amount: i128) -> (yes: bool)
    ensures
        yes == payable(amount),
{
    0 < amount && amount <= MAX_REWARD_AMOUNT
}

/// Whether a refund grace period can be set.
pub open spec fn settable_grace_period(seconds: u64) -> bool {
    MIN_REFUND_GRACE_PERIOD <= seconds <= MAX_REFUND_GRACE_PERIOD
}

/// Whether a refund grace period can be set.
pub fn is_settable_grace_period(seconds: u64) -> (yes: bool)
    ensures
        yes == settable_grace_period(seconds),
{
    MIN_REFUND_GRACE_PERIOD <= seconds && seconds <= MAX_REFUND_GRACE_PERIOD
}

/// Whether the counters can take one more funding. The number of quests grows
/// with the first funding of a quest only.
pub open spec fn funding_fits(
    pool: i128,
    total_funded: i128,
    quest_count: u32,
    first: bool,
    amount: i128,
) -> bool {
    &&& fits(pool + amount)
    &&& fits(total_funded + amount)
    &&& first ==> quest_count < u32::MAX
}

/// The counters after one more funding: the pool, the total and the number of
/// quests.
pub fn add_funding(
    pool: i128,
    total_funded: i128,
    quest_count: u32,
    first: bool,
    amount: i128,
) -> (sums: Result<(i128, i128, u32), RewardsErrorEnum>)
    ensures
        sums is Ok <==> funding_fits(pool, total_funded, quest_count, first, amount),
        sums is Ok ==> {
            &&& sums->Ok_0.0 == pool + amount
            &&& sums->Ok_0.1 == total_funded + amount
            &&& sums->Ok_0.2 == quest_count + (if first { 1int } else { 0 })
        },
        sums is Err ==> sums->Err_0 == RewardsErrorEnum::ArithmeticOverflow,
{
    let new_pool = match pool.checked_add(amount) {
        Some(sum) => sum,
        None => return Err(RewardsErrorEnum::ArithmeticOverflow),
    };
    let new_total = match total_funded.checked_add(amount) {
        Some(sum) => sum,
        None => return Err(RewardsErrorEnum::ArithmeticOverflow),
    };
    let new_count = if first {
        match quest_count.checked_add(1) {
            Some(sum) => sum,
            None => return Err(RewardsErrorEnum::ArithmeticOverflow),
        }
    } else {
        quest_count
    };
    Ok((new_pool, new_total, new_count))
}

/// Whether the counters can take one more payout.
pub open spec fn payout_fits(
    earnings: i128,
    total_distributed: i128,
    distributed: i128,
    amount: i128,
) -> bool {
    &&& fits(earnings + amount)
    &&& fits(total_distributed + amount)
    &&& fits(distributed + amount)
}

/// The counters after one more payout: what the user earned, what was
/// distributed in all, and what was distributed for the quest.
pub fn add_payout(
    earnings: i128,
    total_distributed: i128,
    distributed: i128,
    amount: i128,
) -> (sums: Result<(i128, i128, i128), RewardsErrorEnum>)
    ensures
        sums is Ok <==> payout_fits(earnings, total_distributed, distributed, amount),
        sums is Ok ==> {
            &&& sums->Ok_0.0 == earnings + amount
            &&& sums->Ok_0.1 == total_distributed + amount
            &&& sums->Ok_0.2 == distributed + amount
        },
        sums is Err ==> sums->Err_0 == RewardsErrorEnum::ArithmeticOverflow,
{
    match (
        earnings.checked_add(amount),
        total_distributed.checked_add(amount),
        distributed.checked_add(amount),
    ) {
        (Some(earned), Some(total), Some(quest_total)) => Ok((earned, total, quest_total)),
        _ => Err(RewardsErrorEnum::ArithmeticOverflow),
    }
}

/// Whether an amount may be paid for a milestone: it is the reward that the
/// milestone promises, unless it promises none.
pub open spec fn reward_agrees(promised: Option<i128>, amount: i128) -> bool {
    match promised {
        Some(reward) => reward <= 0 || amount == reward,
        None => true,
    }
}

/// Checks an amount against the reward that a milestone promises.
pub fn check_reward(promised: Option<i128>, amount: i128) -> (verdict: Result<
    (),
    RewardsErrorEnum,
>)
    ensures
        verdict == (if reward_agrees(promised, amount) {
            Ok::<(), RewardsErrorEnum>(())
        } else {
            Err(RewardsErrorEnum::RewardAmountMismatch)
        }),
{
    match promised {
        Some(reward) => {
            if reward > 0 && amount != reward {
                Err(RewardsErrorEnum::RewardAmountMismatch)
            } else {
                Ok(())
            }
        },
        None => Ok(()),
    }
}

/// What can be claimed for a milestone: the reward that it promises.
pub open spec fn claim_of(promised: Option<i128>) -> Result<i128, RewardsErrorEnum> {
    match promised {
        Some(reward) => if payable(reward) {
            Ok(reward)
        } else {
            Err(RewardsErrorEnum::InvalidAmount)
        },
        None => Err(RewardsErrorEnum::NotFound),
    }
}

/// What can be claimed for a milestone.
pub fn claimable(promised: Option<i128>) -> (claim: Result<i128, RewardsErrorEnum>)
    ensures
        claim == claim_of(promised),
{
    match promised {
        Some(reward) => {
            if is_payable(reward) {
                Ok(reward)
            } else {
                Err(RewardsErrorEnum::InvalidAmount)
            }
        },
        None => Err(RewardsErrorEnum::NotFound),
    }
}

/// Whether a user may claim, by the number that the quest contract gives for
/// where the user stands.
pub open spec fn standing_of(code: u32) -> Result<(), RewardsErrorEnum> {
    match UserStatus::of_code(code) {
        None => Err(RewardsErrorEnum::QuestLookupFailed),
        Some(UserStatus::Suspended) => Err(RewardsErrorEnum::UserSuspended),
        Some(_) => Ok(()),
    }
}

/// Whether a user may claim.
pub fn check_standing(code: u32) -> (verdict: Result<(), RewardsErrorEnum>)
    ensures
        verdict == standing_of(code),
{
    match UserStatus::from_code(code) {
        None => Err(RewardsErrorEnum::QuestLookupFailed),
        Some(UserStatus::Suspended) => Err(RewardsErrorEnum::UserSuspended),
        Some(_) => Ok(()),
    }
}

/// The rewards that are reserved for a quest and not yet paid. Nothing is owed
/// where more was distributed than is reserved.
pub open spec fn owed(reserved: i128, distributed: i128) -> int {
    if reserved > distributed {
        reserved - distributed
    } else {
        0
    }
}

/// What of a pool can be refunded: the pool less the rewards that are reserved
/// and not yet paid.
pub open spec fn refundable_of(pool: i128, reserved: i128, distributed: i128) -> Result<
    i128,
    RewardsErrorEnum,
> {
    if !fits(reserved - distributed) || !fits(pool - owed(reserved, distributed)) {
        Err(RewardsErrorEnum::ArithmeticOverflow)
    } else {
        Ok((pool - owed(reserved, distributed)) as i128)
    }
}

/// What of a pool can be refunded.
pub fn refundable(pool: i128, reserved: i128, distributed: i128) -> (amount: Result<
    i128,
    RewardsErrorEnum,
>)
    ensures
        amount == refundable_of(pool, reserved, distributed),
{
    match reserved.checked_sub(distributed) {
        Some(obligations) => match pool.checked_sub(
            if obligations > 0 {
                obligations
            } else {
                0
            },
        ) {
            Some(rest) => Ok(rest),
            None => Err(RewardsErrorEnum::ArithmeticOverflow),
        },
        None => Err(RewardsErrorEnum::ArithmeticOverflow),
    }
}

/// How much of what can be refunded is: the amount wanted, or all of it. Where
/// nothing can be refunded, all of it is 0.
pub open spec fn refund_choice(left: i128, wanted: Option<i128>) -> Result<i128, RewardsErrorEnum> {
    match wanted {
        Some(amount) => if amount > left {
            Err(RewardsErrorEnum::InsufficientPool)
        } else {
            Ok(amount)
        },
        None => if left > 0 {
            Ok(left)
        } else {
            Ok(0)
        },
    }
}

/// How much of what can be refunded is.
pub fn choose_refund(left: i128, wanted: Option<i128>) -> (amount: Result<i128, RewardsErrorEnum>)
    ensures
        amount == refund_choice(left, wanted),
{
    match wanted {
        Some(amount) => {
            if amount > left {
                Err(RewardsErrorEnum::InsufficientPool)
            } else {
                Ok(amount)
            }
        },
        None => {
            if left > 0 {
                Ok(left)
            } else {
                Ok(0)
            }
        },
    }
}

/// The total funded after a refund. It never goes below 0.
pub open spec fn funded_after_refund(total_funded: i128, amount: i128) -> i128 {
    if fits(total_funded - amount) && total_funded - amount > 0 {
        (total_funded - amount) as i128
    } else {
        0
    }
}

/// The total funded after a refund.
pub fn subtract_refund(total_funded: i128, amount: i128) -> (left: i128)
    ensures
        left == funded_after_refund(total_funded, amount),
{
    match total_funded.checked_sub(amount) {
        Some(left) => {
            if left > 0 {
                left
            } else {
                0
            }
        },
        None => 0,
    }
}

/// Whether the counters can take one more refund.
pub open spec fn refund_fits(pool: i128, refunded: i128, amount: i128) -> bool {
    &&& fits(pool - amount)
    &&& fits(refunded + amount)
}

/// The counters after one more refund: the pool, the total funded, and what was
/// refunded for the quest.
pub fn add_refund(pool: i128, total_funded: i128, refunded: i128, amount: i128) -> (sums: Result<
    (i128, i128, i128),
    RewardsErrorEnum,
>)
    ensures
        sums is Ok <==> refund_fits(pool, refunded, amount),
        sums is Ok ==> {
            &&& sums->Ok_0.0 == pool - amount
            &&& sums->Ok_0.1 == funded_after_refund(total_funded, amount)
            &&& sums->Ok_0.2 == refunded + amount
        },
        sums is Err ==> sums->Err_0 == RewardsErrorEnum::ArithmeticOverflow,
{
    match (pool.checked_sub(amount), refunded.checked_add(amount)) {
        (Some(rest), Some(quest_total)) => Ok(
            (rest, subtract_refund(total_funded, amount), quest_total),
        ),
        _ => Err(RewardsErrorEnum::ArithmeticOverflow),
    }
}

/// Whether the pool of a quest can be refunded at all.
pub open spec fn closed(status: QuestStatus) -> bool {
    status == QuestStatus::Archived || status == QuestStatus::Cancelled
}

/// Whether a refund comes too early for a quest that was archived.
pub open spec fn within_grace(since: u64, grace_period: u64, now: u64) -> bool {
    now < since + grace_period
}

/// Whether a refund comes too early. A window that would open after the end of
/// time never opens.
pub fn is_within_grace(since: u64, grace_period: u64, now: u64) -> (early: bool)
    ensures
        early == within_grace(since, grace_period, now),
{
    match since.checked_add(grace_period) {
        Some(opening) => now < opening,
        None => true,
    }
}

/// Whether a quest that is archived or cancelled can be refunded at a time: a
/// cancelled one at once, an archived one after the grace period.
pub open spec fn closing_verdict(
    status: QuestStatus,
    archived_at: u64,
    grace_period: u64,
    now: u64,
) -> Result<(), RewardsErrorEnum> {
    if !closed(status) {
        Err(RewardsErrorEnum::QuestNotArchived)
    } else if status == QuestStatus::Archived && within_grace(archived_at, grace_period, now) {
        Err(RewardsErrorEnum::RefundWindowNotOpen)
    } else {
        Ok(())
    }
}

/// Whether a quest that is archived or cancelled can be refunded at a time.
pub fn check_closing(status: QuestStatus, archived_at: u64, grace_period: u64, now: u64) -> (verdict:
    Result<(), RewardsErrorEnum>)
    ensures
        verdict == closing_verdict(status, archived_at, grace_period, now),
{
    match status {
        QuestStatus::Active => Err(RewardsErrorEnum::QuestNotArchived),
        QuestStatus::Cancelled => Ok(()),
        QuestStatus::Archived => {
            if is_within_grace(archived_at, grace_period, now) {
                Err(RewardsErrorEnum::RefundWindowNotOpen)
            } else {
                Ok(())
            }
        },
    }
}

/// Whether a quest that is archived can be refunded at a time: after the grace
/// period.
pub open spec fn archiving_verdict(
    status: QuestStatus,
    archived_at: u64,
    grace_period: u64,
    now: u64,
) -> Result<(), RewardsErrorEnum> {
    if status != QuestStatus::Archived {
        Err(RewardsErrorEnum::QuestNotArchived)
    } else if within_grace(archived_at, grace_period, now) {
        Err(RewardsErrorEnum::RefundWindowNotOpen)
    } else {
        Ok(())
    }
}

/// Whether a quest that is archived can be refunded at a time.
pub fn check_archiving(
    status: QuestStatus,
    archived_at: u64,
    grace_period: u64,
    now: u64,
) -> (verdict: Result<(), RewardsErrorEnum>)
    ensures
        verdict == archiving_verdict(status, archived_at, grace_period, now),
{
    match status {
        QuestStatus::Archived => {
            if is_within_grace(archived_at, grace_period, now) {
                Err(RewardsErrorEnum::RefundWindowNotOpen)
            } else {
                Ok(())
            }
        },
        _ => Err(RewardsErrorEnum::QuestNotArchived),
    }
}

/// Whether a quest with a deadline can be refunded at a time: once the deadline
/// has passed, and the grace period after it.
pub open spec fn expiry_verdict(deadline: u64, grace_period: u64, now: u64) -> Result<
    (),
    RewardsErrorEnum,
> {
    if deadline == 0 || now <= deadline {
        Err(RewardsErrorEnum::QuestNotExpired)
    } else if within_grace(deadline, grace_period, now) {
        Err(RewardsErrorEnum::RefundWindowNotOpen)
    } else {
        Ok(())
    }
}

/// Whether a quest with a deadline can be refunded at a time.
pub fn check_expiry(deadline: u64, grace_period: u64, now: u64) -> (verdict: Result<
    (),
    RewardsErrorEnum,
>)
    ensures
        verdict == expiry_verdict(deadline, grace_period, now),
{
    if deadline == 0 || now <= deadline {
        Err(RewardsErrorEnum::QuestNotExpired)
    } else if is_within_grace(deadline, grace_period, now) {
        Err(RewardsErrorEnum::RefundWindowNotOpen)
    } else {
        Ok(())
    }
}

/// When the unused pool of a quest can be refunded: from the first time on, to
/// the second. Both are 0 where the quest is not archived. A window that would
/// open after the end of time is given as opening there.
pub open spec fn refund_window_of(status: QuestStatus, archived_at: u64, grace_period: u64) -> (
    u64,
    u64,
) {
    if status != QuestStatus::Archived {
        (0, 0)
    } else if archived_at + grace_period <= u64::MAX {
        ((archived_at + grace_period) as u64, u64::MAX)
    } else {
        (u64::MAX, u64::MAX)
    }
}

/// When the unused pool of a quest can be refunded.
pub fn refund_window(status: QuestStatus, archived_at: u64, grace_period: u64) -> (window: (
    u64,
    u64,
))
    ensures
        window == refund_window_of(status, archived_at, grace_period),
{
    match status {
        QuestStatus::Archived => (archived_at.saturating_add(grace_period), u64::MAX),
        _ => (0, 0),
    }
}

} // verus!
