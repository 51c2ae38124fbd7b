//! What holds of single operations: who may do them and when, what a refusal
//! leaves alone, and in what order things happen.

use vstd::prelude::*;

use crate::claims::{
    claim_amount, claim_asked, claim_checked, claim_outcome, claim_paid, claim_run, ClaimReply,
};
use crate::common::{contract_address_text, QuestStatus, UserStatus, BUMP, THRESHOLD};
use crate::contract::{grace_period_run, initialize_run, initialized, pause_run};
use crate::effects::{claims_milestone, lemma_claim_checked};
use crate::errors::RewardsErrorEnum;
use crate::funding::{funding_request, funding_run};
use crate::keys::{lemma_path_injective, Key};
use crate::model::{Datum, Step, World};
use crate::payouts::{payout_outcome, payout_request, payout_run};
use crate::quest::quest_in;
use crate::refunds::{refund_outcome, refund_run, refund_terms, refund_world, RefundGround};
use crate::rules::{
    archiving_verdict, closed, closing_verdict, expiry_verdict, owed, payable, refund_window_of,
};
use crate::services::reward_in;

verus! {

// ---------------------------------------------------------------------------
// Who may do what, and when
// ---------------------------------------------------------------------------

/// Only the owner of a quest funds it, in the token that the quest names and
/// the contract pays; and only the authority adds to a pool that has one.
pub proof fn law_funding_conditions(
    before: World,
    after: World,
    funder: Seq<u8>,
    quest_id: u32,
    amount: i128,
    reply: Option<Datum>,
    token_live: bool,
)
    requires
        funding_run(before, after, Ok(()), funder, quest_id, amount, reply, token_live),
    ensures
        !before.paused(),
        payable(amount),
        quest_in(reply) is Some,
        quest_in(reply)->0.owner == funder,
        before.token() == Some(quest_in(reply)->0.token_addr),
        token_live,
        before.authority(quest_id) is None || before.authority(quest_id) == Some(funder),
{
}

/// Only the authority over a pool pays from it, never to itself, only for a
/// completed milestone, and exactly the reward that the milestone promises
/// where it promises one.
pub proof fn law_payout_conditions(
    before: World,
    after: World,
    caller: Seq<u8>,
    quest_id: u32,
    milestone_id: u32,
    enrollee: Seq<u8>,
    amount: i128,
    completed: bool,
    reply: Option<Datum>,
)
    requires
        payout_run(
            before,
            after,
            Ok(()),
            caller,
            quest_id,
            milestone_id,
            enrollee,
            amount,
            completed,
            reply,
        ),
    ensures
        !before.paused(),
        payable(amount),
        before.authority(quest_id) == Some(caller),
        caller != enrollee,
        completed,
        reward_in(reply) is Some && reward_in(reply)->0 > 0 ==> amount == reward_in(reply)->0,
        !before.paid(quest_id, milestone_id, enrollee),
        amount <= before.pool(quest_id),
{
}

/// A claim pays only for milestones that the claimant completed and was not paid
/// for, each named once, and exactly what each promises; and no suspended user
/// is paid.
pub proof fn law_claim_conditions(
    before: World,
    after: World,
    total: i128,
    claimant: Seq<u8>,
    quest_id: u32,
    ids: Seq<Datum>,
    replies: Seq<ClaimReply>,
    index: int,
)
    requires
        claim_run(before, after, Ok(total), claimant, quest_id, ids, replies),
        0 <= index < ids.len(),
    ensures
        !before.paused(),
        ids[index] is Count,
        forall|other: int| 0 <= other < ids.len() && other != index ==> ids[other] != ids[index],
        replies[index].completed,
        UserStatus::of_code(replies[index].standing) is Some,
        UserStatus::of_code(replies[index].standing) != Some(UserStatus::Suspended),
        !before.paid(quest_id, ids[index]->Count_0, claimant),
        reward_in(replies[index].reward) == Some(claim_amount(replies, index)),
        payable(claim_amount(replies, index)),
{
    lemma_claim_checked(before, claimant, quest_id, ids, replies, ids.len(), index);
    assert forall|other: int| 0 <= other < ids.len() && other != index implies ids[other]
        != ids[index] by {
        lemma_claim_checked(before, claimant, quest_id, ids, replies, ids.len(), other);
        if other < index {
            assert(ids.take(index)[other] == ids[other]);
        } else {
            assert(ids.take(other)[index] == ids[index]);
        }
    }
}

/// Only the authority over a pool is refunded, and only once the quest is open
/// for refunds.
pub proof fn law_refund_conditions(
    before: World,
    after: World,
    amount: i128,
    authority: Seq<u8>,
    quest_id: u32,
    ground: RefundGround,
    wanted: Option<i128>,
    reply: Option<Datum>,
    now: u64,
    reserved: i128,
)
    requires
        refund_run(
            before,
            after,
            Ok(amount),
            authority,
            quest_id,
            ground,
            wanted,
            reply,
            now,
            reserved,
        ),
    ensures
        !before.paused(),
        before.authority(quest_id) == Some(authority),
        quest_in(reply) is Some,
        ground.verdict(quest_in(reply)->0, before.grace_period(), now) is Ok,
        ground == RefundGround::Closing ==> closed(quest_in(reply)->0.status),
        ground == RefundGround::Archiving ==> quest_in(reply)->0.status == QuestStatus::Archived,
        ground == RefundGround::Expiry ==> 0 < quest_in(reply)->0.deadline < now,
{
}

/// While the contract is paused, no funding goes through: it is refused as
/// paused, whatever else holds.
pub proof fn law_paused_refuses_funding(
    before: World,
    after: World,
    result: Result<(), RewardsErrorEnum>,
    funder: Seq<u8>,
    quest_id: u32,
    amount: i128,
    reply: Option<Datum>,
    token_live: bool,
)
    requires
        before.paused(),
        funding_run(before, after, result, funder, quest_id, amount, reply, token_live),
    ensures
        result == Err::<(), RewardsErrorEnum>(RewardsErrorEnum::Paused),
{
}

/// While the contract is paused, no payout goes through.
pub proof fn law_paused_refuses_payout(
    before: World,
    after: World,
    result: Result<(), RewardsErrorEnum>,
    caller: Seq<u8>,
    quest_id: u32,
    milestone_id: u32,
    enrollee: Seq<u8>,
    amount: i128,
    completed: bool,
    reply: Option<Datum>,
)
    requires
        before.paused(),
        payout_run(
            before,
            after,
            result,
            caller,
            quest_id,
            milestone_id,
            enrollee,
            amount,
            completed,
            reply,
        ),
    ensures
        result == Err::<(), RewardsErrorEnum>(RewardsErrorEnum::Paused),
{
}

/// While the contract is paused, no grace period is set.
pub proof fn law_paused_refuses_grace_period(
    before: World,
    after: World,
    result: Result<(), RewardsErrorEnum>,
    admin: Seq<u8>,
    seconds: u64,
)
    requires
        before.paused(),
        grace_period_run(before, after, result, admin, seconds),
    ensures
        result == Err::<(), RewardsErrorEnum>(RewardsErrorEnum::Paused),
        after.grace_period() == before.grace_period(),
{
}

/// While the contract is paused, no claim goes through.
pub proof fn law_paused_refuses_claim(
    before: World,
    after: World,
    result: Result<i128, RewardsErrorEnum>,
    claimant: Seq<u8>,
    quest_id: u32,
    ids: Seq<Datum>,
    replies: Seq<ClaimReply>,
)
    requires
        before.paused(),
        claim_run(before, after, result, claimant, quest_id, ids, replies),
    ensures
        result == Err::<i128, RewardsErrorEnum>(RewardsErrorEnum::Paused),
{
}

/// While the contract is paused, no refund goes through.
pub proof fn law_paused_refuses_refund(
    before: World,
    after: World,
    result: Result<i128, RewardsErrorEnum>,
    authority: Seq<u8>,
    quest_id: u32,
    ground: RefundGround,
    wanted: Option<i128>,
    reply: Option<Datum>,
    now: u64,
    reserved: i128,
)
    requires
        before.paused(),
        refund_run(
            before,
            after,
            result,
            authority,
            quest_id,
            ground,
            wanted,
            reply,
            now,
            reserved,
        ),
    ensures
        result == Err::<i128, RewardsErrorEnum>(RewardsErrorEnum::Paused),
{
}

/// Unpausing undoes pausing: both stores are as they were, where the contract
/// held that it was not paused.
pub proof fn law_unpause_undoes_pause(before: World, paused: World, after: World, admin: Seq<u8>)
    requires
        before.instance.contains_key(Key::Paused.path()),
        before.instance[Key::Paused.path()] == Datum::Flag(false),
        pause_run(before, paused, Ok(()), admin, true),
        pause_run(paused, after, Ok(()), admin, false),
    ensures
        paused.paused(),
        !after.paused(),
        after.instance == before.instance,
        after.persistent == before.persistent,
{
    assert(after.instance =~= before.instance);
}

/// Whoever pauses the contract can unpause it.
pub proof fn law_pause_can_be_undone(
    before: World,
    paused: World,
    after: World,
    result: Result<(), RewardsErrorEnum>,
    admin: Seq<u8>,
)
    requires
        pause_run(before, paused, Ok(()), admin, true),
        pause_run(paused, after, result, admin, false),
    ensures
        result is Ok,
        !after.paused(),
{
    broadcast use lemma_path_injective;

}

/// The contract is set up once: another attempt is refused, whoever makes it.
pub proof fn law_initialized_once(
    before: World,
    middle: World,
    after: World,
    result: Result<(), RewardsErrorEnum>,
    admin: Seq<u8>,
    token: Seq<u8>,
    quests: Seq<u8>,
    milestones: Seq<u8>,
    other_admin: Seq<u8>,
    other_token: Seq<u8>,
    other_quests: Seq<u8>,
    other_milestones: Seq<u8>,
)
    requires
        initialize_run(before, middle, Ok(()), admin, token, quests, milestones),
        initialize_run(
            middle,
            after,
            result,
            other_admin,
            other_token,
            other_quests,
            other_milestones,
        ),
    ensures
        result == Err::<(), RewardsErrorEnum>(RewardsErrorEnum::AlreadyInitialized),
        after.instance == middle.instance,
        after.persistent == middle.persistent,
{
    broadcast use lemma_path_injective;

    assert(initialized(middle));
}

/// A payout on record is never made again: the authority's attempt is refused,
/// as already paid unless it is refused sooner.
pub proof fn law_paid_is_refused(
    w: World,
    caller: Seq<u8>,
    quest_id: u32,
    milestone_id: u32,
    enrollee: Seq<u8>,
    amount: i128,
    completed: bool,
    reply: Option<Datum>,
)
    requires
        w.paid(quest_id, milestone_id, enrollee),
    ensures
        ({
            let outcome = payout_outcome(
                w,
                caller,
                quest_id,
                milestone_id,
                enrollee,
                amount,
                completed,
                reply,
            );
            outcome == Err::<(), RewardsErrorEnum>(
                if w.paused() {
                    RewardsErrorEnum::Paused
                } else if !payable(amount) {
                    RewardsErrorEnum::InvalidAmount
                } else {
                    RewardsErrorEnum::AlreadyPaid
                },
            )
        }),
{
}

/// A claim that names a milestone for which a payout is on record is refused as
/// a whole.
pub proof fn law_paid_refuses_claim(
    w: World,
    claimant: Seq<u8>,
    quest_id: u32,
    ids: Seq<Datum>,
    replies: Seq<ClaimReply>,
    milestone_id: u32,
)
    requires
        claims_milestone(ids, ids.len(), milestone_id),
        w.paid(quest_id, milestone_id, claimant),
    ensures
        claim_outcome(w, claimant, quest_id, ids, replies) is Err,
{
    let index = choose|i: int| 0 <= i < ids.len() && #[trigger] ids[i] == Datum::Count(milestone_id);
    if claim_checked(w, claimant, quest_id, ids, replies, ids.len()) is Ok {
        lemma_claim_checked(w, claimant, quest_id, ids, replies, ids.len(), index);
    }
}

// ---------------------------------------------------------------------------
// Refunds
// ---------------------------------------------------------------------------

/// A refund leaves in the pool what is reserved and not yet paid: all that is
/// wanted leaves at least that, and a refund of all that can be refunded leaves
/// exactly that.
pub proof fn law_refund_leaves_obligations(
    before: World,
    after: World,
    amount: i128,
    authority: Seq<u8>,
    quest_id: u32,
    ground: RefundGround,
    wanted: Option<i128>,
    reply: Option<Datum>,
    now: u64,
    reserved: i128,
)
    requires
        refund_run(
            before,
            after,
            Ok(amount),
            authority,
            quest_id,
            ground,
            wanted,
            reply,
            now,
            reserved,
        ),
        amount > 0,
    ensures
        after.pool(quest_id) >= owed(reserved, after.distributed(quest_id)),
        wanted is None ==> after.pool(quest_id) == owed(reserved, after.distributed(quest_id)),
{
    broadcast use lemma_path_injective;

}

/// Nothing is refunded where the pool holds no more than what is reserved and
/// not yet paid.
pub proof fn law_nothing_left_refunds_nothing(
    before: World,
    after: World,
    amount: i128,
    authority: Seq<u8>,
    quest_id: u32,
    ground: RefundGround,
    reply: Option<Datum>,
    now: u64,
    reserved: i128,
)
    requires
        refund_run(
            before,
            after,
            Ok(amount),
            authority,
            quest_id,
            ground,
            None,
            reply,
            now,
            reserved,
        ),
        before.pool(quest_id) <= owed(reserved, before.distributed(quest_id)),
    ensures
        amount == 0,
        after.instance == before.instance,
        after.persistent == before.persistent,
{
}

/// A refund takes no more from a pool than it holds: whatever is reserved for
/// the quest, it never takes tokens that are held for other quests.
pub proof fn law_refund_is_covered(
    before: World,
    after: World,
    amount: i128,
    authority: Seq<u8>,
    quest_id: u32,
    ground: RefundGround,
    wanted: Option<i128>,
    reply: Option<Datum>,
    now: u64,
    reserved: i128,
)
    requires
        refund_run(
            before,
            after,
            Ok(amount),
            authority,
            quest_id,
            ground,
            wanted,
            reply,
            now,
            reserved,
        ),
        before.pool(quest_id) >= 0,
    ensures
        amount <= before.pool(quest_id),
        after.pool(quest_id) >= 0,
{
    broadcast use lemma_path_injective;

}

/// After a refund the total funded is never negative.
pub proof fn law_total_funded_not_negative(
    before: World,
    after: World,
    amount: i128,
    authority: Seq<u8>,
    quest_id: u32,
    ground: RefundGround,
    wanted: Option<i128>,
    reply: Option<Datum>,
    now: u64,
    reserved: i128,
)
    requires
        refund_run(
            before,
            after,
            Ok(amount),
            authority,
            quest_id,
            ground,
            wanted,
            reply,
            now,
            reserved,
        ),
        amount > 0,
    ensures
        after.total_funded() >= 0,
{
    broadcast use lemma_path_injective;

}

/// Refunding all that is unused is refunding that amount: the one does exactly
/// what the other does, where the amount can be moved at once, and no larger
/// amount can be refunded.
pub proof fn law_unused_is_largest_refund(
    w: World,
    amount: i128,
    authority: Seq<u8>,
    quest_id: u32,
    reply: Option<Datum>,
    now: u64,
    reserved: i128,
)
    requires
        refund_outcome(
            w,
            authority,
            quest_id,
            RefundGround::Archiving,
            None,
            reply,
            now,
            reserved,
        ) == Ok::<i128, RewardsErrorEnum>(amount),
        payable(amount),
    ensures
        refund_outcome(
            w,
            authority,
            quest_id,
            RefundGround::Closing,
            Some(amount),
            reply,
            now,
            reserved,
        ) == Ok::<i128, RewardsErrorEnum>(amount),
        refund_world(
            w,
            authority,
            quest_id,
            RefundGround::Closing,
            Some(amount),
            reply,
            now,
            reserved,
        ) == refund_world(
            w,
            authority,
            quest_id,
            RefundGround::Archiving,
            None,
            reply,
            now,
            reserved,
        ),
        forall|more: i128|
            more > amount && payable(more) ==> #[trigger] refund_outcome(
                w,
                authority,
                quest_id,
                RefundGround::Closing,
                Some(more),
                reply,
                now,
                reserved,
            ) == Err::<i128, RewardsErrorEnum>(RewardsErrorEnum::InsufficientPool),
{
}

/// The refund window says when the unused pool of a quest can be refunded:
/// exactly at the times within it. The window of a quest that is not archived
/// has two zeros. This is said of windows that open before the end of time.
pub proof fn law_window_is_verdict(
    status: QuestStatus,
    archived_at: u64,
    grace_period: u64,
    now: u64,
)
    requires
        archived_at + grace_period <= u64::MAX,
    ensures
        ({
            let window = refund_window_of(status, archived_at, grace_period);
            &&& status != QuestStatus::Archived <==> window == (0u64, 0u64)
            &&& archiving_verdict(status, archived_at, grace_period, now) is Ok <==> window != (
                0u64,
                0u64,
            ) && window.0 <= now <= window.1
        }),
{
}

/// An amount can be refunded from a cancelled quest at any time, and from an
/// archived one from the end of the grace period on.
pub proof fn law_closing_times(archived_at: u64, grace_period: u64, now: u64)
    ensures
        closing_verdict(QuestStatus::Cancelled, archived_at, grace_period, now) is Ok,
        closing_verdict(QuestStatus::Archived, archived_at, grace_period, now) is Ok <==> now
            >= archived_at + grace_period,
        closing_verdict(QuestStatus::Active, archived_at, grace_period, now) is Err,
{
}

/// Once a quest can be refunded, it can be refunded at any later time.
pub proof fn law_refunds_stay_open(
    status: QuestStatus,
    archived_at: u64,
    deadline: u64,
    grace_period: u64,
    now: u64,
    later: u64,
)
    requires
        now <= later,
    ensures
        closing_verdict(status, archived_at, grace_period, now) is Ok ==> closing_verdict(
            status,
            archived_at,
            grace_period,
            later,
        ) is Ok,
        archiving_verdict(status, archived_at, grace_period, now) is Ok ==> archiving_verdict(
            status,
            archived_at,
            grace_period,
            later,
        ) is Ok,
        expiry_verdict(deadline, grace_period, now) is Ok ==> expiry_verdict(
            deadline,
            grace_period,
            later,
        ) is Ok,
{
}

/// Whether the deadline of a quest opens its pool does not depend on its status:
/// two quests that differ in nothing else are treated alike.
pub proof fn law_expiry_ignores_status(
    w: World,
    one: Option<Datum>,
    other: Option<Datum>,
    now: u64,
)
    requires
        quest_in(one) is Some,
        quest_in(other) is Some,
        quest_in(one)->0.deadline == quest_in(other)->0.deadline,
    ensures
        refund_terms(w, RefundGround::Expiry, one, now) == refund_terms(
            w,
            RefundGround::Expiry,
            other,
            now,
        ),
{
}

// ---------------------------------------------------------------------------
// Refusals
// ---------------------------------------------------------------------------

/// Whether nothing but requests to the host lies between two worlds, none of
/// which moves tokens.
pub open spec fn untouched(before: World, after: World) -> bool {
    &&& after.instance == before.instance
    &&& after.persistent == before.persistent
    &&& after.own == before.own
    &&& before.steps.len() <= after.steps.len()
    &&& forall|i: int| 0 <= i < before.steps.len() ==> #[trigger] after.steps[i] == before.steps[i]
    &&& forall|i: int|
        before.steps.len() <= i < after.steps.len() ==> !((#[trigger] after.steps[i])
            is Transferred)
}

/// A funding that is refused writes nothing and moves nothing.
pub proof fn law_refused_funding_changes_nothing(
    before: World,
    after: World,
    error: RewardsErrorEnum,
    funder: Seq<u8>,
    quest_id: u32,
    amount: i128,
    reply: Option<Datum>,
    token_live: bool,
)
    requires
        funding_run(before, after, Err(error), funder, quest_id, amount, reply, token_live),
    ensures
        untouched(before, after),
{
}

/// A payout that is refused writes nothing and moves nothing.
pub proof fn law_refused_payout_changes_nothing(
    before: World,
    after: World,
    error: RewardsErrorEnum,
    caller: Seq<u8>,
    quest_id: u32,
    milestone_id: u32,
    enrollee: Seq<u8>,
    amount: i128,
    completed: bool,
    reply: Option<Datum>,
)
    requires
        payout_run(
            before,
            after,
            Err(error),
            caller,
            quest_id,
            milestone_id,
            enrollee,
            amount,
            completed,
            reply,
        ),
    ensures
        untouched(before, after),
{
}

/// A refund that is refused writes nothing and moves nothing.
pub proof fn law_refused_refund_changes_nothing(
    before: World,
    after: World,
    error: RewardsErrorEnum,
    authority: Seq<u8>,
    quest_id: u32,
    ground: RefundGround,
    wanted: Option<i128>,
    reply: Option<Datum>,
    now: u64,
    reserved: i128,
)
    requires
        refund_run(
            before,
            after,
            Err(error),
            authority,
            quest_id,
            ground,
            wanted,
            reply,
            now,
            reserved,
        ),
    ensures
        untouched(before, after),
{
}

/// Asking about the milestones of a claim changes nothing.
proof fn lemma_claim_asked_untouched(
    w: World,
    at: World,
    claimant: Seq<u8>,
    quest_id: u32,
    ids: Seq<Datum>,
    replies: Seq<ClaimReply>,
    count: nat,
)
    ensures
        untouched(at, claim_asked(w, at, claimant, quest_id, ids, replies, count)),
    decreases count,
{
    if count > 0 {
        lemma_claim_asked_untouched(w, at, claimant, quest_id, ids, replies, (count - 1) as nat);
    }
}

/// A claim is paid as a whole or not at all: where one of its milestones is
/// refused, the pool does not hold enough for all, or the counters cannot take
/// them, nothing is written and nothing is moved.
pub proof fn law_refused_claim_changes_nothing(
    before: World,
    after: World,
    error: RewardsErrorEnum,
    claimant: Seq<u8>,
    quest_id: u32,
    ids: Seq<Datum>,
    replies: Seq<ClaimReply>,
)
    requires
        claim_run(before, after, Err(error), claimant, quest_id, ids, replies),
    ensures
        untouched(before, after),
{
    let at = before.note(Step::Authorized { who: claimant });
    lemma_claim_asked_untouched(before, at, claimant, quest_id, ids, replies, ids.len());
}

// ---------------------------------------------------------------------------
// Order
// ---------------------------------------------------------------------------

/// A payout goes on record before its tokens are moved.
pub proof fn law_record_before_transfer(
    before: World,
    after: World,
    caller: Seq<u8>,
    quest_id: u32,
    milestone_id: u32,
    enrollee: Seq<u8>,
    amount: i128,
    completed: bool,
    reply: Option<Datum>,
) -> (places: (int, int))
    requires
        payout_run(
            before,
            after,
            Ok(()),
            caller,
            quest_id,
            milestone_id,
            enrollee,
            amount,
            completed,
            reply,
        ),
    ensures
        before.steps.len() <= places.0 < places.1 < after.steps.len(),
        after.steps[places.0] == (Step::PersistentSet {
            key: Key::PayoutRecord(quest_id, milestone_id, enrollee).path(),
            value: Datum::Amount(amount),
        }),
        after.steps[places.1] == (Step::Transferred {
            token: before.token()->0,
            from: before.own,
            to: enrollee,
            amount,
        }),
{
    let start = before.steps.len() as int;
    (start + 5, start + 9)
}

/// Each step of paying a claim adds to the steps before it.
proof fn lemma_claim_paid_steps(
    w: World,
    at: World,
    claimant: Seq<u8>,
    quest_id: u32,
    ids: Seq<Datum>,
    replies: Seq<ClaimReply>,
    count: nat,
    index: int,
)
    requires
        0 <= index < count,
    ensures
        ({
            let paid = claim_paid(w, at, claimant, quest_id, ids, replies, count);
            let start = at.steps.len() + 4 * index;
            &&& paid.steps.len() == at.steps.len() + 4 * count
            &&& paid.steps[start] == (Step::PersistentSet {
                key: Key::PayoutRecord(quest_id, ids[index]->Count_0, claimant).path(),
                value: Datum::Amount(claim_amount(replies, index)),
            })
            &&& paid.steps[start + 2] == (Step::Transferred {
                token: w.token()->0,
                from: w.own,
                to: claimant,
                amount: claim_amount(replies, index),
            })
        }),
    decreases count,
{
    let previous = (count - 1) as nat;
    if index < count - 1 {
        lemma_claim_paid_steps(w, at, claimant, quest_id, ids, replies, previous, index);
    } else if previous > 0 {
        lemma_claim_paid_steps(w, at, claimant, quest_id, ids, replies, previous, 0);
    } else {
        assert(claim_paid(w, at, claimant, quest_id, ids, replies, previous) == at);
    }
}

/// Every milestone of a claim goes on record before its tokens are moved.
pub proof fn law_claim_record_before_transfer(
    before: World,
    after: World,
    total: i128,
    claimant: Seq<u8>,
    quest_id: u32,
    ids: Seq<Datum>,
    replies: Seq<ClaimReply>,
    index: int,
) -> (places: (int, int))
    requires
        claim_run(before, after, Ok(total), claimant, quest_id, ids, replies),
        0 <= index < ids.len(),
    ensures
        before.steps.len() <= places.0 < places.1 < after.steps.len(),
        after.steps[places.0] == (Step::PersistentSet {
            key: Key::PayoutRecord(quest_id, ids[index]->Count_0, claimant).path(),
            value: Datum::Amount(claim_amount(replies, index)),
        }),
        after.steps[places.1] == (Step::Transferred {
            token: before.token()->0,
            from: before.own,
            to: claimant,
            amount: claim_amount(replies, index),
        }),
{
    let at = before.note(Step::Authorized { who: claimant });
    let asked = claim_asked(before, at, claimant, quest_id, ids, replies, ids.len());
    lemma_claim_asked_untouched(before, at, claimant, quest_id, ids, replies, ids.len());
    lemma_claim_paid_steps(before, asked, claimant, quest_id, ids, replies, ids.len(), index);
    let start = asked.steps.len() + 4 * index;
    (start, start + 2)
}

/// A funding that gets as far as asking for the quest announces the call before
/// it makes it, and how it ended right after.
pub proof fn law_funding_announces_call(
    before: World,
    after: World,
    result: Result<(), RewardsErrorEnum>,
    funder: Seq<u8>,
    quest_id: u32,
    amount: i128,
    reply: Option<Datum>,
    token_live: bool,
)
    requires
        funding_run(before, after, result, funder, quest_id, amount, reply, token_live),
        funding_request(before, amount) is Ok,
    ensures
        ({
            let start = before.steps.len() as int;
            let quest_contract = before.quest_contract()->0;
            &&& after.steps.len() >= start + 4
            &&& after.steps[start] == (Step::Authorized { who: funder })
            &&& after.steps[start + 1] == (Step::Published {
                topics: seq![Datum::Symbol("cross_contract_call"@)],
                data: seq![
                    Datum::Account(before.own),
                    Datum::Account(quest_contract),
                    Datum::Symbol("get_quest"@),
                    Datum::Text(Seq::empty()),
                ],
            })
            &&& after.steps[start + 2] == (Step::Called {
                contract: quest_contract,
                function: "get_quest"@,
                args: seq![Datum::Count(quest_id)],
                reply,
            })
            &&& after.steps[start + 3] == (Step::Published {
                topics: seq![Datum::Symbol("cross_contract_return"@)],
                data: seq![
                    Datum::Account(before.own),
                    Datum::Account(quest_contract),
                    Datum::Symbol("get_quest"@),
                    Datum::Flag(quest_in(reply) is Some),
                    Datum::Text(Seq::empty()),
                ],
            })
        }),
{
}

/// A payout that gets as far as asking for the milestone announces the call
/// before it makes it, and how it ended right after.
pub proof fn law_payout_announces_call(
    before: World,
    after: World,
    result: Result<(), RewardsErrorEnum>,
    caller: Seq<u8>,
    quest_id: u32,
    milestone_id: u32,
    enrollee: Seq<u8>,
    amount: i128,
    completed: bool,
    reply: Option<Datum>,
)
    requires
        payout_run(
            before,
            after,
            result,
            caller,
            quest_id,
            milestone_id,
            enrollee,
            amount,
            completed,
            reply,
        ),
        payout_request(before, caller, quest_id, milestone_id, enrollee, amount) is Ok,
    ensures
        ({
            let start = before.steps.len() as int;
            let milestone_contract = before.milestone_contract()->0;
            &&& after.steps.len() >= start + 4
            &&& after.steps[start] == (Step::Authorized { who: caller })
            &&& after.steps[start + 1] == (Step::Published {
                topics: seq![Datum::Symbol("cross_contract_call"@)],
                data: seq![
                    Datum::Account(before.own),
                    Datum::Account(milestone_contract),
                    Datum::Symbol("is_completed"@),
                    Datum::Text(Seq::empty()),
                ],
            })
            &&& after.steps[start + 2] == (Step::Called {
                contract: milestone_contract,
                function: "is_completed"@,
                args: seq![
                    Datum::Count(quest_id),
                    Datum::Count(milestone_id),
                    Datum::Account(enrollee),
                ],
                reply: Some(Datum::Flag(completed)),
            })
            &&& after.steps[start + 3] == (Step::Published {
                topics: seq![Datum::Symbol("cross_contract_return"@)],
                data: seq![
                    Datum::Account(before.own),
                    Datum::Account(milestone_contract),
                    Datum::Symbol("is_completed"@),
                    Datum::Flag(completed),
                    Datum::Text(Seq::empty()),
                ],
            })
        }),
{
}

// ---------------------------------------------------------------------------
// Lifetimes
// ---------------------------------------------------------------------------

/// Whether every write to the persistent store is followed at once by an
/// extension of the lifetime of the entry.
pub open spec fn extends_writes(steps: Seq<Step>) -> bool {
    forall|i: int|
        0 <= i < steps.len() ==> match #[trigger] steps[i] {
            Step::PersistentSet { key, value } => i + 1 < steps.len() && steps[i + 1] == (
            Step::PersistentExtended { key, threshold: THRESHOLD, extend_to: BUMP }),
            _ => true,
        }
}

/// A step that is no such write keeps that.
broadcast proof fn lemma_extends_note(steps: Seq<Step>, step: Step)
    requires
        extends_writes(steps),
        !(step is PersistentSet),
    ensures
        #[trigger] extends_writes(steps.push(step)),
{
    let after = steps.push(step);
    assert forall|i: int| 0 <= i < after.len() implies match #[trigger] after[i] {
        Step::PersistentSet { key, value } => i + 1 < after.len() && after[i + 1] == (
        Step::PersistentExtended { key, threshold: THRESHOLD, extend_to: BUMP }),
        _ => true,
    } by {
        if i < steps.len() {
            assert(after[i] == steps[i]);
        }
    }
}

/// A write with its extension keeps that.
broadcast proof fn lemma_extends_keep(steps: Seq<Step>, key: Seq<Datum>, value: Datum)
    requires
        extends_writes(steps),
    ensures
        #[trigger] extends_writes(
            steps.push(Step::PersistentSet { key, value }).push(
                Step::PersistentExtended { key, threshold: THRESHOLD, extend_to: BUMP },
            ),
        ),
{
    let after = steps.push(Step::PersistentSet { key, value }).push(
        Step::PersistentExtended { key, threshold: THRESHOLD, extend_to: BUMP },
    );
    assert forall|i: int| 0 <= i < after.len() implies match #[trigger] after[i] {
        Step::PersistentSet { key, value } => i + 1 < after.len() && after[i + 1] == (
        Step::PersistentExtended { key, threshold: THRESHOLD, extend_to: BUMP }),
        _ => true,
    } by {
        if i < steps.len() {
            assert(after[i] == steps[i]);
        }
    }
}

/// A funding extends the lifetime of every entry that it writes.
pub proof fn law_funding_extends(
    before: World,
    after: World,
    result: Result<(), RewardsErrorEnum>,
    funder: Seq<u8>,
    quest_id: u32,
    amount: i128,
    reply: Option<Datum>,
    token_live: bool,
)
    requires
        funding_run(before, after, result, funder, quest_id, amount, reply, token_live),
        extends_writes(before.steps),
    ensures
        extends_writes(after.steps),
{
    broadcast use {lemma_extends_note, lemma_extends_keep};

}

/// A payout extends the lifetime of every entry that it writes.
pub proof fn law_payout_extends(
    before: World,
    after: World,
    result: Result<(), RewardsErrorEnum>,
    caller: Seq<u8>,
    quest_id: u32,
    milestone_id: u32,
    enrollee: Seq<u8>,
    amount: i128,
    completed: bool,
    reply: Option<Datum>,
)
    requires
        payout_run(
            before,
            after,
            result,
            caller,
            quest_id,
            milestone_id,
            enrollee,
            amount,
            completed,
            reply,
        ),
        extends_writes(before.steps),
    ensures
        extends_writes(after.steps),
{
    broadcast use {lemma_extends_note, lemma_extends_keep};

}

/// A refund extends the lifetime of every entry that it writes.
pub proof fn law_refund_extends(
    before: World,
    after: World,
    result: Result<i128, RewardsErrorEnum>,
    authority: Seq<u8>,
    quest_id: u32,
    ground: RefundGround,
    wanted: Option<i128>,
    reply: Option<Datum>,
    now: u64,
    reserved: i128,
)
    requires
        refund_run(
            before,
            after,
            result,
            authority,
            quest_id,
            ground,
            wanted,
            reply,
            now,
            reserved,
        ),
        extends_writes(before.steps),
    ensures
        extends_writes(after.steps),
{
    broadcast use {lemma_extends_note, lemma_extends_keep};

}

/// Asking about the milestones of a claim writes nothing.
proof fn lemma_claim_asked_extends(
    w: World,
    at: World,
    claimant: Seq<u8>,
    quest_id: u32,
    ids: Seq<Datum>,
    replies: Seq<ClaimReply>,
    count: nat,
)
    requires
        extends_writes(at.steps),
    ensures
        extends_writes(claim_asked(w, at, claimant, quest_id, ids, replies, count).steps),
    decreases count,
{
    broadcast use lemma_extends_note;

    if count > 0 {
        lemma_claim_asked_extends(w, at, claimant, quest_id, ids, replies, (count - 1) as nat);
    }
}

/// Paying the milestones of a claim extends the lifetime of their records.
proof fn lemma_claim_paid_extends(
    w: World,
    at: World,
    claimant: Seq<u8>,
    quest_id: u32,
    ids: Seq<Datum>,
    replies: Seq<ClaimReply>,
    count: nat,
)
    requires
        extends_writes(at.steps),
    ensures
        extends_writes(claim_paid(w, at, claimant, quest_id, ids, replies, count).steps),
    decreases count,
{
    broadcast use {lemma_extends_note, lemma_extends_keep};

    if count > 0 {
        lemma_claim_paid_extends(w, at, claimant, quest_id, ids, replies, (count - 1) as nat);
    }
}

/// A claim extends the lifetime of every entry that it writes.
pub proof fn law_claim_extends(
    before: World,
    after: World,
    result: Result<i128, RewardsErrorEnum>,
    claimant: Seq<u8>,
    quest_id: u32,
    ids: Seq<Datum>,
    replies: Seq<ClaimReply>,
)
    requires
        claim_run(before, after, result, claimant, quest_id, ids, replies),
        extends_writes(before.steps),
    ensures
        extends_writes(after.steps),
{
    broadcast use {lemma_extends_note, lemma_extends_keep};

    let at = before.note(Step::Authorized { who: claimant });
    let asked = claim_asked(before, at, claimant, quest_id, ids, replies, ids.len());
    lemma_claim_asked_extends(before, at, claimant, quest_id, ids, replies, ids.len());
    lemma_claim_paid_extends(before, asked, claimant, quest_id, ids, replies, ids.len());
}

// ---------------------------------------------------------------------------
// Codes and addresses
// ---------------------------------------------------------------------------

/// No two errors have the same code.
pub proof fn law_error_codes_differ(a: RewardsErrorEnum, b: RewardsErrorEnum)
    requires
        a.spec_code() == b.spec_code(),
    ensures
        a == b,
{
}

/// The address of an account, whose text form starts with a `G`, is never taken
/// for that of a contract.
pub proof fn law_account_is_no_contract(text: Seq<u8>)
    requires
        text.len() > 0,
        text[0] == 'G' as u8,
    ensures
        !contract_address_text(text),
{
}

} // verus!
