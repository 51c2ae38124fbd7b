//! What holds of the contract over any course of operations.

use vstd::prelude::*;

use crate::claims::{claim_asked, claim_paid, claim_run, claim_total, ClaimReply};
use crate::contract::{grace_period_run, initialize_run, initialized, pause_run, upgrade_run};
use crate::effects::{
    claims_milestone, law_claim_effect, law_funding_effect, law_grace_period_effect,
    law_initialize_effect, law_pause_effect, law_payout_effect, law_refund_effect,
    law_refund_window_effect, law_upgrade_effect, same_earnings, same_other_earnings, same_quest,
};
use crate::funding::funding_run;
use crate::laws::law_refund_is_covered;
use crate::model::{Datum, Step, World};
use crate::payouts::payout_run;
use crate::refunds::{refund_run, refund_window_run, RefundGround};
use crate::rules::settable_grace_period;
use crate::sums::{
    earned, earners, funded_quests, held, lemma_held_push, lemma_sum_change, lemma_sum_least,
    lemma_sum_over_remove, lemma_sum_over_same, lemma_sum_zero, payment_flow, payouts, pools,
};

verus! {

/// An operation of the contract, with the answers that it got.
pub enum Operation {
    Initialize {
        admin: Seq<u8>,
        token: Seq<u8>,
        quest_contract: Seq<u8>,
        milestone_contract: Seq<u8>,
    },
    Upgrade { admin: Seq<u8>, hash: Seq<u8> },
    Pause { admin: Seq<u8>, paused: bool },
    SetGracePeriod { admin: Seq<u8>, seconds: u64 },
    Fund {
        funder: Seq<u8>,
        quest_id: u32,
        amount: i128,
        reply: Option<Datum>,
        token_live: bool,
    },
    Distribute {
        caller: Seq<u8>,
        quest_id: u32,
        milestone_id: u32,
        enrollee: Seq<u8>,
        amount: i128,
        completed: bool,
        reply: Option<Datum>,
    },
    Claim {
        claimant: Seq<u8>,
        quest_id: u32,
        ids: Seq<Datum>,
        replies: Seq<ClaimReply>,
        total: i128,
    },
    Refund {
        authority: Seq<u8>,
        quest_id: u32,
        ground: RefundGround,
        wanted: Option<i128>,
        reply: Option<Datum>,
        now: u64,
        reserved: i128,
        amount: i128,
    },
    FindWindow { quest_id: u32, reply: Option<Datum>, window: (u64, u64) },
}

impl Operation {
    /// Whether the operation succeeds and leads from one world to another.
    pub open spec fn leads(self, before: World, after: World) -> bool {
        match self {
            Operation::Initialize { admin, token, quest_contract, milestone_contract } => {
                initialize_run(
                    before,
                    after,
                    Ok(()),
                    admin,
                    token,
                    quest_contract,
                    milestone_contract,
                )
            },
            Operation::Upgrade { admin, hash } => upgrade_run(before, after, Ok(()), admin, hash),
            Operation::Pause { admin, paused } => pause_run(before, after, Ok(()), admin, paused),
            Operation::SetGracePeriod { admin, seconds } => {
                grace_period_run(before, after, Ok(()), admin, seconds)
            },
            Operation::Fund { funder, quest_id, amount, reply, token_live } => {
                funding_run(before, after, Ok(()), funder, quest_id, amount, reply, token_live)
            },
            Operation::Distribute {
                caller,
                quest_id,
                milestone_id,
                enrollee,
                amount,
                completed,
                reply,
            } => payout_run(
                before,
                after,
                Ok(()),
                caller,
                quest_id,
                milestone_id,
                enrollee,
                amount,
                completed,
                reply,
            ),
            Operation::Claim { claimant, quest_id, ids, replies, total } => {
                claim_run(before, after, Ok(total), claimant, quest_id, ids, replies)
            },
            Operation::Refund {
                authority,
                quest_id,
                ground,
                wanted,
                reply,
                now,
                reserved,
                amount,
            } => refund_run(
                before,
                after,
                Ok(amount),
                authority,
                quest_id,
                ground,
                wanted,
                reply,
                now,
                reserved,
            ),
            Operation::FindWindow { quest_id, reply, window } => {
                refund_window_run(before, after, window, quest_id, reply)
            },
        }
    }

    /// Whether the tokens that the operation moves come from, or go to, someone
    /// other than the contract itself.
    pub open spec fn with_others(self, before: World) -> bool {
        match self {
            Operation::Fund { funder, .. } => funder != before.own,
            Operation::Distribute { enrollee, .. } => enrollee != before.own,
            Operation::Claim { claimant, .. } => claimant != before.own,
            Operation::Refund { authority, .. } => authority != before.own,
            _ => true,
        }
    }

    /// Whether the operation pays a user for a milestone.
    pub open spec fn pays(self, quest: u32, milestone: u32, user: Seq<u8>) -> bool {
        match self {
            Operation::Distribute { quest_id, milestone_id, enrollee, .. } => {
                quest_id == quest && milestone_id == milestone && enrollee == user
            },
            Operation::Claim { claimant, quest_id, ids, .. } => {
                quest_id == quest && claimant == user && claims_milestone(
                    ids,
                    ids.len(),
                    milestone,
                )
            },
            _ => false,
        }
    }
}

impl Operation {
    /// What the operation brings into the pool of a quest.
    pub open spec fn brings(self, quest: u32) -> int {
        match self {
            Operation::Fund { quest_id, amount, .. } if quest_id == quest => amount as int,
            _ => 0,
        }
    }

    /// What the operation pays out of the pool of a quest.
    pub open spec fn pays_from(self, quest: u32) -> int {
        match self {
            Operation::Distribute { quest_id, amount, .. } if quest_id == quest => amount as int,
            Operation::Claim { quest_id, total, .. } if quest_id == quest => total as int,
            _ => 0,
        }
    }

    /// What the operation pays out in all.
    pub open spec fn pays_out(self) -> int {
        match self {
            Operation::Distribute { amount, .. } => amount as int,
            Operation::Claim { total, .. } => total as int,
            _ => 0,
        }
    }

    /// What the operation pays to a user.
    pub open spec fn pays_to(self, user: Seq<u8>) -> int {
        match self {
            Operation::Distribute { enrollee, amount, .. } if enrollee == user => amount as int,
            Operation::Claim { claimant, total, .. } if claimant == user => total as int,
            _ => 0,
        }
    }

    /// What the operation refunds from the pool of a quest.
    pub open spec fn refunds_from(self, quest: u32) -> int {
        match self {
            Operation::Refund { quest_id, amount, .. } if quest_id == quest => amount as int,
            _ => 0,
        }
    }
}

/// The sum of a quantity over the first operations of a course.
pub open spec fn total_over(
    operations: Seq<Operation>,
    quantity: spec_fn(Operation) -> int,
    count: nat,
) -> int
    decreases count,
{
    if count == 0 {
        0
    } else {
        total_over(operations, quantity, (count - 1) as nat) + quantity(operations[count - 1])
    }
}

/// Whether the books of the contract are in order.
pub open spec fn in_order(w: World) -> bool {
    // No pool is overdrawn.
    &&& forall|q: u32| 0 <= #[trigger] w.pool(q)
    &&& forall|q: u32| 0 <= #[trigger] w.distributed(q)
    &&& forall|q: u32| 0 <= #[trigger] w.refunded(q)
    // What was funded and not refunded is in the pools or was distributed.
    &&& w.total_funded() == pools(w) + w.total_distributed()
    &&& w.total_distributed() == payouts(w)
    &&& w.total_distributed() == earned(w)
    &&& earners(w).finite()
    &&& forall|user: Seq<u8>| 0 <= #[trigger] w.earnings(user)
    // Every funded quest is counted once.
    &&& w.quest_count() == funded_quests(w)
    // A quest without an authority was never funded.
    &&& forall|q: u32| #[trigger]
        w.authority(q) is None ==> w.pool(q) == 0 && w.distributed(q) == 0 && w.refunded(q) == 0
    // Nothing is funded before the contract is set up.
    &&& !initialized(w) ==> forall|q: u32| (#[trigger] w.authority(q)) is None
    &&& settable_grace_period(w.grace_period())
}

/// Whether nothing has been written yet.
pub open spec fn fresh(w: World) -> bool {
    &&& w.instance == Map::<Seq<Datum>, Datum>::empty()
    &&& w.persistent == Map::<Seq<Datum>, Datum>::empty()
    &&& w.steps == Seq::<Step>::empty()
}

/// Whether these worlds follow each other by these operations.
pub open spec fn course(operations: Seq<Operation>, worlds: Seq<World>) -> bool {
    &&& worlds.len() == operations.len() + 1
    &&& forall|i: int|
        0 <= i < operations.len() ==> #[trigger] operations[i].leads(worlds[i], worlds[i + 1])
}

/// The books of a contract to which nothing has been written are in order.
pub proof fn law_fresh_in_order(w: World)
    requires
        fresh(w),
    ensures
        in_order(w),
{
    lemma_sum_zero(|q: u32| w.pool(q) as int);
    lemma_sum_zero(|q: u32| w.distributed(q) as int);
    assert(earners(w) =~= Set::<Seq<u8>>::empty());
    lemma_sum_zero(
        |q: u32|
            if w.authority(q) is Some {
                1int
            } else {
                0
            },
    );
}

/// Where two worlds differ in one quest only, the sums over all quests differ by
/// as much.
proof fn lemma_one_quest(a: World, b: World, quest_id: u32)
    requires
        forall|other: u32| other != quest_id ==> #[trigger] same_quest(a, b, other),
    ensures
        pools(b) == pools(a) + b.pool(quest_id) - a.pool(quest_id),
        payouts(b) == payouts(a) + b.distributed(quest_id) - a.distributed(quest_id),
        funded_quests(b) == funded_quests(a) + (if b.authority(quest_id) is Some {
            1int
        } else {
            0
        }) - (if a.authority(quest_id) is Some {
            1int
        } else {
            0
        }),
{
    let pool_a = |q: u32| a.pool(q) as int;
    let pool_b = |q: u32| b.pool(q) as int;
    let out_a = |q: u32| a.distributed(q) as int;
    let out_b = |q: u32| b.distributed(q) as int;
    let has_a = |q: u32|
        if a.authority(q) is Some {
            1int
        } else {
            0
        };
    let has_b = |q: u32|
        if b.authority(q) is Some {
            1int
        } else {
            0
        };
    assert forall|q: u32| q != quest_id implies #[trigger] pool_a(q) == pool_b(q) by {
        assert(same_quest(a, b, q));
    }
    assert forall|q: u32| q != quest_id implies #[trigger] out_a(q) == out_b(q) by {
        assert(same_quest(a, b, q));
    }
    assert forall|q: u32| q != quest_id implies #[trigger] has_a(q) == has_b(q) by {
        assert(same_quest(a, b, q));
    }
    lemma_sum_change(pool_a, pool_b, quest_id);
    lemma_sum_change(out_a, out_b, quest_id);
    lemma_sum_change(has_a, has_b, quest_id);
}

/// Where two worlds agree on every quest, the sums over all quests agree.
proof fn lemma_all_quests(a: World, b: World)
    requires
        forall|q: u32| #[trigger] same_quest(a, b, q),
    ensures
        pools(b) == pools(a),
        payouts(b) == payouts(a),
        funded_quests(b) == funded_quests(a),
{
    assert(same_quest(a, b, 0));
    lemma_one_quest(a, b, 0);
}

/// Where the books are in order, no pool holds more than the total funded.
proof fn lemma_pool_below_total(w: World, quest_id: u32)
    requires
        in_order(w),
    ensures
        0 <= w.pool(quest_id) <= pools(w) <= w.total_funded(),
{
    let pool = |q: u32| w.pool(q) as int;
    let out = |q: u32| w.distributed(q) as int;
    assert forall|q: u32| 0 <= #[trigger] pool(q) by {
        assert(0 <= w.pool(q));
    }
    assert forall|q: u32| 0 <= #[trigger] out(q) by {
        assert(0 <= w.distributed(q));
    }
    lemma_sum_least(pool, quest_id);
    lemma_sum_least(out, quest_id);
    assert(0 <= w.pool(quest_id));
}

/// Where two worlds differ in what one user earned only, the sums over all users
/// differ by as much.
proof fn lemma_one_user(a: World, b: World, user: Seq<u8>)
    requires
        earners(a).finite(),
        forall|u: Seq<u8>| 0 <= #[trigger] a.earnings(u),
        same_other_earnings(a, b, user),
        b.earnings(user) > 0,
    ensures
        earners(b).finite(),
        earned(b) == earned(a) + b.earnings(user) - a.earnings(user),
        forall|u: Seq<u8>| 0 <= #[trigger] b.earnings(u),
{
    let by_a = |u: Seq<u8>| a.earnings(u) as int;
    let by_b = |u: Seq<u8>| b.earnings(u) as int;
    let rest = earners(a).remove(user);
    assert forall|u: Seq<u8>| #[trigger] earners(b).contains(u) <==> rest.insert(user).contains(
        u,
    ) by {
        assert(u != user ==> a.earnings(u) == b.earnings(u));
    }
    assert(earners(b) =~= rest.insert(user));
    assert(earners(b).remove(user) =~= rest);
    lemma_sum_over_remove(earners(b), by_b, user);
    assert forall|u: Seq<u8>| rest.contains(u) implies #[trigger] by_a(u) == by_b(u) by {
        assert(a.earnings(u) == b.earnings(u));
    }
    lemma_sum_over_same(rest, by_a, by_b);
    if earners(a).contains(user) {
        lemma_sum_over_remove(earners(a), by_a, user);
    } else {
        assert(earners(a) =~= rest);
    }
    assert forall|u: Seq<u8>| 0 <= #[trigger] b.earnings(u) by {
        assert(0 <= a.earnings(u));
        assert(u != user ==> a.earnings(u) == b.earnings(u));
    }
}

/// Where two worlds agree on what each user earned, the sums over all users
/// agree.
proof fn lemma_all_users(a: World, b: World)
    requires
        earners(a).finite(),
        forall|u: Seq<u8>| 0 <= #[trigger] a.earnings(u),
        same_earnings(a, b),
    ensures
        earners(b).finite(),
        earned(b) == earned(a),
        forall|u: Seq<u8>| 0 <= #[trigger] b.earnings(u),
{
    assert forall|u: Seq<u8>| #[trigger] earners(b).contains(u) <==> earners(a).contains(u) by {
        assert(a.earnings(u) == b.earnings(u));
    }
    assert(earners(b) =~= earners(a));
    let by_a = |u: Seq<u8>| a.earnings(u) as int;
    let by_b = |u: Seq<u8>| b.earnings(u) as int;
    assert forall|u: Seq<u8>| earners(a).contains(u) implies #[trigger] by_a(u) == by_b(u) by {
        assert(a.earnings(u) == b.earnings(u));
    }
    lemma_sum_over_same(earners(a), by_a, by_b);
    assert forall|u: Seq<u8>| 0 <= #[trigger] b.earnings(u) by {
        assert(0 <= a.earnings(u));
        assert(a.earnings(u) == b.earnings(u));
    }
}

/// An operation on one quest that keeps the books of that quest, and of what the
/// users earned, in order keeps all of them.
proof fn lemma_quest_operation(before: World, after: World, quest_id: u32)
    requires
        in_order(before),
        forall|other: u32| other != quest_id ==> #[trigger] same_quest(before, after, other),
        0 <= after.pool(quest_id),
        0 <= after.distributed(quest_id),
        0 <= after.refunded(quest_id),
        after.authority(quest_id) is Some,
        initialized(after),
        settable_grace_period(after.grace_period()),
        after.total_funded() - before.total_funded() == (after.pool(quest_id) - before.pool(
            quest_id,
        )) + (after.total_distributed() - before.total_distributed()),
        after.total_distributed() - before.total_distributed() == after.distributed(quest_id)
            - before.distributed(quest_id),
        after.quest_count() - before.quest_count() == (if before.authority(quest_id) is None {
            1int
        } else {
            0
        }),
        after.total_distributed() == earned(after),
        earners(after).finite(),
        forall|user: Seq<u8>| 0 <= #[trigger] after.earnings(user),
    ensures
        in_order(after),
{
    lemma_one_quest(before, after, quest_id);
    assert forall|q: u32| 0 <= #[trigger] after.pool(q) by {
        assert(0 <= before.pool(q));
        assert(q != quest_id ==> same_quest(before, after, q));
    }
    assert forall|q: u32| 0 <= #[trigger] after.distributed(q) by {
        assert(0 <= before.distributed(q));
        assert(q != quest_id ==> same_quest(before, after, q));
    }
    assert forall|q: u32| 0 <= #[trigger] after.refunded(q) by {
        assert(0 <= before.refunded(q));
        assert(q != quest_id ==> same_quest(before, after, q));
    }
    assert forall|q: u32| #[trigger] after.authority(q) is None implies after.pool(q) == 0
        && after.distributed(q) == 0 && after.refunded(q) == 0 by {
        assert(q != quest_id ==> same_quest(before, after, q));
        assert(before.authority(q) is None);
    }
}

/// An operation that leaves every quest and the counters alone keeps the books
/// in order.
proof fn lemma_settings_operation(before: World, after: World)
    requires
        in_order(before),
        after.persistent == before.persistent,
        after.total_funded() == before.total_funded(),
        after.total_distributed() == before.total_distributed(),
        after.quest_count() == before.quest_count(),
        initialized(before) ==> initialized(after),
        settable_grace_period(after.grace_period()),
    ensures
        in_order(after),
{
    assert forall|q: u32| #[trigger] same_quest(before, after, q) by {}
    lemma_all_quests(before, after);
    lemma_all_users(before, after);
    assert forall|q: u32| 0 <= #[trigger] after.pool(q) by {
        assert(0 <= before.pool(q));
    }
    assert forall|q: u32| 0 <= #[trigger] after.distributed(q) by {
        assert(0 <= before.distributed(q));
    }
    assert forall|q: u32| 0 <= #[trigger] after.refunded(q) by {
        assert(0 <= before.refunded(q));
    }
    assert forall|q: u32| #[trigger] after.authority(q) is None implies after.pool(q) == 0
        && after.distributed(q) == 0 && after.refunded(q) == 0 by {
        assert(before.authority(q) is None);
    }
    if !initialized(after) {
        assert forall|q: u32| (#[trigger] after.authority(q)) is None by {
            assert(before.authority(q) is None);
        }
    }
}

/// Before the contract is set up, nothing was distributed.
proof fn lemma_nothing_distributed(w: World)
    requires
        in_order(w),
        !initialized(w),
    ensures
        w.total_distributed() == 0,
{
    let out = |q: u32| w.distributed(q) as int;
    assert forall|q: u32| #[trigger] out(q) == 0 by {
        assert(w.authority(q) is None);
    }
    lemma_sum_zero(out);
}

/// Every operation keeps the books in order.
pub proof fn law_operation_keeps_order(operation: Operation, before: World, after: World)
    requires
        in_order(before),
        operation.leads(before, after),
    ensures
        in_order(after),
{
    match operation {
        Operation::Initialize { admin, token, quest_contract, milestone_contract } => {
            law_initialize_effect(before, after, admin, token, quest_contract, milestone_contract);
            lemma_nothing_distributed(before);
            lemma_settings_operation(before, after);
        },
        Operation::Upgrade { admin, hash } => {
            law_upgrade_effect(before, after, admin, hash);
            lemma_settings_operation(before, after);
        },
        Operation::Pause { admin, paused } => {
            law_pause_effect(before, after, admin, paused);
            lemma_settings_operation(before, after);
        },
        Operation::SetGracePeriod { admin, seconds } => {
            law_grace_period_effect(before, after, admin, seconds);
            lemma_settings_operation(before, after);
        },
        Operation::Fund { funder, quest_id, amount, reply, token_live } => {
            law_funding_effect(before, after, funder, quest_id, amount, reply, token_live);
            lemma_all_users(before, after);
            assert(0 <= before.pool(quest_id));
            assert(0 <= before.distributed(quest_id));
            assert(0 <= before.refunded(quest_id));
            lemma_quest_operation(before, after, quest_id);
        },
        Operation::Distribute {
            caller,
            quest_id,
            milestone_id,
            enrollee,
            amount,
            completed,
            reply,
        } => {
            law_payout_effect(
                before,
                after,
                caller,
                quest_id,
                milestone_id,
                enrollee,
                amount,
                completed,
                reply,
            );
            assert(0 <= before.earnings(enrollee));
            lemma_one_user(before, after, enrollee);
            assert(0 <= before.distributed(quest_id));
            assert(0 <= before.refunded(quest_id));
            lemma_quest_operation(before, after, quest_id);
        },
        Operation::Claim { claimant, quest_id, ids, replies, total } => {
            law_claim_effect(before, after, total, claimant, quest_id, ids, replies);
            assert(0 <= before.earnings(claimant));
            lemma_one_user(before, after, claimant);
            assert(0 <= before.distributed(quest_id));
            assert(0 <= before.refunded(quest_id));
            assert(before.authority(quest_id) is Some);
            lemma_quest_operation(before, after, quest_id);
        },
        Operation::Refund { authority, quest_id, ground, wanted, reply, now, reserved, amount } => {
            law_refund_effect(
                before,
                after,
                amount,
                authority,
                quest_id,
                ground,
                wanted,
                reply,
                now,
                reserved,
            );
            assert(0 <= before.distributed(quest_id));
            assert(0 <= before.refunded(quest_id));
            lemma_all_users(before, after);
            lemma_pool_below_total(before, quest_id);
            law_refund_is_covered(
                before,
                after,
                amount,
                authority,
                quest_id,
                ground,
                wanted,
                reply,
                now,
                reserved,
            );
            assert(before.authority(quest_id) is Some);
            lemma_quest_operation(before, after, quest_id);
        },
        Operation::FindWindow { quest_id, reply, window } => {
            law_refund_window_effect(before, after, window, quest_id, reply);
            lemma_settings_operation(before, after);
        },
    }
}

/// Over any course of operations from the start, the books are always in order.
pub proof fn law_always_in_order(operations: Seq<Operation>, worlds: Seq<World>, index: int)
    requires
        course(operations, worlds),
        fresh(worlds[0]),
        0 <= index < worlds.len(),
    ensures
        in_order(worlds[index]),
    decreases index,
{
    if index == 0 {
        law_fresh_in_order(worlds[0]);
    } else {
        law_always_in_order(operations, worlds, index - 1);
        let operation = operations[index - 1];
        assert(operation.leads(worlds[index - 1], worlds[index - 1 + 1]));
        law_operation_keeps_order(operation, worlds[index - 1], worlds[index]);
    }
}

/// Whether the tokens that came in, less those that went out, are those in the
/// pools.
pub open spec fn backed(w: World) -> bool {
    held(w.steps, w.own) == pools(w)
}

/// Asking about the milestones of a claim moves no tokens.
pub proof fn lemma_claim_asked_flow(
    w: World,
    at: World,
    claimant: Seq<u8>,
    quest_id: u32,
    ids: Seq<Datum>,
    replies: Seq<ClaimReply>,
    count: nat,
    who: Seq<u8>,
)
    ensures
        held(claim_asked(w, at, claimant, quest_id, ids, replies, count).steps, who) == held(
            at.steps,
            who,
        ),
    decreases count,
{
    broadcast use lemma_held_push;

    if count > 0 {
        let previous = (count - 1) as nat;
        lemma_claim_asked_flow(w, at, claimant, quest_id, ids, replies, previous, who);
    }
}

/// Paying the milestones of a claim moves the sum of their rewards.
pub proof fn lemma_claim_paid_flow(
    w: World,
    at: World,
    claimant: Seq<u8>,
    quest_id: u32,
    ids: Seq<Datum>,
    replies: Seq<ClaimReply>,
    count: nat,
    who: Seq<u8>,
)
    ensures
        held(claim_paid(w, at, claimant, quest_id, ids, replies, count).steps, who) == held(
            at.steps,
            who,
        ) + payment_flow(claim_total(replies, count), w.own, claimant, who),
    decreases count,
{
    broadcast use lemma_held_push;

    if count > 0 {
        let previous = (count - 1) as nat;
        lemma_claim_paid_flow(w, at, claimant, quest_id, ids, replies, previous, who);
    }
}

/// A claim moves the sum of its rewards from the contract to the claimant, and
/// nothing else.
pub proof fn law_claim_moves_total(
    before: World,
    after: World,
    total: i128,
    claimant: Seq<u8>,
    quest_id: u32,
    ids: Seq<Datum>,
    replies: Seq<ClaimReply>,
    who: Seq<u8>,
)
    requires
        claim_run(before, after, Ok(total), claimant, quest_id, ids, replies),
    ensures
        held(after.steps, who) == held(before.steps, who) + payment_flow(
            total as int,
            before.own,
            claimant,
            who,
        ),
{
    broadcast use lemma_held_push;

    law_claim_effect(before, after, total, claimant, quest_id, ids, replies);
    let at = before.note(Step::Authorized { who: claimant });
    let asked = claim_asked(before, at, claimant, quest_id, ids, replies, ids.len());
    lemma_claim_asked_flow(before, at, claimant, quest_id, ids, replies, ids.len(), who);
    lemma_claim_paid_flow(before, asked, claimant, quest_id, ids, replies, ids.len(), who);
}

/// A payout moves its amount from the contract to the enrollee, and nothing
/// else.
pub proof fn law_payout_moves_amount(
    before: World,
    after: World,
    caller: Seq<u8>,
    quest_id: u32,
    milestone_id: u32,
    enrollee: Seq<u8>,
    amount: i128,
    completed: bool,
    reply: Option<Datum>,
    who: Seq<u8>,
)
    requires
        payout_run(
            before,
            after,
            Ok(()),
            caller,
            quest_id,
            milestone_id,
            enrollee,
            amount,
            completed,
            reply,
        ),
    ensures
        held(after.steps, who) == held(before.steps, who) + payment_flow(
            amount as int,
            before.own,
            enrollee,
            who,
        ),
{
    broadcast use lemma_held_push;

}

/// Every operation that moves tokens moves as many as the pools change by.
pub proof fn law_operation_moves_pool_change(operation: Operation, before: World, after: World)
    requires
        operation.leads(before, after),
        operation.with_others(before),
    ensures
        after.own == before.own,
        held(after.steps, after.own) - held(before.steps, before.own) == pools(after) - pools(
            before,
        ),
{
    broadcast use lemma_held_push;

    match operation {
        Operation::Initialize { admin, token, quest_contract, milestone_contract } => {
            law_initialize_effect(before, after, admin, token, quest_contract, milestone_contract);
            assert forall|q: u32| #[trigger] same_quest(before, after, q) by {}
            lemma_all_quests(before, after);
        },
        Operation::Upgrade { admin, hash } => {
            law_upgrade_effect(before, after, admin, hash);
            assert forall|q: u32| #[trigger] same_quest(before, after, q) by {}
            lemma_all_quests(before, after);
        },
        Operation::Pause { admin, paused } => {
            law_pause_effect(before, after, admin, paused);
            assert forall|q: u32| #[trigger] same_quest(before, after, q) by {}
            lemma_all_quests(before, after);
        },
        Operation::SetGracePeriod { admin, seconds } => {
            law_grace_period_effect(before, after, admin, seconds);
            assert forall|q: u32| #[trigger] same_quest(before, after, q) by {}
            lemma_all_quests(before, after);
        },
        Operation::Fund { funder, quest_id, amount, reply, token_live } => {
            law_funding_effect(before, after, funder, quest_id, amount, reply, token_live);
            lemma_one_quest(before, after, quest_id);
        },
        Operation::Distribute {
            caller,
            quest_id,
            milestone_id,
            enrollee,
            amount,
            completed,
            reply,
        } => {
            law_payout_effect(
                before,
                after,
                caller,
                quest_id,
                milestone_id,
                enrollee,
                amount,
                completed,
                reply,
            );
            lemma_one_quest(before, after, quest_id);
        },
        Operation::Claim { claimant, quest_id, ids, replies, total } => {
            law_claim_effect(before, after, total, claimant, quest_id, ids, replies);
            lemma_one_quest(before, after, quest_id);
            law_claim_moves_total(
                before,
                after,
                total,
                claimant,
                quest_id,
                ids,
                replies,
                before.own,
            );
        },
        Operation::Refund { authority, quest_id, ground, wanted, reply, now, reserved, amount } => {
            law_refund_effect(
                before,
                after,
                amount,
                authority,
                quest_id,
                ground,
                wanted,
                reply,
                now,
                reserved,
            );
            lemma_one_quest(before, after, quest_id);
        },
        Operation::FindWindow { quest_id, reply, window } => {
            law_refund_window_effect(before, after, window, quest_id, reply);
            assert forall|q: u32| #[trigger] same_quest(before, after, q) by {}
            lemma_all_quests(before, after);
        },
    }
}

/// Over any course of operations from the start, the contract holds exactly the
/// tokens in the pools, so long as it never pays itself.
pub proof fn law_always_backed(operations: Seq<Operation>, worlds: Seq<World>, index: int)
    requires
        course(operations, worlds),
        fresh(worlds[0]),
        forall|i: int|
            0 <= i < operations.len() ==> (#[trigger] operations[i]).with_others(worlds[i]),
        0 <= index < worlds.len(),
    ensures
        backed(worlds[index]),
    decreases index,
{
    if index == 0 {
        law_fresh_in_order(worlds[0]);
        lemma_sum_zero(|q: u32| worlds[0].pool(q) as int);
    } else {
        law_always_backed(operations, worlds, index - 1);
        let operation = operations[index - 1];
        assert(operation.leads(worlds[index - 1], worlds[index - 1 + 1]));
        assert(operation.with_others(worlds[index - 1]));
        law_operation_moves_pool_change(operation, worlds[index - 1], worlds[index]);
    }
}

/// What no operation takes back: that the contract was set up, and with what;
/// the authority over a quest; and the payouts on record.
pub open spec fn kept_for_good(before: World, after: World) -> bool {
    &&& initialized(before) ==> {
        &&& initialized(after)
        &&& after.admin() == before.admin()
        &&& after.token() == before.token()
        &&& after.quest_contract() == before.quest_contract()
        &&& after.milestone_contract() == before.milestone_contract()
    }
    &&& forall|q: u32| #[trigger]
        before.authority(q) is Some ==> after.authority(q) == before.authority(q)
    &&& forall|q: u32, m: u32, user: Seq<u8>| #[trigger]
        before.paid(q, m, user) ==> after.paid(q, m, user)
    &&& after.own == before.own
}

/// No operation takes back the settings of a contract that was set up, the
/// authority over a quest, or a payout on record.
pub proof fn law_operation_takes_nothing_back(operation: Operation, before: World, after: World)
    requires
        operation.leads(before, after),
    ensures
        kept_for_good(before, after),
{
    match operation {
        Operation::Initialize { admin, token, quest_contract, milestone_contract } => {
            law_initialize_effect(before, after, admin, token, quest_contract, milestone_contract);
        },
        Operation::Upgrade { admin, hash } => {
            law_upgrade_effect(before, after, admin, hash);
        },
        Operation::Pause { admin, paused } => {
            law_pause_effect(before, after, admin, paused);
        },
        Operation::SetGracePeriod { admin, seconds } => {
            law_grace_period_effect(before, after, admin, seconds);
        },
        Operation::Fund { funder, quest_id, amount, reply, token_live } => {
            law_funding_effect(before, after, funder, quest_id, amount, reply, token_live);
            lemma_authority_kept(before, after, quest_id);
        },
        Operation::Distribute {
            caller,
            quest_id,
            milestone_id,
            enrollee,
            amount,
            completed,
            reply,
        } => {
            law_payout_effect(
                before,
                after,
                caller,
                quest_id,
                milestone_id,
                enrollee,
                amount,
                completed,
                reply,
            );
            lemma_authority_kept(before, after, quest_id);
        },
        Operation::Claim { claimant, quest_id, ids, replies, total } => {
            law_claim_effect(before, after, total, claimant, quest_id, ids, replies);
            lemma_authority_kept(before, after, quest_id);
        },
        Operation::Refund { authority, quest_id, ground, wanted, reply, now, reserved, amount } => {
            law_refund_effect(
                before,
                after,
                amount,
                authority,
                quest_id,
                ground,
                wanted,
                reply,
                now,
                reserved,
            );
            lemma_authority_kept(before, after, quest_id);
        },
        Operation::FindWindow { quest_id, reply, window } => {
            law_refund_window_effect(before, after, window, quest_id, reply);
        },
    }
}

/// An operation on one quest that keeps its authority keeps that of all.
proof fn lemma_authority_kept(before: World, after: World, quest_id: u32)
    requires
        forall|other: u32| other != quest_id ==> #[trigger] same_quest(before, after, other),
        before.authority(quest_id) is Some ==> after.authority(quest_id) == before.authority(
            quest_id,
        ),
    ensures
        forall|q: u32| #[trigger]
            before.authority(q) is Some ==> after.authority(q) == before.authority(q),
{
    assert forall|q: u32| #[trigger] before.authority(q) is Some implies after.authority(q)
        == before.authority(q) by {
        assert(q != quest_id ==> same_quest(before, after, q));
    }
}

/// Over any course of operations nothing is ever taken back: the settings of a
/// contract that was set up, the authority over a quest, the payouts on record.
pub proof fn law_nothing_taken_back(
    operations: Seq<Operation>,
    worlds: Seq<World>,
    earlier: int,
    later: int,
)
    requires
        course(operations, worlds),
        0 <= earlier <= later < worlds.len(),
    ensures
        kept_for_good(worlds[earlier], worlds[later]),
    decreases later,
{
    if earlier < later {
        law_nothing_taken_back(operations, worlds, earlier, later - 1);
        let operation = operations[later - 1];
        assert(operation.leads(worlds[later - 1], worlds[later - 1 + 1]));
        law_operation_takes_nothing_back(operation, worlds[later - 1], worlds[later]);
        let a = worlds[earlier];
        let b = worlds[later - 1];
        let c = worlds[later];
        assert forall|q: u32| #[trigger] a.authority(q) is Some implies c.authority(q)
            == a.authority(q) by {
            assert(b.authority(q) is Some);
        }
        assert forall|q: u32, m: u32, user: Seq<u8>| #[trigger] a.paid(q, m, user) implies c.paid(
            q,
            m,
            user,
        ) by {
            assert(b.paid(q, m, user));
        }
    }
}

/// An operation that pays a user for a milestone finds no payout on record, and
/// leaves one.
pub proof fn law_payment_is_recorded(
    operation: Operation,
    before: World,
    after: World,
    quest_id: u32,
    milestone_id: u32,
    user: Seq<u8>,
)
    requires
        operation.leads(before, after),
        operation.pays(quest_id, milestone_id, user),
    ensures
        !before.paid(quest_id, milestone_id, user),
        after.paid(quest_id, milestone_id, user),
{
    match operation {
        Operation::Distribute {
            caller,
            quest_id,
            milestone_id,
            enrollee,
            amount,
            completed,
            reply,
        } => {
            law_payout_effect(
                before,
                after,
                caller,
                quest_id,
                milestone_id,
                enrollee,
                amount,
                completed,
                reply,
            );
        },
        Operation::Claim { claimant, quest_id, ids, replies, total } => {
            law_claim_effect(before, after, total, claimant, quest_id, ids, replies);
        },
        _ => {},
    }
}

/// Over any course of operations a user is paid for a milestone at most once.
pub proof fn law_never_paid_twice(
    operations: Seq<Operation>,
    worlds: Seq<World>,
    first: int,
    second: int,
    quest_id: u32,
    milestone_id: u32,
    user: Seq<u8>,
)
    requires
        course(operations, worlds),
        0 <= first < operations.len(),
        0 <= second < operations.len(),
        operations[first].pays(quest_id, milestone_id, user),
        operations[second].pays(quest_id, milestone_id, user),
    ensures
        first == second,
{
    assert(operations[first].leads(worlds[first], worlds[first + 1]));
    assert(operations[second].leads(worlds[second], worlds[second + 1]));
    law_payment_is_recorded(
        operations[first],
        worlds[first],
        worlds[first + 1],
        quest_id,
        milestone_id,
        user,
    );
    law_payment_is_recorded(
        operations[second],
        worlds[second],
        worlds[second + 1],
        quest_id,
        milestone_id,
        user,
    );
    if first < second {
        law_nothing_taken_back(operations, worlds, first + 1, second);
        assert(worlds[first + 1].paid(quest_id, milestone_id, user));
    } else if second < first {
        law_nothing_taken_back(operations, worlds, second + 1, first);
        assert(worlds[second + 1].paid(quest_id, milestone_id, user));
    }
}

/// An operation changes what is kept of a quest and of a user by what it brings,
/// pays and refunds, and by nothing else.
pub proof fn law_operation_is_accounted(
    operation: Operation,
    before: World,
    after: World,
    quest_id: u32,
    user: Seq<u8>,
)
    requires
        operation.leads(before, after),
    ensures
        after.pool(quest_id) == before.pool(quest_id) + operation.brings(quest_id)
            - operation.pays_from(quest_id) - operation.refunds_from(quest_id),
        after.distributed(quest_id) == before.distributed(quest_id) + operation.pays_from(quest_id),
        after.refunded(quest_id) == before.refunded(quest_id) + operation.refunds_from(quest_id),
        after.earnings(user) == before.earnings(user) + operation.pays_to(user),
{
    let at = quest_id;
    match operation {
        Operation::Initialize { admin, token, quest_contract, milestone_contract } => {
            law_initialize_effect(before, after, admin, token, quest_contract, milestone_contract);
        },
        Operation::Upgrade { admin, hash } => {
            law_upgrade_effect(before, after, admin, hash);
        },
        Operation::Pause { admin, paused } => {
            law_pause_effect(before, after, admin, paused);
        },
        Operation::SetGracePeriod { admin, seconds } => {
            law_grace_period_effect(before, after, admin, seconds);
        },
        Operation::Fund { funder, quest_id, amount, reply, token_live } => {
            law_funding_effect(before, after, funder, quest_id, amount, reply, token_live);
            assert(at != quest_id ==> same_quest(before, after, at));
            assert(before.earnings(user) == after.earnings(user));
        },
        Operation::Distribute {
            caller,
            quest_id,
            milestone_id,
            enrollee,
            amount,
            completed,
            reply,
        } => {
            law_payout_effect(
                before,
                after,
                caller,
                quest_id,
                milestone_id,
                enrollee,
                amount,
                completed,
                reply,
            );
            assert(at != quest_id ==> same_quest(before, after, at));
            assert(user != enrollee ==> before.earnings(user) == after.earnings(user));
        },
        Operation::Claim { claimant, quest_id, ids, replies, total } => {
            law_claim_effect(before, after, total, claimant, quest_id, ids, replies);
            assert(at != quest_id ==> same_quest(before, after, at));
            assert(user != claimant ==> before.earnings(user) == after.earnings(user));
        },
        Operation::Refund { authority, quest_id, ground, wanted, reply, now, reserved, amount } => {
            law_refund_effect(
                before,
                after,
                amount,
                authority,
                quest_id,
                ground,
                wanted,
                reply,
                now,
                reserved,
            );
            assert(at != quest_id ==> same_quest(before, after, at));
            assert(before.earnings(user) == after.earnings(user));
        },
        Operation::FindWindow { quest_id, reply, window } => {
            law_refund_window_effect(before, after, window, quest_id, reply);
        },
    }
}

/// Over any course of operations from the start, a pool holds what was funded,
/// less what was paid and refunded; what is kept as distributed and as refunded
/// for a quest is the sum of its payouts and of its refunds; and what is kept as
/// earned by a user is the sum of the payouts to the user.
pub proof fn law_always_accounted(
    operations: Seq<Operation>,
    worlds: Seq<World>,
    index: nat,
    quest_id: u32,
    user: Seq<u8>,
)
    requires
        course(operations, worlds),
        fresh(worlds[0]),
        index < worlds.len(),
    ensures
        ({
            let w = worlds[index as int];
            let brought = total_over(operations, |o: Operation| o.brings(quest_id), index);
            let paid = total_over(operations, |o: Operation| o.pays_from(quest_id), index);
            let refunded = total_over(operations, |o: Operation| o.refunds_from(quest_id), index);
            &&& w.pool(quest_id) == brought - paid - refunded
            &&& w.distributed(quest_id) == paid
            &&& w.refunded(quest_id) == refunded
            &&& w.earnings(user) == total_over(operations, |o: Operation| o.pays_to(user), index)
        }),
    decreases index,
{
    if index > 0 {
        let last = index - 1;
        law_always_accounted(operations, worlds, last as nat, quest_id, user);
        assert(operations[last].leads(worlds[last], worlds[last + 1]));
        law_operation_is_accounted(
            operations[last],
            worlds[last],
            worlds[last + 1],
            quest_id,
            user,
        );
    }
}

/// Where the books are in order, an operation raises the total distributed by
/// what it pays out, which is never negative: fundings and refunds leave it.
pub proof fn law_total_distributed_change(operation: Operation, before: World, after: World)
    requires
        in_order(before),
        operation.leads(before, after),
    ensures
        operation.pays_out() >= 0,
        after.total_distributed() == before.total_distributed() + operation.pays_out(),
{
    match operation {
        Operation::Initialize { admin, token, quest_contract, milestone_contract } => {
            law_initialize_effect(before, after, admin, token, quest_contract, milestone_contract);
            lemma_nothing_distributed(before);
        },
        Operation::Upgrade { admin, hash } => {
            law_upgrade_effect(before, after, admin, hash);
        },
        Operation::Pause { admin, paused } => {
            law_pause_effect(before, after, admin, paused);
        },
        Operation::SetGracePeriod { admin, seconds } => {
            law_grace_period_effect(before, after, admin, seconds);
        },
        Operation::Fund { funder, quest_id, amount, reply, token_live } => {
            law_funding_effect(before, after, funder, quest_id, amount, reply, token_live);
        },
        Operation::Distribute {
            caller,
            quest_id,
            milestone_id,
            enrollee,
            amount,
            completed,
            reply,
        } => {
            law_payout_effect(
                before,
                after,
                caller,
                quest_id,
                milestone_id,
                enrollee,
                amount,
                completed,
                reply,
            );
        },
        Operation::Claim { claimant, quest_id, ids, replies, total } => {
            law_claim_effect(before, after, total, claimant, quest_id, ids, replies);
        },
        Operation::Refund { authority, quest_id, ground, wanted, reply, now, reserved, amount } => {
            law_refund_effect(
                before,
                after,
                amount,
                authority,
                quest_id,
                ground,
                wanted,
                reply,
                now,
                reserved,
            );
        },
        Operation::FindWindow { quest_id, reply, window } => {
            law_refund_window_effect(before, after, window, quest_id, reply);
        },
    }
}

/// Over any course of operations from the start, the total distributed is what
/// all users earned together and what was distributed for all quests together,
/// and it never goes down.
pub proof fn law_total_distributed_never_decreases(
    operations: Seq<Operation>,
    worlds: Seq<World>,
    earlier: int,
    later: int,
)
    requires
        course(operations, worlds),
        fresh(worlds[0]),
        0 <= earlier <= later < worlds.len(),
    ensures
        worlds[later].total_distributed() == earned(worlds[later]),
        worlds[later].total_distributed() == payouts(worlds[later]),
        worlds[earlier].total_distributed() <= worlds[later].total_distributed(),
    decreases later,
{
    law_always_in_order(operations, worlds, later);
    if earlier < later {
        law_total_distributed_never_decreases(operations, worlds, earlier, later - 1);
        law_always_in_order(operations, worlds, later - 1);
        let operation = operations[later - 1];
        assert(operation.leads(worlds[later - 1], worlds[later - 1 + 1]));
        law_total_distributed_change(operation, worlds[later - 1], worlds[later]);
    }
}

} // verus!
