//! A claim of several milestones against payouts of one milestone each.

use vstd::prelude::*;

use crate::claims::{
    claim_amount, claim_checked, claim_item, claim_outcome, claim_run, claim_total, claim_world,
    ClaimReply,
};
use crate::effects::{
    claims_milestone, law_claim_effect, law_payout_effect, lemma_claim_checked, same_counters,
    same_other_earnings, same_other_quests, same_quest, same_settings,
};
use crate::errors::RewardsErrorEnum;
use crate::history::{law_claim_moves_total, law_payout_moves_amount};
use crate::laws::law_claim_conditions;
use crate::model::{Datum, World};
use crate::payouts::{payout_outcome, payout_world};
use crate::sums::{
    held, lemma_rearranged_set, lemma_sum_rearranged, payment_flow, rearranges, sum_along,
};

verus! {

/// Whether two worlds agree on everything that the contract keeps and on the
/// tokens that everyone holds.
pub open spec fn same_books(a: World, b: World) -> bool {
    &&& same_settings(a, b)
    &&& same_counters(a, b)
    &&& forall|quest_id: u32| #[trigger] same_quest(a, b, quest_id)
    &&& forall|user: Seq<u8>| #[trigger] a.earnings(user) == b.earnings(user)
    &&& forall|quest_id: u32, milestone_id: u32, user: Seq<u8>| #[trigger]
        a.paid(quest_id, milestone_id, user) == b.paid(quest_id, milestone_id, user)
    &&& forall|who: Seq<u8>| #[trigger] held(a.steps, who) == held(b.steps, who)
}

/// What comes of paying one milestone of a claim by itself, at the word of the
/// authority.
pub open spec fn single_outcome(
    w: World,
    authority: Seq<u8>,
    claimant: Seq<u8>,
    quest_id: u32,
    ids: Seq<Datum>,
    replies: Seq<ClaimReply>,
    index: int,
) -> Result<(), RewardsErrorEnum> {
    payout_outcome(
        w,
        authority,
        quest_id,
        ids[index]->Count_0,
        claimant,
        claim_amount(replies, index),
        replies[index].completed,
        replies[index].reward,
    )
}

/// The world after one milestone of a claim was paid by itself, at the word of
/// the authority.
pub open spec fn single_world(
    w: World,
    authority: Seq<u8>,
    claimant: Seq<u8>,
    quest_id: u32,
    ids: Seq<Datum>,
    replies: Seq<ClaimReply>,
    index: int,
) -> World {
    payout_world(
        w,
        authority,
        quest_id,
        ids[index]->Count_0,
        claimant,
        claim_amount(replies, index),
        replies[index].completed,
        replies[index].reward,
    )
}

/// The world after the first milestones of a claim, in some order, were paid one
/// by one.
pub open spec fn paid_singly(
    w: World,
    authority: Seq<u8>,
    claimant: Seq<u8>,
    quest_id: u32,
    ids: Seq<Datum>,
    replies: Seq<ClaimReply>,
    order: Seq<int>,
    count: nat,
) -> World
    decreases count,
{
    if count == 0 {
        w
    } else {
        single_world(
            paid_singly(
                w,
                authority,
                claimant,
                quest_id,
                ids,
                replies,
                order,
                (count - 1) as nat,
            ),
            authority,
            claimant,
            quest_id,
            ids,
            replies,
            order[count - 1],
        )
    }
}

/// The reward claimed for the milestone at an index, as a quantity.
pub open spec fn amounts(replies: Seq<ClaimReply>) -> spec_fn(int) -> int {
    |index: int| claim_amount(replies, index) as int
}

/// The numbers in their own order.
pub open spec fn in_turn(count: nat) -> Seq<int> {
    Seq::new(count, |i: int| i)
}

/// Whether the first milestones of a claim, in some order, include one.
pub open spec fn names_milestone(
    ids: Seq<Datum>,
    order: Seq<int>,
    count: nat,
    milestone_id: u32,
) -> bool {
    exists|k: int| 0 <= k < count && ids[#[trigger] order[k]] == Datum::Count(milestone_id)
}

proof fn lemma_total_in_turn(replies: Seq<ClaimReply>, len: nat, count: nat)
    requires
        count <= len,
    ensures
        claim_total(replies, count) == sum_along(in_turn(len), amounts(replies), count),
    decreases count,
{
    if count > 0 {
        lemma_total_in_turn(replies, len, (count - 1) as nat);
    }
}

/// In whatever order the milestones of a claim are taken, their rewards add up
/// to the same.
proof fn lemma_total_rearranged(replies: Seq<ClaimReply>, order: Seq<int>, count: nat)
    requires
        rearranges(order, count),
    ensures
        sum_along(order, amounts(replies), count) == claim_total(replies, count),
{
    lemma_total_in_turn(replies, count, count);
    lemma_sum_rearranged(order, in_turn(count), amounts(replies), count);
}

/// Where the rewards are not negative, a part of them is no more than all.
proof fn lemma_part_of_total(
    replies: Seq<ClaimReply>,
    order: Seq<int>,
    part: nat,
    count: nat,
)
    requires
        part <= count <= order.len(),
        forall|k: int| 0 <= k < count ==> 0 < claim_amount(replies, #[trigger] order[k]),
    ensures
        0 <= sum_along(order, amounts(replies), part) <= sum_along(
            order,
            amounts(replies),
            count,
        ),
    decreases count,
{
    if part < count {
        assert(0 < claim_amount(replies, order[count - 1]));
        lemma_part_of_total(replies, order, part, (count - 1) as nat);
    } else if count > 0 {
        assert(0 < claim_amount(replies, order[count - 1]));
        lemma_part_of_total(replies, order, (count - 1) as nat, (count - 1) as nat);
    }
}

/// How the world stands after some milestones of a claim were paid one by one.
pub open spec fn partly_paid(
    before: World,
    now: World,
    claimant: Seq<u8>,
    quest_id: u32,
    ids: Seq<Datum>,
    order: Seq<int>,
    count: nat,
    sum: int,
) -> bool {
    &&& same_settings(before, now)
    &&& same_other_quests(before, now, quest_id)
    &&& same_other_earnings(before, now, claimant)
    &&& now.authority(quest_id) == before.authority(quest_id)
    &&& now.refunded(quest_id) == before.refunded(quest_id)
    &&& now.pool(quest_id) == before.pool(quest_id) - sum
    &&& now.distributed(quest_id) == before.distributed(quest_id) + sum
    &&& now.earnings(claimant) == before.earnings(claimant) + sum
    &&& now.total_distributed() == before.total_distributed() + sum
    &&& now.total_funded() == before.total_funded()
    &&& now.quest_count() == before.quest_count()
    &&& forall|q: u32, m: u32, user: Seq<u8>| #[trigger]
        now.paid(q, m, user) <==> before.paid(q, m, user) || (q == quest_id && user == claimant
            && names_milestone(ids, order, count, m))
    &&& forall|who: Seq<u8>| #[trigger]
        held(now.steps, who) == held(before.steps, who) + payment_flow(
            sum,
            before.own,
            claimant,
            who,
        )
}

/// One more milestone of a claim can be paid by itself, and its payout adds to
/// the others.
proof fn lemma_one_more(
    before: World,
    after: World,
    now: World,
    total: i128,
    authority: Seq<u8>,
    claimant: Seq<u8>,
    quest_id: u32,
    ids: Seq<Datum>,
    replies: Seq<ClaimReply>,
    order: Seq<int>,
    count: nat,
)
    requires
        claim_run(before, after, Ok(total), claimant, quest_id, ids, replies),
        before.authority(quest_id) == Some(authority),
        authority != claimant,
        rearranges(order, ids.len()),
        count < ids.len(),
        partly_paid(
            before,
            now,
            claimant,
            quest_id,
            ids,
            order,
            count,
            sum_along(order, amounts(replies), count),
        ),
    ensures
        single_outcome(now, authority, claimant, quest_id, ids, replies, order[count as int])
            is Ok,
        partly_paid(
            before,
            single_world(now, authority, claimant, quest_id, ids, replies, order[count as int]),
            claimant,
            quest_id,
            ids,
            order,
            count + 1,
            sum_along(order, amounts(replies), count + 1),
        ),
{
    let len = ids.len();
    let index = order[count as int];
    let sum = sum_along(order, amounts(replies), count);
    let amount = claim_amount(replies, index);
    let milestone_id = ids[index]->Count_0;
    law_claim_effect(before, after, total, claimant, quest_id, ids, replies);
    law_claim_conditions(before, after, total, claimant, quest_id, ids, replies, index);
    assert forall|k: int| 0 <= k < len implies 0 < claim_amount(replies, #[trigger] order[k]) by {
        law_claim_conditions(before, after, total, claimant, quest_id, ids, replies, order[k]);
    }
    lemma_total_rearranged(replies, order, len);
    lemma_part_of_total(replies, order, count, len);
    lemma_part_of_total(replies, order, count + 1, len);
    assert(sum_along(order, amounts(replies), count + 1) == sum + amount);
    assert(0 <= sum && sum + amount <= total);
    assert(!names_milestone(ids, order, count, milestone_id)) by {
        if names_milestone(ids, order, count, milestone_id) {
            let k = choose|k: int|
                0 <= k < count && ids[#[trigger] order[k]] == Datum::Count(milestone_id);
            assert(order[k] != order[count as int]);
            assert(ids[order[k]] != ids[index]);
        }
    }
    assert(!now.paid(quest_id, milestone_id, claimant));
    let next = single_world(now, authority, claimant, quest_id, ids, replies, index);
    assert(single_outcome(now, authority, claimant, quest_id, ids, replies, index) is Ok);
    law_payout_effect(
        now,
        next,
        authority,
        quest_id,
        milestone_id,
        claimant,
        amount,
        replies[index].completed,
        replies[index].reward,
    );
    assert forall|other: u32| other != quest_id implies #[trigger] same_quest(
        before,
        next,
        other,
    ) by {
        assert(same_quest(before, now, other));
        assert(same_quest(now, next, other));
    }
    assert forall|other: Seq<u8>| other != claimant implies #[trigger] before.earnings(other)
        == next.earnings(other) by {
        assert(before.earnings(other) == now.earnings(other));
        assert(now.earnings(other) == next.earnings(other));
    }
    assert forall|q: u32, m: u32, user: Seq<u8>| #[trigger] next.paid(q, m, user) <==> before.paid(
        q,
        m,
        user,
    ) || (q == quest_id && user == claimant && names_milestone(ids, order, count + 1, m)) by {
        assert(now.paid(q, m, user) <==> before.paid(q, m, user) || (q == quest_id && user
            == claimant && names_milestone(ids, order, count, m)));
        assert(ids[order[count as int]] == Datum::Count(milestone_id));
        assert(names_milestone(ids, order, count + 1, milestone_id));
        if names_milestone(ids, order, count, m) {
            let k = choose|k: int| 0 <= k < count && ids[#[trigger] order[k]] == Datum::Count(m);
            assert(0 <= k < count + 1 && ids[order[k]] == Datum::Count(m));
        }
    }
    assert forall|who: Seq<u8>| #[trigger] held(next.steps, who) == held(before.steps, who)
        + payment_flow(sum + amount, before.own, claimant, who) by {
        assert(held(now.steps, who) == held(before.steps, who) + payment_flow(
            sum,
            before.own,
            claimant,
            who,
        ));
        law_payout_moves_amount(
            now,
            next,
            authority,
            quest_id,
            milestone_id,
            claimant,
            amount,
            replies[index].completed,
            replies[index].reward,
            who,
        );
    }
}

/// Where a claim is paid, the authority could as well have paid its milestones
/// one by one, in any order: at every point, the payouts so far stand as they
/// have to, and the next one succeeds.
pub proof fn law_single_payouts_succeed(
    before: World,
    after: World,
    total: i128,
    authority: Seq<u8>,
    claimant: Seq<u8>,
    quest_id: u32,
    ids: Seq<Datum>,
    replies: Seq<ClaimReply>,
    order: Seq<int>,
    count: nat,
)
    requires
        claim_run(before, after, Ok(total), claimant, quest_id, ids, replies),
        before.authority(quest_id) == Some(authority),
        authority != claimant,
        rearranges(order, ids.len()),
        count <= ids.len(),
    ensures
        ({
            let now = paid_singly(
                before,
                authority,
                claimant,
                quest_id,
                ids,
                replies,
                order,
                count,
            );
            &&& partly_paid(
                before,
                now,
                claimant,
                quest_id,
                ids,
                order,
                count,
                sum_along(order, amounts(replies), count),
            )
            &&& count < ids.len() ==> single_outcome(
                now,
                authority,
                claimant,
                quest_id,
                ids,
                replies,
                order[count as int],
            ) is Ok
        }),
    decreases count,
{
    let now = paid_singly(before, authority, claimant, quest_id, ids, replies, order, count);
    if count > 0 {
        let previous = (count - 1) as nat;
        law_single_payouts_succeed(
            before,
            after,
            total,
            authority,
            claimant,
            quest_id,
            ids,
            replies,
            order,
            previous,
        );
        lemma_one_more(
            before,
            after,
            paid_singly(before, authority, claimant, quest_id, ids, replies, order, previous),
            total,
            authority,
            claimant,
            quest_id,
            ids,
            replies,
            order,
            previous,
        );
    }
    if count < ids.len() {
        lemma_one_more(
            before,
            after,
            now,
            total,
            authority,
            claimant,
            quest_id,
            ids,
            replies,
            order,
            count,
        );
    }
}

/// A claim of several milestones ends where payouts of each of them by the
/// authority end, in whatever order they are made: the pool, what the claimant
/// earned, the counters, the payouts on record and the tokens that everyone
/// holds are the same.
pub proof fn law_claim_equals_single_payouts(
    before: World,
    after: World,
    total: i128,
    authority: Seq<u8>,
    claimant: Seq<u8>,
    quest_id: u32,
    ids: Seq<Datum>,
    replies: Seq<ClaimReply>,
    order: Seq<int>,
)
    requires
        claim_run(before, after, Ok(total), claimant, quest_id, ids, replies),
        before.authority(quest_id) == Some(authority),
        authority != claimant,
        rearranges(order, ids.len()),
    ensures
        same_books(
            after,
            paid_singly(
                before,
                authority,
                claimant,
                quest_id,
                ids,
                replies,
                order,
                ids.len(),
            ),
        ),
{
    let len = ids.len();
    let last = paid_singly(before, authority, claimant, quest_id, ids, replies, order, len);
    law_single_payouts_succeed(
        before,
        after,
        total,
        authority,
        claimant,
        quest_id,
        ids,
        replies,
        order,
        len,
    );
    law_claim_effect(before, after, total, claimant, quest_id, ids, replies);
    lemma_total_rearranged(replies, order, len);
    lemma_rearranged_set(order, len);
    assert forall|q: u32| #[trigger] same_quest(after, last, q) by {
        if q != quest_id {
            assert(same_quest(before, after, q));
            assert(same_quest(before, last, q));
        }
    }
    assert forall|user: Seq<u8>| #[trigger] after.earnings(user) == last.earnings(user) by {
        if user != claimant {
            assert(before.earnings(user) == after.earnings(user));
            assert(before.earnings(user) == last.earnings(user));
        }
    }
    assert forall|q: u32, m: u32, user: Seq<u8>| #[trigger] after.paid(q, m, user) == last.paid(
        q,
        m,
        user,
    ) by {
        lemma_same_milestones(ids, order, m);
    }
    assert forall|who: Seq<u8>| #[trigger] held(after.steps, who) == held(last.steps, who) by {
        law_claim_moves_total(before, after, total, claimant, quest_id, ids, replies, who);
    }
}

/// The milestones of a claim are the same in any order.
proof fn lemma_same_milestones(ids: Seq<Datum>, order: Seq<int>, milestone_id: u32)
    requires
        rearranges(order, ids.len()),
    ensures
        claims_milestone(ids, ids.len(), milestone_id) <==> names_milestone(
            ids,
            order,
            ids.len(),
            milestone_id,
        ),
{
    let len = ids.len();
    lemma_rearranged_set(order, len);
    if claims_milestone(ids, len, milestone_id) {
        let i = choose|i: int| 0 <= i < len && #[trigger] ids[i] == Datum::Count(milestone_id);
        assert(order.to_set().contains(i));
        let k = choose|k: int| 0 <= k < order.len() && order[k] == i;
        assert(ids[order[k]] == Datum::Count(milestone_id));
    }
    if names_milestone(ids, order, len, milestone_id) {
        let k = choose|k: int|
            0 <= k < len && ids[#[trigger] order[k]] == Datum::Count(milestone_id);
        assert(ids[order[k]] == Datum::Count(milestone_id));
    }
}

/// The milestones of a claim in another order.
pub open spec fn reordered_ids(ids: Seq<Datum>, order: Seq<int>) -> Seq<Datum> {
    Seq::new(ids.len(), |k: int| ids[order[k]])
}

/// The answers about the milestones of a claim in another order.
pub open spec fn reordered_replies(replies: Seq<ClaimReply>, order: Seq<int>) -> Seq<ClaimReply> {
    Seq::new(replies.len(), |k: int| replies[order[k]])
}

/// Milestones that can each be claimed can be claimed together.
proof fn lemma_all_checked(
    w: World,
    claimant: Seq<u8>,
    quest_id: u32,
    ids: Seq<Datum>,
    replies: Seq<ClaimReply>,
    count: nat,
)
    requires
        forall|k: int|
            0 <= k < count ==> #[trigger] claim_item(
                w,
                claimant,
                quest_id,
                ids,
                k,
                replies[k],
            ) is Ok,
    ensures
        claim_checked(w, claimant, quest_id, ids, replies, count) is Ok,
    decreases count,
{
    if count > 0 {
        lemma_all_checked(w, claimant, quest_id, ids, replies, (count - 1) as nat);
        assert(claim_item(w, claimant, quest_id, ids, count - 1, replies[count - 1]) is Ok);
    }
}

proof fn lemma_reordered_total(replies: Seq<ClaimReply>, order: Seq<int>, count: nat)
    requires
        count <= replies.len() == order.len(),
    ensures
        claim_total(reordered_replies(replies, order), count) == sum_along(
            order,
            amounts(replies),
            count,
        ),
    decreases count,
{
    if count > 0 {
        lemma_reordered_total(replies, order, (count - 1) as nat);
    }
}

/// The order in which a claim names its milestones does not matter: in any other
/// order it is paid too, gives the same sum, and ends the same.
pub proof fn law_claim_order_is_free(
    before: World,
    after: World,
    total: i128,
    claimant: Seq<u8>,
    quest_id: u32,
    ids: Seq<Datum>,
    replies: Seq<ClaimReply>,
    order: Seq<int>,
)
    requires
        claim_run(before, after, Ok(total), claimant, quest_id, ids, replies),
        rearranges(order, ids.len()),
    ensures
        claim_outcome(
            before,
            claimant,
            quest_id,
            reordered_ids(ids, order),
            reordered_replies(replies, order),
        ) == Ok::<i128, RewardsErrorEnum>(total),
        same_books(
            after,
            claim_world(
                before,
                claimant,
                quest_id,
                reordered_ids(ids, order),
                reordered_replies(replies, order),
            ),
        ),
{
    let len = ids.len();
    let ids2 = reordered_ids(ids, order);
    let replies2 = reordered_replies(replies, order);
    let other = claim_world(before, claimant, quest_id, ids2, replies2);
    law_claim_effect(before, after, total, claimant, quest_id, ids, replies);
    assert forall|k: int| 0 <= k < len implies #[trigger] claim_item(
        before,
        claimant,
        quest_id,
        ids2,
        k,
        replies2[k],
    ) is Ok by {
        let index = order[k];
        lemma_claim_checked(before, claimant, quest_id, ids, replies, len, index);
        law_claim_conditions(before, after, total, claimant, quest_id, ids, replies, index);
        if ids2.take(k).contains(ids2[k]) {
            let j = choose|j: int| 0 <= j < k && ids2.take(k)[j] == ids2[k];
            assert(order[j] != order[k]);
            assert(ids[order[j]] != ids[index]);
        }
    }
    lemma_all_checked(before, claimant, quest_id, ids2, replies2, len);
    lemma_reordered_total(replies, order, len);
    lemma_total_rearranged(replies, order, len);
    assert(claim_run(before, other, Ok(total), claimant, quest_id, ids2, replies2));
    law_claim_effect(before, other, total, claimant, quest_id, ids2, replies2);
    assert forall|q: u32| #[trigger] same_quest(after, other, q) by {
        if q != quest_id {
            assert(same_quest(before, after, q));
            assert(same_quest(before, other, q));
        }
    }
    assert forall|user: Seq<u8>| #[trigger] after.earnings(user) == other.earnings(user) by {
        if user != claimant {
            assert(before.earnings(user) == after.earnings(user));
            assert(before.earnings(user) == other.earnings(user));
        }
    }
    assert forall|q: u32, m: u32, user: Seq<u8>| #[trigger] after.paid(q, m, user) == other.paid(
        q,
        m,
        user,
    ) by {
        lemma_same_milestones(ids, order, m);
        if names_milestone(ids, order, len, m) {
            let k = choose|k: int| 0 <= k < len && ids[#[trigger] order[k]] == Datum::Count(m);
            assert(ids2[k] == Datum::Count(m));
        }
        if claims_milestone(ids2, len, m) {
            let k = choose|k: int| 0 <= k < len && #[trigger] ids2[k] == Datum::Count(m);
            assert(ids[order[k]] == Datum::Count(m));
        }
    }
    assert forall|who: Seq<u8>| #[trigger] held(after.steps, who) == held(other.steps, who) by {
        law_claim_moves_total(before, after, total, claimant, quest_id, ids, replies, who);
        law_claim_moves_total(before, other, total, claimant, quest_id, ids2, replies2, who);
    }
}

} // verus!
