//! What each operation changes when it succeeds, and what it leaves alone.

use vstd::prelude::*;

use crate::claims::{
    claim_asked, claim_checked, claim_item, claim_paid, claim_run, claim_total, ClaimReply,
};
use crate::common::MAX_REWARD_AMOUNT;
use crate::contract::{grace_period_run, initialize_run, initialized, pause_run, upgrade_run};
use crate::funding::funding_run;
use crate::keys::{lemma_path_injective, Key};
use crate::ledger::DEFAULT_REFUND_GRACE_PERIOD;
use crate::model::{Datum, Step, World};
use crate::payouts::payout_run;
use crate::refunds::{refund_run, refund_window_run, RefundGround};
use crate::rules::{funded_after_refund, payable, settable_grace_period};

verus! {

/// Whether two worlds agree on how the contract is set up, pausing and grace
/// period included.
pub open spec fn same_settings(a: World, b: World) -> bool {
    &&& initialized(a) == initialized(b)
    &&& a.admin() == b.admin()
    &&& a.token() == b.token()
    &&& a.quest_contract() == b.quest_contract()
    &&& a.milestone_contract() == b.milestone_contract()
    &&& a.paused() == b.paused()
    &&& a.grace_period() == b.grace_period()
    &&& a.own == b.own
}

/// Whether two worlds agree on a quest.
pub open spec fn same_quest(a: World, b: World, quest_id: u32) -> bool {
    &&& a.authority(quest_id) == b.authority(quest_id)
    &&& a.pool(quest_id) == b.pool(quest_id)
    &&& a.distributed(quest_id) == b.distributed(quest_id)
    &&& a.refunded(quest_id) == b.refunded(quest_id)
}

/// Whether two worlds agree on every quest but one.
pub open spec fn same_other_quests(a: World, b: World, quest_id: u32) -> bool {
    forall|other: u32| other != quest_id ==> #[trigger] same_quest(a, b, other)
}

/// Whether two worlds have the same payouts on record.
pub open spec fn same_records(a: World, b: World) -> bool {
    forall|quest_id: u32, milestone_id: u32, user: Seq<u8>| #[trigger]
        a.paid(quest_id, milestone_id, user) == b.paid(quest_id, milestone_id, user)
}

/// Whether two worlds agree on what each user earned.
pub open spec fn same_earnings(a: World, b: World) -> bool {
    forall|user: Seq<u8>| #[trigger] a.earnings(user) == b.earnings(user)
}

/// Whether two worlds agree on what each user but one earned.
pub open spec fn same_other_earnings(a: World, b: World, user: Seq<u8>) -> bool {
    forall|other: Seq<u8>| other != user ==> #[trigger] a.earnings(other) == b.earnings(other)
}

/// Whether two worlds agree on the counters of the platform.
pub open spec fn same_counters(a: World, b: World) -> bool {
    &&& a.total_funded() == b.total_funded()
    &&& a.total_distributed() == b.total_distributed()
    &&& a.quest_count() == b.quest_count()
}

/// A funding adds its amount to the pool of the quest and to the total funded.
/// It makes the funder the authority, and counts the quest if it had none. All
/// else stays.
pub proof fn law_funding_effect(
    before: World,
    after: World,
    funder: Seq<u8>,
    quest_id: u32,
    amount: i128,
    reply: Option<Datum>,
    token_live: bool,
)
    requires
        funding_run(before, after, Ok(()), funder, quest_id, amount, reply, token_live),
    ensures
        payable(amount),
        before.authority(quest_id) is None || before.authority(quest_id) == Some(funder),
        after.authority(quest_id) == Some(funder),
        after.pool(quest_id) == before.pool(quest_id) + amount,
        after.distributed(quest_id) == before.distributed(quest_id),
        after.refunded(quest_id) == before.refunded(quest_id),
        after.total_funded() == before.total_funded() + amount,
        after.total_distributed() == before.total_distributed(),
        after.quest_count() == before.quest_count() + (if before.authority(quest_id) is None {
            1int
        } else {
            0
        }),
        same_other_quests(before, after, quest_id),
        same_records(before, after),
        same_earnings(before, after),
        same_settings(before, after),
{
    broadcast use lemma_path_injective;

}

/// A payout goes on record, takes its amount from the pool of the quest, and
/// adds it to what the enrollee earned, to what was distributed for the quest
/// and to what was distributed in all. All else stays.
pub proof fn law_payout_effect(
    before: World,
    after: World,
    caller: Seq<u8>,
    quest_id: u32,
    milestone_id: u32,
    enrollee: Seq<u8>,
    amount: i128,
    completed: bool,
    reply: Option<Datum>,
)
    requires
        payout_run(
            before,
            after,
            Ok(()),
            caller,
            quest_id,
            milestone_id,
            enrollee,
            amount,
            completed,
            reply,
        ),
    ensures
        payable(amount),
        amount <= before.pool(quest_id),
        after.pool(quest_id) == before.pool(quest_id) - amount,
        after.authority(quest_id) == before.authority(quest_id),
        after.distributed(quest_id) == before.distributed(quest_id) + amount,
        after.refunded(quest_id) == before.refunded(quest_id),
        after.earnings(enrollee) == before.earnings(enrollee) + amount,
        after.total_distributed() == before.total_distributed() + amount,
        after.total_funded() == before.total_funded(),
        after.quest_count() == before.quest_count(),
        !before.paid(quest_id, milestone_id, enrollee),
        forall|q: u32, m: u32, user: Seq<u8>| #[trigger]
            after.paid(q, m, user) <==> before.paid(q, m, user) || (q == quest_id && m
                == milestone_id && user == enrollee),
        same_other_quests(before, after, quest_id),
        same_other_earnings(before, after, enrollee),
        same_settings(before, after),
{
    broadcast use lemma_path_injective;

}

/// A refund takes its amount from the pool of the quest and from the total
/// funded, which does not go below 0, and adds it to what was refunded for the
/// quest. All else stays. A refund of 0 changes nothing.
pub proof fn law_refund_effect(
    before: World,
    after: World,
    amount: i128,
    authority: Seq<u8>,
    quest_id: u32,
    ground: RefundGround,
    wanted: Option<i128>,
    reply: Option<Datum>,
    now: u64,
    reserved: i128,
)
    requires
        refund_run(
            before,
            after,
            Ok(amount),
            authority,
            quest_id,
            ground,
            wanted,
            reply,
            now,
            reserved,
        ),
    ensures
        amount >= 0,
        wanted is Some ==> amount == wanted->0,
        before.authority(quest_id) == Some(authority),
        after.authority(quest_id) == before.authority(quest_id),
        after.pool(quest_id) == before.pool(quest_id) - amount,
        after.distributed(quest_id) == before.distributed(quest_id),
        after.refunded(quest_id) == before.refunded(quest_id) + amount,
        amount > 0 ==> after.total_funded() == funded_after_refund(before.total_funded(), amount),
        amount == 0 ==> after.total_funded() == before.total_funded(),
        after.total_distributed() == before.total_distributed(),
        after.quest_count() == before.quest_count(),
        same_other_quests(before, after, quest_id),
        same_records(before, after),
        same_earnings(before, after),
        same_settings(before, after),
{
    broadcast use lemma_path_injective;

}

/// Setting the contract up changes the settings alone: they are those given,
/// with the default grace period, and the contract is not paused. The total
/// distributed starts from 0.
pub proof fn law_initialize_effect(
    before: World,
    after: World,
    admin: Seq<u8>,
    token: Seq<u8>,
    quest_contract: Seq<u8>,
    milestone_contract: Seq<u8>,
)
    requires
        initialize_run(
            before,
            after,
            Ok(()),
            admin,
            token,
            quest_contract,
            milestone_contract,
        ),
    ensures
        !initialized(before),
        initialized(after),
        after.admin() == Some(admin),
        after.token() == Some(token),
        after.quest_contract() == Some(quest_contract),
        after.milestone_contract() == Some(milestone_contract),
        after.grace_period() == DEFAULT_REFUND_GRACE_PERIOD,
        !after.paused(),
        after.total_distributed() == 0,
        after.total_funded() == before.total_funded(),
        after.quest_count() == before.quest_count(),
        after.persistent == before.persistent,
        after.own == before.own,
{
    broadcast use lemma_path_injective;

}

/// Pausing and unpausing change nothing but whether the contract is paused.
pub proof fn law_pause_effect(before: World, after: World, admin: Seq<u8>, paused: bool)
    requires
        pause_run(before, after, Ok(()), admin, paused),
    ensures
        before.admin() == Some(admin),
        after.paused() == paused,
        after.instance == before.instance.insert(Key::Paused.path(), Datum::Flag(paused)),
        after.persistent == before.persistent,
        same_counters(before, after),
        initialized(after) == initialized(before),
        after.admin() == before.admin(),
        after.token() == before.token(),
        after.quest_contract() == before.quest_contract(),
        after.milestone_contract() == before.milestone_contract(),
        after.grace_period() == before.grace_period(),
        after.own == before.own,
{
    broadcast use lemma_path_injective;

}

/// Setting the grace period changes nothing else.
pub proof fn law_grace_period_effect(before: World, after: World, admin: Seq<u8>, seconds: u64)
    requires
        grace_period_run(before, after, Ok(()), admin, seconds),
    ensures
        before.admin() == Some(admin),
        settable_grace_period(seconds),
        after.grace_period() == seconds,
        after.persistent == before.persistent,
        same_counters(before, after),
        initialized(after) == initialized(before),
        after.admin() == before.admin(),
        after.token() == before.token(),
        after.quest_contract() == before.quest_contract(),
        after.milestone_contract() == before.milestone_contract(),
        after.paused() == before.paused(),
        after.own == before.own,
{
    broadcast use lemma_path_injective;

}

/// Replacing the code leaves the stores alone.
pub proof fn law_upgrade_effect(before: World, after: World, admin: Seq<u8>, hash: Seq<u8>)
    requires
        upgrade_run(before, after, Ok(()), admin, hash),
    ensures
        before.admin() == Some(admin),
        after.instance == before.instance,
        after.persistent == before.persistent,
        after.own == before.own,
{
}

/// Finding the refund window leaves the stores alone.
pub proof fn law_refund_window_effect(
    before: World,
    after: World,
    window: (u64, u64),
    quest_id: u32,
    reply: Option<Datum>,
)
    requires
        refund_window_run(before, after, window, quest_id, reply),
    ensures
        after.instance == before.instance,
        after.persistent == before.persistent,
        after.own == before.own,
{
}

/// Asking about the milestones of a claim leaves the stores alone.
proof fn lemma_claim_asked_stores(
    w: World,
    at: World,
    claimant: Seq<u8>,
    quest_id: u32,
    ids: Seq<Datum>,
    replies: Seq<ClaimReply>,
    count: nat,
)
    ensures
        ({
            let asked = claim_asked(w, at, claimant, quest_id, ids, replies, count);
            &&& asked.instance == at.instance
            &&& asked.persistent == at.persistent
            &&& asked.own == at.own
        }),
    decreases count,
{
    if count > 0 {
        lemma_claim_asked_stores(w, at, claimant, quest_id, ids, replies, (count - 1) as nat);
    }
}

/// Whether the first milestones of a claim include one.
pub open spec fn claims_milestone(ids: Seq<Datum>, count: nat, milestone_id: u32) -> bool {
    exists|i: int| 0 <= i < count && #[trigger] ids[i] == Datum::Count(milestone_id)
}

/// A claim that every check admits names milestones, each once, that were not
/// paid and that promise a reward which can be paid.
pub proof fn lemma_claim_checked(
    w: World,
    claimant: Seq<u8>,
    quest_id: u32,
    ids: Seq<Datum>,
    replies: Seq<ClaimReply>,
    count: nat,
    index: int,
)
    requires
        claim_checked(w, claimant, quest_id, ids, replies, count) is Ok,
        0 <= index < count,
    ensures
        claim_item(w, claimant, quest_id, ids, index, replies[index]) is Ok,
    decreases count,
{
    if index < count - 1 {
        lemma_claim_checked(w, claimant, quest_id, ids, replies, (count - 1) as nat, index);
    }
}

/// The rewards claimed are together no less than 0, and more where there is one.
proof fn lemma_claim_total(
    w: World,
    claimant: Seq<u8>,
    quest_id: u32,
    ids: Seq<Datum>,
    replies: Seq<ClaimReply>,
    count: nat,
)
    requires
        claim_checked(w, claimant, quest_id, ids, replies, count) is Ok,
    ensures
        count <= claim_total(replies, count) <= count * MAX_REWARD_AMOUNT,
    decreases count,
{
    if count > 0 {
        lemma_claim_total(w, claimant, quest_id, ids, replies, (count - 1) as nat);
        lemma_claim_checked(w, claimant, quest_id, ids, replies, count, count - 1);
    }
}

/// Paying the milestones of a claim puts each on record and changes nothing
/// else in the stores.
proof fn lemma_claim_paid_stores(
    w: World,
    at: World,
    claimant: Seq<u8>,
    quest_id: u32,
    ids: Seq<Datum>,
    replies: Seq<ClaimReply>,
    count: nat,
)
    requires
        forall|i: int| 0 <= i < count ==> (#[trigger] ids[i]) is Count,
    ensures
        ({
            let paid = claim_paid(w, at, claimant, quest_id, ids, replies, count);
            &&& paid.instance == at.instance
            &&& paid.own == at.own
            &&& forall|q: u32| #[trigger] same_quest(at, paid, q)
            &&& same_earnings(at, paid)
            &&& forall|q: u32, m: u32, user: Seq<u8>| #[trigger]
                paid.paid(q, m, user) <==> at.paid(q, m, user) || (q == quest_id && user
                    == claimant && claims_milestone(ids, count, m))
        }),
    decreases count,
{
    broadcast use lemma_path_injective;

    if count > 0 {
        let previous = (count - 1) as nat;
        lemma_claim_paid_stores(w, at, claimant, quest_id, ids, replies, previous);
        let mid = claim_paid(w, at, claimant, quest_id, ids, replies, previous);
        let paid = claim_paid(w, at, claimant, quest_id, ids, replies, count);
        let milestone_id = ids[count - 1]->Count_0;
        assert forall|q: u32| #[trigger] same_quest(at, paid, q) by {
            assert(same_quest(at, mid, q));
        }
        assert forall|user: Seq<u8>| #[trigger] at.earnings(user) == paid.earnings(user) by {
            assert(at.earnings(user) == mid.earnings(user));
        }
        assert forall|q: u32, m: u32, user: Seq<u8>| #[trigger] paid.paid(q, m, user) <==> at.paid(
            q,
            m,
            user,
        ) || (q == quest_id && user == claimant && claims_milestone(ids, count, m)) by {
            assert(mid.paid(q, m, user) <==> at.paid(q, m, user) || (q == quest_id && user
                == claimant && claims_milestone(ids, previous, m)));
            assert(paid.paid(q, m, user) <==> mid.paid(q, m, user) || (q == quest_id && m
                == milestone_id && user == claimant));
            assert(ids[count - 1] == Datum::Count(milestone_id));
            assert(claims_milestone(ids, count, milestone_id));
            if claims_milestone(ids, previous, m) {
                let i = choose|i: int|
                    0 <= i < previous && #[trigger] ids[i] == Datum::Count(m);
                assert(0 <= i < count && ids[i] == Datum::Count(m));
            }
        }
    }
}

/// A claim puts each of its milestones on record, takes the sum of their
/// rewards from the pool of the quest, and adds it to what the claimant earned,
/// to what was distributed for the quest and to what was distributed in all.
/// All else stays.
pub proof fn law_claim_effect(
    before: World,
    after: World,
    total: i128,
    claimant: Seq<u8>,
    quest_id: u32,
    ids: Seq<Datum>,
    replies: Seq<ClaimReply>,
)
    requires
        claim_run(before, after, Ok(total), claimant, quest_id, ids, replies),
    ensures
        total == claim_total(replies, ids.len()),
        0 < total <= before.pool(quest_id),
        before.authority(quest_id) is Some,
        after.pool(quest_id) == before.pool(quest_id) - total,
        after.authority(quest_id) == before.authority(quest_id),
        after.distributed(quest_id) == before.distributed(quest_id) + total,
        after.refunded(quest_id) == before.refunded(quest_id),
        after.earnings(claimant) == before.earnings(claimant) + total,
        after.total_distributed() == before.total_distributed() + total,
        after.total_funded() == before.total_funded(),
        after.quest_count() == before.quest_count(),
        forall|m: u32| #[trigger]
            claims_milestone(ids, ids.len(), m) ==> !before.paid(quest_id, m, claimant),
        forall|q: u32, m: u32, user: Seq<u8>| #[trigger]
            after.paid(q, m, user) <==> before.paid(q, m, user) || (q == quest_id && user
                == claimant && claims_milestone(ids, ids.len(), m)),
        same_other_quests(before, after, quest_id),
        same_other_earnings(before, after, claimant),
        same_settings(before, after),
{
    broadcast use lemma_path_injective;

    let count = ids.len();
    let authorized = before.note(Step::Authorized { who: claimant });
    let asked = claim_asked(before, authorized, claimant, quest_id, ids, replies, count);
    let paid = claim_paid(before, asked, claimant, quest_id, ids, replies, count);
    lemma_claim_asked_stores(before, authorized, claimant, quest_id, ids, replies, count);
    lemma_claim_total(before, claimant, quest_id, ids, replies, count);
    assert(claim_total(replies, count) <= 20 * MAX_REWARD_AMOUNT);
    assert forall|i: int| 0 <= i < count implies (#[trigger] ids[i]) is Count && !before.paid(
        quest_id,
        ids[i]->Count_0,
        claimant,
    ) by {
        lemma_claim_checked(before, claimant, quest_id, ids, replies, count, i);
    }
    lemma_claim_paid_stores(before, asked, claimant, quest_id, ids, replies, count);
    assert forall|q: u32, m: u32, user: Seq<u8>| #[trigger] after.paid(q, m, user) <==> before.paid(
        q,
        m,
        user,
    ) || (q == quest_id && user == claimant && claims_milestone(ids, count, m)) by {
        assert(after.paid(q, m, user) == paid.paid(q, m, user));
        assert(before.paid(q, m, user) == asked.paid(q, m, user));
    }
    assert forall|other: u32| other != quest_id implies #[trigger] same_quest(
        before,
        after,
        other,
    ) by {
        assert(same_quest(asked, paid, other));
    }
    assert(same_quest(asked, paid, quest_id));
    assert forall|other: Seq<u8>| other != claimant implies #[trigger] before.earnings(other)
        == after.earnings(other) by {
        assert(asked.earnings(other) == paid.earnings(other));
    }
}

} // verus!
