//! Claiming the rewards of several milestones at once, by the enrollee.

use soroban_sdk::{Address, Env};
use vstd::prelude::*;

use crate::common::{emit_reward_distributed, is_callable, MAX_REWARD_AMOUNT};
use crate::contract::RewardsContract;
use crate::errors::RewardsErrorEnum;
use crate::host::{
    address_text, as_amount, has_number, host_value, list_items, new_list, new_numbers, number_at,
    number_items, numbers_len, push_number, push_value, require_auth, token_transfer, value_at,
    world, Value,
};
use crate::keys::{DataKey, Key};
use crate::ledger::{
    instance_address, instance_amount, is_kept, keep, persistent_address, persistent_amount,
};
use crate::model::{Datum, Step, World};
use crate::payouts::{count_payout, payout_counted};
use crate::rules::{
    add_payout, check_standing, claim_of, claimable, standing_of, MAX_CLAIM_BATCH_SIZE,
};
use crate::services::{ask_completed, ask_reward, ask_standing, reward_in};

verus! {

/// What the quest contract and the milestone contract answer about one
/// milestone of a claim.
pub struct ClaimReply {
    /// Where the claimant stands, by its number.
    pub standing: u32,
    /// Whether the claimant completed the milestone.
    pub completed: bool,
    /// The reward that the milestone promises.
    pub reward: Option<Datum>,
}

/// Whether a claim gets as far as asking for its milestones, and otherwise why
/// not.
pub open spec fn claim_request(w: World, quest_id: u32, ids: Seq<Datum>) -> Result<
    (),
    RewardsErrorEnum,
> {
    if w.paused() {
        Err(RewardsErrorEnum::Paused)
    } else if ids.len() == 0 || ids.len() > MAX_CLAIM_BATCH_SIZE {
        Err(RewardsErrorEnum::BatchTooLarge)
    } else if w.authority(quest_id) is None {
        Err(RewardsErrorEnum::QuestNotFunded)
    } else if w.milestone_contract() is None {
        Err(RewardsErrorEnum::MilestoneContractNotInitialized)
    } else if w.quest_contract() is None {
        Err(RewardsErrorEnum::QuestContractNotInitialized)
    } else if w.token() is None {
        Err(RewardsErrorEnum::NotInitialized)
    } else {
        Ok(())
    }
}

/// What can be claimed for one milestone, given the answers about it. Whether a
/// contract can be asked is looked at when its turn comes.
pub open spec fn claim_milestone(
    w: World,
    claimant: Seq<u8>,
    quest_id: u32,
    milestone_id: u32,
    reply: ClaimReply,
) -> Result<i128, RewardsErrorEnum> {
    if !w.can_call(w.quest_contract()->0) {
        Err(RewardsErrorEnum::QuestContractNotInitialized)
    } else if let Err(error) = standing_of(reply.standing) {
        Err(error)
    } else if !w.can_call(w.milestone_contract()->0) {
        Err(RewardsErrorEnum::MilestoneContractNotInitialized)
    } else if !reply.completed {
        Err(RewardsErrorEnum::MilestoneNotCompleted)
    } else if w.paid(quest_id, milestone_id, claimant) {
        Err(RewardsErrorEnum::AlreadyPaid)
    } else {
        claim_of(reward_in(reply.reward))
    }
}

/// The world after one milestone was asked about: nothing more is asked once
/// the claim is bound to fail.
pub open spec fn claim_milestone_world(
    w: World,
    at: World,
    claimant: Seq<u8>,
    quest_id: u32,
    milestone_id: u32,
    reply: ClaimReply,
) -> World {
    if !w.can_call(w.quest_contract()->0) {
        at
    } else {
        let known = at.ask_standing(w.quest_contract()->0, claimant, reply.standing);
        if standing_of(reply.standing) is Err || !w.can_call(w.milestone_contract()->0) {
            known
        } else {
            let asked = known.ask_completed(
                w.milestone_contract()->0,
                quest_id,
                milestone_id,
                claimant,
                reply.completed,
            );
            if !reply.completed || w.paid(quest_id, milestone_id, claimant) {
                asked
            } else {
                asked.ask_reward(w.milestone_contract()->0, quest_id, milestone_id, reply.reward)
            }
        }
    }
}

/// What can be claimed for the milestone at an index. No milestone can be named
/// twice.
pub open spec fn claim_item(
    w: World,
    claimant: Seq<u8>,
    quest_id: u32,
    ids: Seq<Datum>,
    index: int,
    reply: ClaimReply,
) -> Result<i128, RewardsErrorEnum> {
    match ids[index] {
        Datum::Count(milestone_id) => if ids.take(index).contains(ids[index]) {
            Err(RewardsErrorEnum::InvalidInput)
        } else {
            claim_milestone(w, claimant, quest_id, milestone_id, reply)
        },
        _ => Err(RewardsErrorEnum::InvalidInput),
    }
}

/// The world after the milestone at an index was asked about.
pub open spec fn claim_item_world(
    w: World,
    at: World,
    claimant: Seq<u8>,
    quest_id: u32,
    ids: Seq<Datum>,
    index: int,
    reply: ClaimReply,
) -> World {
    match ids[index] {
        Datum::Count(milestone_id) => if ids.take(index).contains(ids[index]) {
            at
        } else {
            claim_milestone_world(w, at, claimant, quest_id, milestone_id, reply)
        },
        _ => at,
    }
}

/// Whether the first milestones of a claim can all be claimed, and otherwise
/// why the first that cannot be is refused.
pub open spec fn claim_checked(
    w: World,
    claimant: Seq<u8>,
    quest_id: u32,
    ids: Seq<Datum>,
    replies: Seq<ClaimReply>,
    count: nat,
) -> Result<(), RewardsErrorEnum>
    decreases count,
{
    if count == 0 {
        Ok(())
    } else {
        let before = claim_checked(w, claimant, quest_id, ids, replies, (count - 1) as nat);
        if before is Err {
            before
        } else {
            match claim_item(w, claimant, quest_id, ids, count - 1, replies[count - 1]) {
                Ok(_) => Ok(()),
                Err(error) => Err(error),
            }
        }
    }
}

/// The world after the first milestones of a claim were asked about, up to the
/// first that is refused.
pub open spec fn claim_asked(
    w: World,
    at: World,
    claimant: Seq<u8>,
    quest_id: u32,
    ids: Seq<Datum>,
    replies: Seq<ClaimReply>,
    count: nat,
) -> World
    decreases count,
{
    if count == 0 {
        at
    } else {
        let before = claim_asked(w, at, claimant, quest_id, ids, replies, (count - 1) as nat);
        if claim_checked(w, claimant, quest_id, ids, replies, (count - 1) as nat) is Err {
            before
        } else {
            claim_item_world(w, before, claimant, quest_id, ids, count - 1, replies[count - 1])
        }
    }
}

/// The reward claimed for the milestone at an index.
pub open spec fn claim_amount(replies: Seq<ClaimReply>, index: int) -> i128 {
    reward_in(replies[index].reward)->0
}

/// The rewards claimed for the first milestones, together.
pub open spec fn claim_total(replies: Seq<ClaimReply>, count: nat) -> int
    decreases count,
{
    if count == 0 {
        0
    } else {
        claim_total(replies, (count - 1) as nat) + claim_amount(replies, count - 1)
    }
}

/// The world after the first milestones of a claim were paid: each goes on
/// record before its tokens are moved.
pub open spec fn claim_paid(
    w: World,
    at: World,
    claimant: Seq<u8>,
    quest_id: u32,
    ids: Seq<Datum>,
    replies: Seq<ClaimReply>,
    count: nat,
) -> World
    decreases count,
{
    if count == 0 {
        at
    } else {
        let milestone_id = ids[count - 1]->Count_0;
        let amount = claim_amount(replies, count - 1);
        claim_paid(w, at, claimant, quest_id, ids, replies, (count - 1) as nat).keep(
            Key::PayoutRecord(quest_id, milestone_id, claimant),
            Datum::Amount(amount),
        ).note(
            Step::Transferred { token: w.token()->0, from: w.own, to: claimant, amount },
        ).announce_payout(quest_id, milestone_id, claimant, amount)
    }
}

/// What a claim comes to, given the answers about its milestones.
pub open spec fn claim_outcome(
    w: World,
    claimant: Seq<u8>,
    quest_id: u32,
    ids: Seq<Datum>,
    replies: Seq<ClaimReply>,
) -> Result<i128, RewardsErrorEnum> {
    let total = claim_total(replies, ids.len());
    if let Err(error) = claim_request(w, quest_id, ids) {
        Err(error)
    } else if let Err(error) = claim_checked(w, claimant, quest_id, ids, replies, ids.len()) {
        Err(error)
    } else if w.pool(quest_id) < total {
        Err(RewardsErrorEnum::InsufficientPool)
    } else if !w.can_call(w.token()->0) {
        Err(RewardsErrorEnum::InvalidToken)
    } else if !payout_counted(w, quest_id, claimant, total as i128) {
        Err(RewardsErrorEnum::ArithmeticOverflow)
    } else {
        Ok(total as i128)
    }
}

/// The world after a claim that every check admits and the counters can take:
/// each milestone is paid, the pool is debited by all of it, and it is counted.
pub open spec fn claim_settled(
    w: World,
    at: World,
    claimant: Seq<u8>,
    quest_id: u32,
    ids: Seq<Datum>,
    replies: Seq<ClaimReply>,
) -> World {
    let total = claim_total(replies, ids.len());
    claim_paid(w, at, claimant, quest_id, ids, replies, ids.len()).keep(
        Key::QuestPool(quest_id),
        Datum::Amount((w.pool(quest_id) - total) as i128),
    ).count_payout(w, quest_id, claimant, total as i128)
}

/// The world after a claim, given the answers about its milestones.
pub open spec fn claim_world(
    w: World,
    claimant: Seq<u8>,
    quest_id: u32,
    ids: Seq<Datum>,
    replies: Seq<ClaimReply>,
) -> World {
    let authorized = w.note(Step::Authorized { who: claimant });
    if claim_request(w, quest_id, ids) is Err {
        authorized
    } else {
        let asked = claim_asked(w, authorized, claimant, quest_id, ids, replies, ids.len());
        if claim_outcome(w, claimant, quest_id, ids, replies) is Err {
            asked
        } else {
            claim_settled(w, asked, claimant, quest_id, ids, replies)
        }
    }
}

/// Whether a claim went as it has to, given the answers about its milestones:
/// one for each, where it is paid.
pub open spec fn claim_run(
    before: World,
    after: World,
    result: Result<i128, RewardsErrorEnum>,
    claimant: Seq<u8>,
    quest_id: u32,
    ids: Seq<Datum>,
    replies: Seq<ClaimReply>,
) -> bool {
    &&& result == claim_outcome(before, claimant, quest_id, ids, replies)
    &&& after == claim_world(before, claimant, quest_id, ids, replies)
    &&& result is Ok ==> replies.len() == ids.len()
}

/// Whether one milestone was asked about as it has to be.
pub open spec fn claim_milestone_run(
    before: World,
    after: World,
    result: Result<i128, RewardsErrorEnum>,
    claimant: Seq<u8>,
    quest_id: u32,
    milestone_id: u32,
    reply: ClaimReply,
) -> bool {
    &&& result == claim_milestone(before, claimant, quest_id, milestone_id, reply)
    &&& after == claim_milestone_world(before, before, claimant, quest_id, milestone_id, reply)
}

/// What was found about the first milestones does not change with what is
/// answered later.
proof fn lemma_claim_prefix(
    w: World,
    at: World,
    claimant: Seq<u8>,
    quest_id: u32,
    ids: Seq<Datum>,
    replies: Seq<ClaimReply>,
    reply: ClaimReply,
    count: nat,
)
    requires
        count <= replies.len(),
    ensures
        claim_checked(w, claimant, quest_id, ids, replies.push(reply), count) == claim_checked(
            w,
            claimant,
            quest_id,
            ids,
            replies,
            count,
        ),
        claim_asked(w, at, claimant, quest_id, ids, replies.push(reply), count) == claim_asked(
            w,
            at,
            claimant,
            quest_id,
            ids,
            replies,
            count,
        ),
        claim_total(replies.push(reply), count) == claim_total(replies, count),
    decreases count,
{
    if count > 0 {
        lemma_claim_prefix(w, at, claimant, quest_id, ids, replies, reply, (count - 1) as nat);
    }
}

/// Once a milestone is refused, nothing more is asked and the error stays.
proof fn lemma_claim_stops(
    w: World,
    at: World,
    claimant: Seq<u8>,
    quest_id: u32,
    ids: Seq<Datum>,
    replies: Seq<ClaimReply>,
    stop: nat,
    count: nat,
)
    requires
        stop <= count,
        claim_checked(w, claimant, quest_id, ids, replies, stop) is Err,
    ensures
        claim_checked(w, claimant, quest_id, ids, replies, count) == claim_checked(
            w,
            claimant,
            quest_id,
            ids,
            replies,
            stop,
        ),
        claim_asked(w, at, claimant, quest_id, ids, replies, count) == claim_asked(
            w,
            at,
            claimant,
            quest_id,
            ids,
            replies,
            stop,
        ),
    decreases count,
{
    if count > stop {
        lemma_claim_stops(w, at, claimant, quest_id, ids, replies, stop, (count - 1) as nat);
    }
}

/// A milestone that is refused ends the whole claim.
proof fn lemma_claim_refused(
    w: World,
    after: World,
    claimant: Seq<u8>,
    quest_id: u32,
    ids: Seq<Datum>,
    replies: Seq<ClaimReply>,
    reply: ClaimReply,
    error: RewardsErrorEnum,
)
    requires
        claim_request(w, quest_id, ids) is Ok,
        replies.len() < ids.len(),
        claim_checked(w, claimant, quest_id, ids, replies, replies.len()) is Ok,
        claim_item(w, claimant, quest_id, ids, replies.len() as int, reply) == Err::<
            i128,
            RewardsErrorEnum,
        >(error),
        after == claim_item_world(
            w,
            claim_asked(
                w,
                w.note(Step::Authorized { who: claimant }),
                claimant,
                quest_id,
                ids,
                replies,
                replies.len(),
            ),
            claimant,
            quest_id,
            ids,
            replies.len() as int,
            reply,
        ),
    ensures
        claim_run(w, after, Err(error), claimant, quest_id, ids, replies.push(reply)),
{
    let at = w.note(Step::Authorized { who: claimant });
    let all = replies.push(reply);
    lemma_claim_prefix(w, at, claimant, quest_id, ids, replies, reply, replies.len());
    assert(all[replies.len() as int] == reply);
    assert(claim_checked(w, claimant, quest_id, ids, all, all.len()) == Err::<
        (),
        RewardsErrorEnum,
    >(error));
    assert(claim_asked(w, at, claimant, quest_id, ids, all, all.len()) == after);
    lemma_claim_stops(w, at, claimant, quest_id, ids, all, all.len(), ids.len());
}

/// Asks what can be claimed for one milestone.
fn check_claim(
    env: &mut Env,
    quest_contract: &Address,
    milestone_contract: &Address,
    claimant: &Address,
    quest_id: u32,
    milestone_id: u32,
) -> (claim: Result<i128, RewardsErrorEnum>)
    requires
        world(*old(env)).quest_contract() == Some(address_text(*quest_contract)),
        world(*old(env)).milestone_contract() == Some(address_text(*milestone_contract)),
    ensures
        exists|reply: ClaimReply| #[trigger]
            claim_milestone_run(
                world(*old(env)),
                world(*final(env)),
                claim,
                address_text(*claimant),
                quest_id,
                milestone_id,
                reply,
            ),
{
    let ghost w = world(*env);
    let ghost who = address_text(*claimant);
    let own = env.current_contract_address();
    if !is_callable(quest_contract, &own) {
        let error = RewardsErrorEnum::QuestContractNotInitialized;
        let ghost reply = ClaimReply { standing: 0, completed: false, reward: None };
        assert(claim_milestone_run(w, world(*env), Err(error), who, quest_id, milestone_id, reply));
        return Err(error);
    }
    let standing = ask_standing(env, quest_contract, claimant);
    if let Err(error) = check_standing(standing) {
        let ghost reply = ClaimReply { standing, completed: false, reward: None };
        assert(claim_milestone_run(w, world(*env), Err(error), who, quest_id, milestone_id, reply));
        return Err(error);
    }
    if !is_callable(milestone_contract, &own) {
        let error = RewardsErrorEnum::MilestoneContractNotInitialized;
        let ghost reply = ClaimReply { standing, completed: false, reward: None };
        assert(claim_milestone_run(w, world(*env), Err(error), who, quest_id, milestone_id, reply));
        return Err(error);
    }
    let completed = ask_completed(env, milestone_contract, quest_id, milestone_id, claimant);
    let ghost unpriced = ClaimReply { standing, completed, reward: None };
    if !completed {
        assert(claim_milestone_run(
            w,
            world(*env),
            Err(RewardsErrorEnum::MilestoneNotCompleted),
            who,
            quest_id,
            milestone_id,
            unpriced,
        ));
        return Err(RewardsErrorEnum::MilestoneNotCompleted);
    }
    if is_kept(env, &DataKey::PayoutRecord(quest_id, milestone_id, claimant.clone())) {
        assert(claim_milestone_run(
            w,
            world(*env),
            Err(RewardsErrorEnum::AlreadyPaid),
            who,
            quest_id,
            milestone_id,
            unpriced,
        ));
        return Err(RewardsErrorEnum::AlreadyPaid);
    }
    let promised = ask_reward(env, milestone_contract, quest_id, milestone_id);
    let claim = claimable(promised);
    let ghost reply = ClaimReply { standing, completed, reward: world(*env).last_reply() };
    assert(claim_milestone_run(w, world(*env), claim, who, quest_id, milestone_id, reply));
    claim
}

/// The addresses that a claim works with.
struct ClaimParties {
    milestone_contract: Address,
    quest_contract: Address,
    token: Address,
}

/// Checks what a claim needs before it asks for its milestones.
fn admit_claim(env: &Env, quest_id: u32, milestone_ids: &soroban_sdk::Vec<u32>) -> (admitted: Result<
    ClaimParties,
    RewardsErrorEnum,
>)
    ensures
        ({
            let w = world(*env);
            let request = claim_request(w, quest_id, number_items(*milestone_ids));
            match admitted {
                Ok(parties) => {
                    &&& request is Ok
                    &&& w.milestone_contract() == Some(address_text(parties.milestone_contract))
                    &&& w.quest_contract() == Some(address_text(parties.quest_contract))
                    &&& w.token() == Some(address_text(parties.token))
                },
                Err(error) => request == Err::<(), RewardsErrorEnum>(error),
            }
        }),
{
    if RewardsContract::is_paused(env) {
        return Err(RewardsErrorEnum::Paused);
    }
    let count: u32 = numbers_len(milestone_ids);
    if count == 0 || count > MAX_CLAIM_BATCH_SIZE {
        return Err(RewardsErrorEnum::BatchTooLarge);
    }
    if persistent_address(env, &DataKey::QuestAuthority(quest_id)).is_none() {
        return Err(RewardsErrorEnum::QuestNotFunded);
    }
    let milestone_contract = match instance_address(env, &DataKey::MilestoneContractAddr) {
        Some(address) => address,
        None => return Err(RewardsErrorEnum::MilestoneContractNotInitialized),
    };
    let quest_contract = match instance_address(env, &DataKey::QuestContractAddr) {
        Some(address) => address,
        None => return Err(RewardsErrorEnum::QuestContractNotInitialized),
    };
    match RewardsContract::get_token(env) {
        Ok(token) => Ok(ClaimParties { milestone_contract, quest_contract, token }),
        Err(error) => Err(error),
    }
}

impl RewardsContract {
    /// Pays the claimant the rewards of several completed milestones, and gives
    /// their sum.
    ///
    /// Every milestone is checked before anything is paid: the claimant must
    /// have completed it, it must not have been paid before, it must promise a
    /// reward, and it must not be named twice. If one is refused, none is paid.
    pub fn claim_batch(
        env: &mut Env,
        claimant: Address,
        quest_id: u32,
        milestone_ids: soroban_sdk::Vec<u32>,
    ) -> (result: Result<i128, RewardsErrorEnum>)
        ensures
            exists|replies: Seq<ClaimReply>| #[trigger]
                claim_run(
                    world(*old(env)),
                    world(*final(env)),
                    result,
                    address_text(claimant),
                    quest_id,
                    number_items(milestone_ids),
                    replies,
                ),
    {
        let ghost w = world(*env);
        let ghost who = address_text(claimant);
        let ghost ids = number_items(milestone_ids);
        require_auth(env, &claimant);
        let ghost authorized = world(*env);
        let parties = match admit_claim(env, quest_id, &milestone_ids) {
            Ok(parties) => parties,
            Err(error) => {
                assert(claim_run(w, world(*env), Err(error), who, quest_id, ids, Seq::empty()));
                return Err(error);
            },
        };
        let count: u32 = numbers_len(&milestone_ids);

        // Every milestone is checked before anything is changed.
        let mut total: i128 = 0;
        let mut amounts = new_list(env);
        let mut seen = new_numbers(env);
        let ghost mut replies: Seq<ClaimReply> = Seq::empty();
        let mut i: u32 = 0;
        while i < count
            invariant
                w == world(*old(env)),
                i <= count == ids.len() <= MAX_CLAIM_BATCH_SIZE,
                ids == number_items(milestone_ids),
                who == address_text(claimant),
                authorized == w.note(Step::Authorized { who }),
                claim_request(w, quest_id, ids) is Ok,
                w.milestone_contract() == Some(address_text(parties.milestone_contract)),
                w.quest_contract() == Some(address_text(parties.quest_contract)),
                world(*env).instance == w.instance,
                world(*env).persistent == w.persistent,
                world(*env).own == w.own,
                replies.len() == i,
                claim_checked(w, who, quest_id, ids, replies, i as nat) is Ok,
                world(*env) == claim_asked(w, authorized, who, quest_id, ids, replies, i as nat),
                number_items(seen) == ids.take(i as int),
                list_items(amounts).len() == i,
                forall|j: int|
                    0 <= j < i ==> #[trigger] list_items(amounts)[j] == Datum::Amount(
                        claim_amount(replies, j),
                    ),
                forall|j: int| 0 <= j < i ==> 0 < #[trigger] claim_amount(replies, j),
                forall|j: int| 0 <= j < i ==> (#[trigger] ids[j]) is Count,
                total == claim_total(replies, i as nat),
                0 <= total <= i * MAX_REWARD_AMOUNT,
            decreases count - i,
        {
            let ghost before = world(*env);
            let milestone_id = match number_at(&milestone_ids, i) {
                Some(milestone_id) => milestone_id,
                None => {
                    let ghost reply = arbitrary();
                    proof {
                        lemma_claim_refused(
                            w,
                            world(*env),
                            who,
                            quest_id,
                            ids,
                            replies,
                            reply,
                            RewardsErrorEnum::InvalidInput,
                        );
                    }
                    return Err(RewardsErrorEnum::InvalidInput);
                },
            };
            if has_number(&seen, milestone_id) {
                let ghost reply = arbitrary();
                proof {
                    lemma_claim_refused(
                        w,
                        world(*env),
                        who,
                        quest_id,
                        ids,
                        replies,
                        reply,
                        RewardsErrorEnum::InvalidInput,
                    );
                }
                return Err(RewardsErrorEnum::InvalidInput);
            }
            push_number(&mut seen, milestone_id);
            let claim = check_claim(
                env,
                &parties.quest_contract,
                &parties.milestone_contract,
                &claimant,
                quest_id,
                milestone_id,
            );
            let ghost reply = choose|reply: ClaimReply| #[trigger]
                claim_milestone_run(before, world(*env), claim, who, quest_id, milestone_id, reply);
            assert(claim_item(w, who, quest_id, ids, i as int, reply) == claim);
            assert(world(*env) == claim_item_world(w, before, who, quest_id, ids, i as int, reply));
            let amount = match claim {
                Ok(amount) => amount,
                Err(error) => {
                    proof {
                        lemma_claim_refused(
                            w,
                            world(*env),
                            who,
                            quest_id,
                            ids,
                            replies,
                            reply,
                            error,
                        );
                    }
                    return Err(error);
                },
            };
            push_value(&mut amounts, host_value(env, &Value::Amount(amount)));
            proof {
                lemma_claim_prefix(w, authorized, who, quest_id, ids, replies, reply, i as nat);
                let all = replies.push(reply);
                assert(all[i as int] == reply);
                assert forall|j: int| 0 <= j < i + 1 implies #[trigger] list_items(amounts)[j]
                    == Datum::Amount(claim_amount(all, j)) by {
                    if j < i {
                        assert(all[j] == replies[j]);
                    }
                }
                assert forall|j: int| 0 <= j < i + 1 implies 0 < #[trigger] claim_amount(all, j) by {
                    if j < i {
                        assert(claim_amount(replies, j) == claim_amount(all, j));
                    }
                }
                assert(ids.take(i + 1) =~= ids.take(i as int).push(ids[i as int]));
                replies = all;
            }
            total = total + amount;
            i += 1;
        }
        let ghost asked = world(*env);

        let pool = persistent_amount(env, &DataKey::QuestPool(quest_id));
        if pool < total {
            assert(claim_run(
                w,
                world(*env),
                Err(RewardsErrorEnum::InsufficientPool),
                who,
                quest_id,
                ids,
                replies,
            ));
            return Err(RewardsErrorEnum::InsufficientPool);
        }
        let own = env.current_contract_address();
        if !is_callable(&parties.token, &own) {
            let error = RewardsErrorEnum::InvalidToken;
            assert(claim_run(w, world(*env), Err(error), who, quest_id, ids, replies));
            return Err(error);
        }
        let earnings = persistent_amount(env, &DataKey::UserEarnings(claimant.clone()));
        let total_distributed = instance_amount(env, &DataKey::TotalDistributed);
        let distributed = persistent_amount(env, &DataKey::QuestDistributed(quest_id));

        // The sums come first: a claim that they cannot take changes nothing.
        let sums = match add_payout(earnings, total_distributed, distributed, total) {
            Ok(sums) => sums,
            Err(error) => {
                assert(claim_run(w, world(*env), Err(error), who, quest_id, ids, replies));
                return Err(error);
            },
        };
        let mut i: u32 = 0;
        while i < count
            invariant
                i <= count == ids.len(),
                ids == number_items(milestone_ids),
                who == address_text(claimant),
                w.token() == Some(address_text(parties.token)),
                w.own == address_text(own),
                world(*env).own == w.own,
                w.can_call(address_text(parties.token)),
                list_items(amounts).len() == count,
                forall|j: int|
                    0 <= j < count ==> #[trigger] list_items(amounts)[j] == Datum::Amount(
                        claim_amount(replies, j),
                    ),
                forall|j: int| 0 <= j < count ==> 0 < #[trigger] claim_amount(replies, j),
                forall|j: int| 0 <= j < count ==> (#[trigger] ids[j]) is Count,
                world(*env) == claim_paid(w, asked, who, quest_id, ids, replies, i as nat),
            decreases count - i,
        {
            let milestone_id = number_at(&milestone_ids, i).unwrap();
            let amount = as_amount(env, &value_at(&amounts, i).unwrap()).unwrap();
            // The record comes before the transfer.
            keep(
                env,
                &DataKey::PayoutRecord(quest_id, milestone_id, claimant.clone()),
                &Value::Amount(amount),
            );
            token_transfer(env, &parties.token, &own, &claimant, amount);
            emit_reward_distributed(env, quest_id, milestone_id, &claimant, amount);
            i += 1;
        }
        keep(env, &DataKey::QuestPool(quest_id), &Value::Amount(pool - total));
        count_payout(env, quest_id, &claimant, sums);
        assert(claim_run(w, world(*env), Ok(total), who, quest_id, ids, replies));
        Ok(total)
    }
}

} // verus!
