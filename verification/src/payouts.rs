//! Paying a reward, at the word of the authority over a pool.

use soroban_sdk::{Address, Env};
use vstd::prelude::*;

use crate::common::{
    callable, emit_reward_distributed, extend_instance_ttl, is_callable, log_cross_call,
    log_cross_return,
};
use crate::contract::RewardsContract;
use crate::errors::RewardsErrorEnum;
use crate::host::{
    address_text, new_text, option_text, require_auth, same_address, token_transfer, world, Value,
};
use crate::keys::{DataKey, Key};
use crate::ledger::{
    configure, instance_address, instance_amount, is_kept, keep, persistent_address,
    persistent_amount,
};
use crate::model::{Datum, Step, World};
use crate::rules::{add_payout, check_reward, is_payable, payable, payout_fits, reward_agrees};
use crate::services::{
    ask_completed, ask_reward, lemma_empty_text, lemma_function_names, reward_in,
};

verus! {

/// Whether a payout gets as far as asking for the milestone, and otherwise why
/// not.
pub open spec fn payout_request(
    w: World,
    caller: Seq<u8>,
    quest_id: u32,
    milestone_id: u32,
    enrollee: Seq<u8>,
    amount: i128,
) -> Result<(), RewardsErrorEnum> {
    if w.paused() {
        Err(RewardsErrorEnum::Paused)
    } else if !payable(amount) {
        Err(RewardsErrorEnum::InvalidAmount)
    } else if w.paid(quest_id, milestone_id, enrollee) {
        Err(RewardsErrorEnum::AlreadyPaid)
    } else if w.authority(quest_id) is None {
        Err(RewardsErrorEnum::QuestNotFunded)
    } else if w.authority(quest_id) != Some(caller) {
        Err(RewardsErrorEnum::Unauthorized)
    } else if caller == enrollee {
        Err(RewardsErrorEnum::Unauthorized)
    } else if w.milestone_contract() is None {
        Err(RewardsErrorEnum::MilestoneContractNotInitialized)
    } else if w.quest_contract() is None {
        Err(RewardsErrorEnum::QuestContractNotInitialized)
    } else if !w.can_call(w.milestone_contract()->0) {
        Err(RewardsErrorEnum::MilestoneContractNotInitialized)
    } else {
        Ok(())
    }
}

/// Whether an amount can be paid for a completed milestone, given the reward
/// that it promises, the pool, and the token that the contract pays, which must
/// be a contract other than this one.
pub open spec fn payout_terms(
    promised: Option<i128>,
    amount: i128,
    pool: i128,
    token: Option<Seq<u8>>,
    own: Seq<u8>,
) -> Result<(), RewardsErrorEnum> {
    if !reward_agrees(promised, amount) {
        Err(RewardsErrorEnum::RewardAmountMismatch)
    } else if pool < amount {
        Err(RewardsErrorEnum::InsufficientPool)
    } else if token is None {
        Err(RewardsErrorEnum::NotInitialized)
    } else if !callable(token->0, own) {
        Err(RewardsErrorEnum::InvalidToken)
    } else {
        Ok(())
    }
}

/// Whether an amount can be paid for a completed milestone.
pub fn check_payout_terms(
    promised: Option<i128>,
    amount: i128,
    pool: i128,
    token: &Option<Address>,
    own: &Address,
) -> (verdict: Result<(), RewardsErrorEnum>)
    ensures
        verdict == payout_terms(
            promised,
            amount,
            pool,
            option_text(*token),
            address_text(*own),
        ),
{
    // The authority must neither overpay nor underpay what was promised.
    if let Err(error) = check_reward(promised, amount) {
        return Err(error);
    }
    if pool < amount {
        return Err(RewardsErrorEnum::InsufficientPool);
    }
    match token {
        Some(token) => {
            if is_callable(token, own) {
                Ok(())
            } else {
                Err(RewardsErrorEnum::InvalidToken)
            }
        },
        None => Err(RewardsErrorEnum::NotInitialized),
    }
}

/// Whether the counters can take a payout.
pub open spec fn payout_counted(w: World, quest_id: u32, user: Seq<u8>, amount: i128) -> bool {
    payout_fits(w.earnings(user), w.total_distributed(), w.distributed(quest_id), amount)
}

/// What a payout comes to, given the answers of the milestone contract.
pub open spec fn payout_outcome(
    w: World,
    caller: Seq<u8>,
    quest_id: u32,
    milestone_id: u32,
    enrollee: Seq<u8>,
    amount: i128,
    completed: bool,
    reply: Option<Datum>,
) -> Result<(), RewardsErrorEnum> {
    let request = payout_request(w, caller, quest_id, milestone_id, enrollee, amount);
    if request is Err {
        request
    } else if !completed {
        Err(RewardsErrorEnum::MilestoneNotCompleted)
    } else if payout_terms(reward_in(reply), amount, w.pool(quest_id), w.token(), w.own) is Err {
        payout_terms(reward_in(reply), amount, w.pool(quest_id), w.token(), w.own)
    } else if !payout_counted(w, quest_id, enrollee, amount) {
        Err(RewardsErrorEnum::ArithmeticOverflow)
    } else {
        Ok(())
    }
}

impl World {
    /// The world after a payout was counted for the user, in all, and for the
    /// quest, from the counters in `w`.
    pub open spec fn count_payout(
        self,
        w: World,
        quest_id: u32,
        user: Seq<u8>,
        amount: i128,
    ) -> World {
        self.keep(
            Key::UserEarnings(user),
            Datum::Amount((w.earnings(user) + amount) as i128),
        ).configure(
            Key::TotalDistributed,
            Datum::Amount((w.total_distributed() + amount) as i128),
        ).keep(
            Key::QuestDistributed(quest_id),
            Datum::Amount((w.distributed(quest_id) + amount) as i128),
        ).extend_instance()
    }
}

/// The world after a payout has asked whether the milestone is completed.
pub open spec fn payout_asked(
    w: World,
    caller: Seq<u8>,
    quest_id: u32,
    milestone_id: u32,
    enrollee: Seq<u8>,
    completed: bool,
) -> World {
    let milestone_contract = w.milestone_contract()->0;
    w.note(Step::Authorized { who: caller }).announce_call(
        milestone_contract,
        "is_completed"@,
        Seq::empty(),
    ).ask_completed(
        milestone_contract,
        quest_id,
        milestone_id,
        enrollee,
        completed,
    ).announce_return(milestone_contract, "is_completed"@, completed, Seq::empty())
}

/// The world after a payout that every check admits and the counters can take:
/// it goes on record, the pool is debited, and only then the tokens are moved.
/// It is counted and announced.
pub open spec fn payout_settled(
    w: World,
    at: World,
    quest_id: u32,
    milestone_id: u32,
    enrollee: Seq<u8>,
    amount: i128,
) -> World {
    at.keep(
        Key::PayoutRecord(quest_id, milestone_id, enrollee),
        Datum::Amount(amount),
    ).keep(
        Key::QuestPool(quest_id),
        Datum::Amount((w.pool(quest_id) - amount) as i128),
    ).note(
        Step::Transferred { token: w.token()->0, from: w.own, to: enrollee, amount },
    ).count_payout(w, quest_id, enrollee, amount).announce_payout(
        quest_id,
        milestone_id,
        enrollee,
        amount,
    )
}

/// The world after a payout, given the answers of the milestone contract.
pub open spec fn payout_world(
    w: World,
    caller: Seq<u8>,
    quest_id: u32,
    milestone_id: u32,
    enrollee: Seq<u8>,
    amount: i128,
    completed: bool,
    reply: Option<Datum>,
) -> World {
    if payout_request(w, caller, quest_id, milestone_id, enrollee, amount) is Err {
        w.note(Step::Authorized { who: caller })
    } else {
        let asked = payout_asked(w, caller, quest_id, milestone_id, enrollee, completed);
        if !completed {
            asked
        } else {
            let priced = asked.ask_reward(
                w.milestone_contract()->0,
                quest_id,
                milestone_id,
                reply,
            );
            if payout_outcome(
                w,
                caller,
                quest_id,
                milestone_id,
                enrollee,
                amount,
                completed,
                reply,
            ) is Err {
                priced
            } else {
                payout_settled(w, priced, quest_id, milestone_id, enrollee, amount)
            }
        }
    }
}

/// Whether a payout went as it has to, given the answers of the milestone
/// contract.
pub open spec fn payout_run(
    before: World,
    after: World,
    result: Result<(), RewardsErrorEnum>,
    caller: Seq<u8>,
    quest_id: u32,
    milestone_id: u32,
    enrollee: Seq<u8>,
    amount: i128,
    completed: bool,
    reply: Option<Datum>,
) -> bool {
    &&& result == payout_outcome(
        before,
        caller,
        quest_id,
        milestone_id,
        enrollee,
        amount,
        completed,
        reply,
    )
    &&& after == payout_world(
        before,
        caller,
        quest_id,
        milestone_id,
        enrollee,
        amount,
        completed,
        reply,
    )
}

/// Checks what a payout needs before it asks for the milestone, and gives the
/// address of the milestone contract.
fn admit_payout(
    env: &Env,
    caller: &Address,
    quest_id: u32,
    milestone_id: u32,
    enrollee: &Address,
    amount: i128,
) -> (admitted: Result<Address, RewardsErrorEnum>)
    ensures
        ({
            let request = payout_request(
                world(*env),
                address_text(*caller),
                quest_id,
                milestone_id,
                address_text(*enrollee),
                amount,
            );
            match admitted {
                Ok(address) => {
                    &&& request is Ok
                    &&& world(*env).milestone_contract() == Some(address_text(address))
                    &&& world(*env).can_call(address_text(address))
                },
                Err(error) => request == Err::<(), RewardsErrorEnum>(error),
            }
        }),
{
    if RewardsContract::is_paused(env) {
        return Err(RewardsErrorEnum::Paused);
    }
    if !is_payable(amount) {
        return Err(RewardsErrorEnum::InvalidAmount);
    }
    if is_kept(env, &DataKey::PayoutRecord(quest_id, milestone_id, enrollee.clone())) {
        return Err(RewardsErrorEnum::AlreadyPaid);
    }
    let authority = match persistent_address(env, &DataKey::QuestAuthority(quest_id)) {
        Some(address) => address,
        None => return Err(RewardsErrorEnum::QuestNotFunded),
    };
    if !same_address(caller, &authority) {
        return Err(RewardsErrorEnum::Unauthorized);
    }
    if same_address(caller, enrollee) {
        return Err(RewardsErrorEnum::Unauthorized);
    }
    let milestone_contract = match instance_address(env, &DataKey::MilestoneContractAddr) {
        Some(address) => address,
        None => return Err(RewardsErrorEnum::MilestoneContractNotInitialized),
    };
    if instance_address(env, &DataKey::QuestContractAddr).is_none() {
        return Err(RewardsErrorEnum::QuestContractNotInitialized);
    }
    if !is_callable(&milestone_contract, &env.current_contract_address()) {
        return Err(RewardsErrorEnum::MilestoneContractNotInitialized);
    }
    Ok(milestone_contract)
}

/// Counts a payout for the user, in all, and for the quest.
pub(crate) fn count_payout(
    env: &mut Env,
    quest_id: u32,
    user: &Address,
    sums: (i128, i128, i128),
)
    ensures
        world(*final(env)) == world(*old(env)).keep(
            Key::UserEarnings(address_text(*user)),
            Datum::Amount(sums.0),
        ).configure(Key::TotalDistributed, Datum::Amount(sums.1)).keep(
            Key::QuestDistributed(quest_id),
            Datum::Amount(sums.2),
        ).extend_instance(),
{
    keep(env, &DataKey::UserEarnings(user.clone()), &Value::Amount(sums.0));
    configure(env, &DataKey::TotalDistributed, &Value::Amount(sums.1));
    keep(env, &DataKey::QuestDistributed(quest_id), &Value::Amount(sums.2));
    extend_instance_ttl(env)
}

impl RewardsContract {
    /// Pays the reward for a milestone to an enrollee. Only the authority over
    /// the pool can, not to itself, and only for a completed milestone.
    ///
    /// A payout is made once: for the same quest, milestone and enrollee a
    /// second one is refused.
    pub fn distribute_reward(
        env: &mut Env,
        caller: Address,
        quest_id: u32,
        milestone_id: u32,
        enrollee: Address,
        amount: i128,
    ) -> (result: Result<(), RewardsErrorEnum>)
        ensures
            exists|completed: bool, reply: Option<Datum>| #[trigger]
                payout_run(
                    world(*old(env)),
                    world(*final(env)),
                    result,
                    address_text(caller),
                    quest_id,
                    milestone_id,
                    address_text(enrollee),
                    amount,
                    completed,
                    reply,
                ),
    {
        let ghost w = world(*env);
        let ghost by = address_text(caller);
        let ghost to = address_text(enrollee);
        require_auth(env, &caller);
        let milestone_contract = match admit_payout(
            env,
            &caller,
            quest_id,
            milestone_id,
            &enrollee,
            amount,
        ) {
            Ok(address) => address,
            Err(error) => {
                assert(payout_run(
                    w,
                    world(*env),
                    Err(error),
                    by,
                    quest_id,
                    milestone_id,
                    to,
                    amount,
                    false,
                    None,
                ));
                return Err(error);
            },
        };

        let nothing = new_text(env, "");
        proof {
            lemma_function_names();
            lemma_empty_text();
        }
        log_cross_call(env, &milestone_contract, "is_completed", &nothing);
        let completed = ask_completed(env, &milestone_contract, quest_id, milestone_id, &enrollee);
        log_cross_return(env, &milestone_contract, "is_completed", completed, &nothing);
        assert(world(*env) == payout_asked(w, by, quest_id, milestone_id, to, completed));
        if !completed {
            assert(payout_run(
                w,
                world(*env),
                Err(RewardsErrorEnum::MilestoneNotCompleted),
                by,
                quest_id,
                milestone_id,
                to,
                amount,
                completed,
                None,
            ));
            return Err(RewardsErrorEnum::MilestoneNotCompleted);
        }
        let promised = ask_reward(env, &milestone_contract, quest_id, milestone_id);
        let ghost reply = world(*env).last_reply();
        let pool = persistent_amount(env, &DataKey::QuestPool(quest_id));
        let token = instance_address(env, &DataKey::TokenAddr);
        let own = env.current_contract_address();
        if let Err(error) = check_payout_terms(promised, amount, pool, &token, &own) {
            assert(payout_run(
                w,
                world(*env),
                Err(error),
                by,
                quest_id,
                milestone_id,
                to,
                amount,
                completed,
                reply,
            ));
            return Err(error);
        }
        let token = token.unwrap();
        let earnings = persistent_amount(env, &DataKey::UserEarnings(enrollee.clone()));
        let total_distributed = instance_amount(env, &DataKey::TotalDistributed);
        let distributed = persistent_amount(env, &DataKey::QuestDistributed(quest_id));

        // The sums come first: a payout that they cannot take changes nothing.
        let sums = match add_payout(earnings, total_distributed, distributed, amount) {
            Ok(sums) => sums,
            Err(error) => {
                assert(payout_run(
                    w,
                    world(*env),
                    Err(error),
                    by,
                    quest_id,
                    milestone_id,
                    to,
                    amount,
                    completed,
                    reply,
                ));
                return Err(error);
            },
        };
        // The record and the debit come before the transfer.
        keep(
            env,
            &DataKey::PayoutRecord(quest_id, milestone_id, enrollee.clone()),
            &Value::Amount(amount),
        );
        keep(env, &DataKey::QuestPool(quest_id), &Value::Amount(pool - amount));
        token_transfer(env, &token, &own, &enrollee, amount);
        count_payout(env, quest_id, &enrollee, sums);
        emit_reward_distributed(env, quest_id, milestone_id, &enrollee, amount);
        assert(payout_run(
            w,
            world(*env),
            Ok(()),
            by,
            quest_id,
            milestone_id,
            to,
            amount,
            completed,
            reply,
        ));
        Ok(())
    }
}

} // verus!
