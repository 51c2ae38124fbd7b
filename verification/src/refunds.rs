//! Refunding what is left of a pool to the authority over it.

use soroban_sdk::{Address, Env};
use vstd::prelude::*;

use crate::common::{emit, is_callable, lemma_event_names, make_list, Quest, QuestInfo, QuestStatus};
use crate::contract::{find_token, token_verdict, RewardsContract};
use crate::errors::RewardsErrorEnum;
use crate::host::{
    address_text, ledger_time, list_items, option_text, require_auth, same_address, token_transfer,
    world, Value,
};
use crate::keys::{DataKey, Key};
use crate::ledger::{
    address_in, configure, instance_address, instance_amount, keep, persistent_address,
    persistent_amount,
};
use crate::model::{Datum, Step, World};
use crate::quest::quest_in;
use crate::rules::{
    add_refund, archiving_verdict, check_archiving, check_closing, check_expiry, choose_refund,
    closing_verdict, expiry_verdict, funded_after_refund, is_payable, payable, refund_choice,
    refund_fits, refund_window, refund_window_of, refundable, refundable_of,
};
use crate::services::{ask_quest, ask_reserved};

verus! {

/// What opens a pool for refunds.
#[derive(Clone, Copy, Debug, PartialEq, Eq, Structural)]
pub enum RefundGround {
    /// The quest was archived or cancelled.
    Closing,
    /// The quest was archived.
    Archiving,
    /// The deadline of the quest has passed.
    Expiry,
}

impl RefundGround {
    /// Whether it takes the time to tell if a quest can be refunded.
    pub open spec fn timed(self, quest: Quest) -> bool {
        match self {
            RefundGround::Closing | RefundGround::Archiving => {
                quest.status == QuestStatus::Archived
            },
            RefundGround::Expiry => quest.deadline != 0,
        }
    }

    /// Whether a quest can be refunded at a time.
    pub open spec fn verdict(self, quest: Quest, grace_period: u64, now: u64) -> Result<
        (),
        RewardsErrorEnum,
    > {
        match self {
            RefundGround::Closing => closing_verdict(
                quest.status,
                quest.archived_at,
                grace_period,
                now,
            ),
            RefundGround::Archiving => archiving_verdict(
                quest.status,
                quest.archived_at,
                grace_period,
                now,
            ),
            RefundGround::Expiry => expiry_verdict(quest.deadline, grace_period, now),
        }
    }
}

/// Whether a refund gets as far as asking for the quest, and otherwise why not.
/// `wanted` is the amount to refund, or `None` for all that can be refunded.
pub open spec fn refund_request(
    w: World,
    authority: Seq<u8>,
    quest_id: u32,
    wanted: Option<i128>,
) -> Result<(), RewardsErrorEnum> {
    if w.paused() {
        Err(RewardsErrorEnum::Paused)
    } else if wanted is Some && !payable(wanted->0) {
        Err(RewardsErrorEnum::InvalidAmount)
    } else if w.authority(quest_id) is None {
        Err(RewardsErrorEnum::QuestNotFunded)
    } else if w.authority(quest_id) != Some(authority) {
        Err(RewardsErrorEnum::Unauthorized)
    } else if w.quest_contract() is None {
        Err(RewardsErrorEnum::NotInitialized)
    } else if !w.can_call(w.quest_contract()->0) {
        Err(RewardsErrorEnum::QuestLookupFailed)
    } else {
        Ok(())
    }
}

/// Whether a quest, as the quest contract gives it, can be refunded.
pub open spec fn refund_terms(
    w: World,
    ground: RefundGround,
    reply: Option<Datum>,
    now: u64,
) -> Result<(), RewardsErrorEnum> {
    match quest_in(reply) {
        None => Err(RewardsErrorEnum::QuestLookupFailed),
        Some(quest) => if ground.verdict(quest, w.grace_period(), now) is Err {
            ground.verdict(quest, w.grace_period(), now)
        } else if w.milestone_contract() is None || !w.can_call(w.milestone_contract()->0) {
            Err(RewardsErrorEnum::NotInitialized)
        } else {
            Ok(())
        },
    }
}

/// How much is refunded, given the rewards that are reserved for the quest.
/// Nothing is left to refund where the amount is 0.
pub open spec fn refund_amount(
    w: World,
    quest_id: u32,
    wanted: Option<i128>,
    reserved: i128,
) -> Result<i128, RewardsErrorEnum> {
    match refundable_of(w.pool(quest_id), reserved, w.distributed(quest_id)) {
        Err(error) => Err(error),
        Ok(left) => match refund_choice(left, wanted) {
            Err(error) => Err(error),
            Ok(amount) => if amount == 0 {
                Ok(0)
            } else if let Err(error) = token_verdict(w) {
                Err(error)
            } else if !refund_fits(w.pool(quest_id), w.refunded(quest_id), amount) {
                Err(RewardsErrorEnum::ArithmeticOverflow)
            } else {
                Ok(amount)
            },
        },
    }
}

/// What a refund comes to, given the answers of the quest contract, of the
/// clock and of the milestone contract: the amount refunded.
pub open spec fn refund_outcome(
    w: World,
    authority: Seq<u8>,
    quest_id: u32,
    ground: RefundGround,
    wanted: Option<i128>,
    reply: Option<Datum>,
    now: u64,
    reserved: i128,
) -> Result<i128, RewardsErrorEnum> {
    if let Err(error) = refund_request(w, authority, quest_id, wanted) {
        Err(error)
    } else if let Err(error) = refund_terms(w, ground, reply, now) {
        Err(error)
    } else {
        refund_amount(w, quest_id, wanted, reserved)
    }
}

impl World {
    /// The world after a refund was counted, in all and for the quest.
    pub open spec fn record_refund(
        self,
        quest_id: u32,
        total_funded: i128,
        refunded: i128,
    ) -> World {
        self.configure(Key::TotalFunded, Datum::Amount(total_funded)).keep(
            Key::QuestRefunded(quest_id),
            Datum::Amount(refunded),
        )
    }

    /// The world after a refund was announced.
    pub open spec fn announce_refund(
        self,
        quest_id: u32,
        authority: Seq<u8>,
        amount: i128,
    ) -> World {
        self.publish(
            "reward_refunded"@,
            seq![Datum::Count(quest_id), Datum::Account(authority), Datum::Amount(amount)],
        )
    }
}

/// The world after a refund that every check admits: the tokens are moved, the
/// pool is debited, and the refund is counted and announced.
pub open spec fn refund_settled(
    w: World,
    at: World,
    authority: Seq<u8>,
    quest_id: u32,
    amount: i128,
) -> World {
    at.note(
        Step::Transferred { token: w.token()->0, from: w.own, to: authority, amount },
    ).keep(
        Key::QuestPool(quest_id),
        Datum::Amount((w.pool(quest_id) - amount) as i128),
    ).record_refund(
        quest_id,
        funded_after_refund(w.total_funded(), amount),
        (w.refunded(quest_id) + amount) as i128,
    ).announce_refund(quest_id, authority, amount)
}

/// The world after a refund has asked for the quest and, where it takes the
/// time to go on, read the clock.
pub open spec fn refund_asked(
    w: World,
    authority: Seq<u8>,
    quest_id: u32,
    ground: RefundGround,
    reply: Option<Datum>,
    now: u64,
) -> World {
    let asked = w.note(Step::Authorized { who: authority }).ask_quest(
        w.quest_contract()->0,
        quest_id,
        reply,
    );
    match quest_in(reply) {
        Some(quest) => if ground.timed(quest) {
            asked.note(Step::ClockRead { now })
        } else {
            asked
        },
        None => asked,
    }
}

/// The world after a refund, given the answers of the quest contract, of the
/// clock and of the milestone contract.
pub open spec fn refund_world(
    w: World,
    authority: Seq<u8>,
    quest_id: u32,
    ground: RefundGround,
    wanted: Option<i128>,
    reply: Option<Datum>,
    now: u64,
    reserved: i128,
) -> World {
    if refund_request(w, authority, quest_id, wanted) is Err {
        w.note(Step::Authorized { who: authority })
    } else {
        let asked = refund_asked(w, authority, quest_id, ground, reply, now);
        if refund_terms(w, ground, reply, now) is Err {
            asked
        } else {
            let priced = asked.ask_reserved(w.milestone_contract()->0, quest_id, reserved);
            match refund_amount(w, quest_id, wanted, reserved) {
                Err(_) => priced,
                Ok(amount) => if amount == 0 {
                    priced
                } else {
                    refund_settled(w, priced, authority, quest_id, amount)
                },
            }
        }
    }
}

/// Whether a refund went as it has to, given the answers of the quest contract,
/// of the clock and of the milestone contract.
pub open spec fn refund_run(
    before: World,
    after: World,
    result: Result<i128, RewardsErrorEnum>,
    authority: Seq<u8>,
    quest_id: u32,
    ground: RefundGround,
    wanted: Option<i128>,
    reply: Option<Datum>,
    now: u64,
    reserved: i128,
) -> bool {
    &&& result == refund_outcome(
        before,
        authority,
        quest_id,
        ground,
        wanted,
        reply,
        now,
        reserved,
    )
    &&& after == refund_world(before, authority, quest_id, ground, wanted, reply, now, reserved)
}

/// Whether a quest can be refunded now. The clock is read only where it takes
/// the time to tell.
fn check_ground(env: &mut Env, ground: RefundGround, quest: &QuestInfo) -> (verdict: Result<
    (),
    RewardsErrorEnum,
>)
    ensures
        world(*final(env)) == (if ground.timed(quest@) {
            world(*old(env)).note(world(*final(env)).steps.last())
        } else {
            world(*old(env))
        }),
        ground.timed(quest@) ==> world(*final(env)).steps.last() is ClockRead,
        forall|now: u64|
            (ground.timed(quest@) ==> world(*final(env)).steps.last() == Step::ClockRead { now })
                ==> verdict == #[trigger] ground.verdict(
                quest@,
                world(*old(env)).grace_period(),
                now,
            ),
{
    let grace_period = RewardsContract::get_refund_grace_period(env);
    match ground {
        RefundGround::Closing => match quest.status {
            QuestStatus::Archived => {
                let now = ledger_time(env);
                assert(world(*env) == world(*old(env)).note(Step::ClockRead { now }));
                check_closing(quest.status, quest.archived_at, grace_period, now)
            },
            _ => check_closing(quest.status, quest.archived_at, grace_period, 0),
        },
        RefundGround::Archiving => match quest.status {
            QuestStatus::Archived => {
                let now = ledger_time(env);
                assert(world(*env) == world(*old(env)).note(Step::ClockRead { now }));
                check_archiving(quest.status, quest.archived_at, grace_period, now)
            },
            _ => check_archiving(quest.status, quest.archived_at, grace_period, 0),
        },
        RefundGround::Expiry => {
            if quest.deadline == 0 {
                return Err(RewardsErrorEnum::QuestNotExpired);
            }
            let now = ledger_time(env);
            assert(world(*env) == world(*old(env)).note(Step::ClockRead { now }));
            check_expiry(quest.deadline, grace_period, now)
        },
    }
}

/// Checks what a refund needs before it asks for the quest, and gives the
/// address of the quest contract.
fn admit_refund(env: &Env, authority: &Address, quest_id: u32, wanted: Option<i128>) -> (admitted:
    Result<Address, RewardsErrorEnum>)
    ensures
        ({
            let request = refund_request(world(*env), address_text(*authority), quest_id, wanted);
            match admitted {
                Ok(address) => {
                    &&& request is Ok
                    &&& world(*env).quest_contract() == Some(address_text(address))
                    &&& world(*env).can_call(address_text(address))
                },
                Err(error) => request == Err::<(), RewardsErrorEnum>(error),
            }
        }),
{
    if RewardsContract::is_paused(env) {
        return Err(RewardsErrorEnum::Paused);
    }
    if let Some(amount) = wanted {
        if !is_payable(amount) {
            return Err(RewardsErrorEnum::InvalidAmount);
        }
    }
    let stored = match persistent_address(env, &DataKey::QuestAuthority(quest_id)) {
        Some(address) => address,
        None => return Err(RewardsErrorEnum::QuestNotFunded),
    };
    if !same_address(&stored, authority) {
        return Err(RewardsErrorEnum::Unauthorized);
    }
    match instance_address(env, &DataKey::QuestContractAddr) {
        Some(address) => {
            if is_callable(&address, &env.current_contract_address()) {
                Ok(address)
            } else {
                Err(RewardsErrorEnum::QuestLookupFailed)
            }
        },
        None => Err(RewardsErrorEnum::NotInitialized),
    }
}

/// Finds a contract that is to be called.
fn find_contract(env: &Env, key: &DataKey) -> (found: Option<Address>)
    ensures
        option_text(found) == (match address_in(world(*env).instance, key@) {
            Some(held) if world(*env).can_call(held) => Some(held),
            _ => None,
        }),
{
    match instance_address(env, key) {
        Some(address) => {
            if is_callable(&address, &env.current_contract_address()) {
                Some(address)
            } else {
                None
            }
        },
        None => None,
    }
}

/// Publishes that a pool was refunded.
/// Topics: (reward_refunded,)
/// Data: (quest_id, authority, amount)
fn emit_reward_refunded(env: &mut Env, quest_id: u32, authority: &Address, amount: i128)
    ensures
        world(*final(env)) == world(*old(env)).announce_refund(
            quest_id,
            address_text(*authority),
            amount,
        ),
{
    let data = make_list(
        env,
        &[Value::Count(quest_id), Value::Account(authority), Value::Amount(amount)],
    );
    proof {
        lemma_event_names();
        assert(list_items(data) =~= seq![
            Datum::Count(quest_id),
            Datum::Account(address_text(*authority)),
            Datum::Amount(amount),
        ]);
    }
    emit(env, "reward_refunded", data)
}

/// Refunds a pool on a ground: an amount, or all that can be refunded.
fn refund(
    env: &mut Env,
    authority: &Address,
    quest_id: u32,
    ground: RefundGround,
    wanted: Option<i128>,
) -> (result: Result<i128, RewardsErrorEnum>)
    ensures
        exists|reply: Option<Datum>, now: u64, reserved: i128| #[trigger]
            refund_run(
                world(*old(env)),
                world(*final(env)),
                result,
                address_text(*authority),
                quest_id,
                ground,
                wanted,
                reply,
                now,
                reserved,
            ),
{
    let ghost w = world(*env);
    let ghost who = address_text(*authority);
    require_auth(env, authority);
    let quest_contract = match admit_refund(env, authority, quest_id, wanted) {
        Ok(address) => address,
        Err(error) => {
            assert(refund_run(
                w,
                world(*env),
                Err(error),
                who,
                quest_id,
                ground,
                wanted,
                None,
                0,
                0,
            ));
            return Err(error);
        },
    };

    let found = ask_quest(env, &quest_contract, quest_id);
    let ghost reply = world(*env).last_reply();
    let ghost asked = world(*env);
    let quest = match found {
        Some(quest) => quest,
        None => {
            let error = RewardsErrorEnum::QuestLookupFailed;
            assert(refund_run(w, asked, Err(error), who, quest_id, ground, wanted, reply, 0, 0));
            return Err(error);
        },
    };
    let verdict = check_ground(env, ground, &quest);
    let ghost now = if ground.timed(quest@) {
        world(*env).steps.last()->now
    } else {
        0
    };
    assert(verdict == ground.verdict(quest@, w.grace_period(), now));
    assert(world(*env) == refund_asked(w, who, quest_id, ground, reply, now));
    if let Err(error) = verdict {
        assert(refund_run(
            w,
            world(*env),
            Err(error),
            who,
            quest_id,
            ground,
            wanted,
            reply,
            now,
            0,
        ));
        return Err(error);
    }
    let milestone_contract = match find_contract(env, &DataKey::MilestoneContractAddr) {
        Some(address) => address,
        None => {
            let error = RewardsErrorEnum::NotInitialized;
            assert(refund_run(
                w,
                world(*env),
                Err(error),
                who,
                quest_id,
                ground,
                wanted,
                reply,
                now,
                0,
            ));
            return Err(error);
        },
    };

    // What is promised and not yet paid stays in the pool.
    let reserved = ask_reserved(env, &milestone_contract, quest_id);
    let ghost priced = world(*env);
    let distributed = persistent_amount(env, &DataKey::QuestDistributed(quest_id));
    let pool = persistent_amount(env, &DataKey::QuestPool(quest_id));
    let left = match refundable(pool, reserved, distributed) {
        Ok(left) => left,
        Err(error) => {
            assert(refund_run(
                w,
                priced,
                Err(error),
                who,
                quest_id,
                ground,
                wanted,
                reply,
                now,
                reserved,
            ));
            return Err(error);
        },
    };
    let amount = match choose_refund(left, wanted) {
        Ok(amount) => amount,
        Err(error) => {
            assert(refund_run(
                w,
                priced,
                Err(error),
                who,
                quest_id,
                ground,
                wanted,
                reply,
                now,
                reserved,
            ));
            return Err(error);
        },
    };
    if amount == 0 {
        assert(refund_run(w, priced, Ok(0), who, quest_id, ground, wanted, reply, now, reserved));
        return Ok(0);
    }
    let token = match find_token(env) {
        Ok(address) => address,
        Err(error) => {
            assert(refund_run(
                w,
                priced,
                Err(error),
                who,
                quest_id,
                ground,
                wanted,
                reply,
                now,
                reserved,
            ));
            return Err(error);
        },
    };

    // The sums come first: a refund that they cannot take changes nothing.
    let total_funded = instance_amount(env, &DataKey::TotalFunded);
    let refunded = persistent_amount(env, &DataKey::QuestRefunded(quest_id));
    let sums = match add_refund(pool, total_funded, refunded, amount) {
        Ok(sums) => sums,
        Err(error) => {
            assert(refund_run(
                w,
                priced,
                Err(error),
                who,
                quest_id,
                ground,
                wanted,
                reply,
                now,
                reserved,
            ));
            return Err(error);
        },
    };
    let own = env.current_contract_address();
    token_transfer(env, &token, &own, authority, amount);
    keep(env, &DataKey::QuestPool(quest_id), &Value::Amount(sums.0));
    RewardsContract::record_refund(env, quest_id, sums.1, sums.2);
    emit_reward_refunded(env, quest_id, authority, amount);
    assert(refund_run(
        w,
        world(*env),
        Ok(amount),
        who,
        quest_id,
        ground,
        wanted,
        reply,
        now,
        reserved,
    ));
    Ok(amount)
}

/// When the pool of a quest can be refunded, given the reply of the quest
/// contract: never, where it gives no quest.
pub open spec fn refund_window_in(reply: Option<Datum>, grace_period: u64) -> (u64, u64) {
    match quest_in(reply) {
        Some(quest) => refund_window_of(quest.status, quest.archived_at, grace_period),
        None => (0, 0),
    }
}

/// Whether a refund window was found as it has to be, given the reply of the
/// quest contract. Nothing is asked where there is no quest contract to ask.
pub open spec fn refund_window_run(
    before: World,
    after: World,
    window: (u64, u64),
    quest_id: u32,
    reply: Option<Datum>,
) -> bool {
    if before.quest_contract() is Some && before.can_call(before.quest_contract()->0) {
        &&& window == refund_window_in(reply, before.grace_period())
        &&& after == before.ask_quest(before.quest_contract()->0, quest_id, reply)
    } else {
        window == (0u64, 0u64) && after == before
    }
}

impl RewardsContract {
    /// Refunds an amount from the pool of a quest to the authority over it.
    ///
    /// The quest must be cancelled, or archived for the grace period, and the
    /// rewards that are reserved and not yet paid stay in the pool.
    pub fn refund_pool(env: &mut Env, authority: Address, quest_id: u32, amount: i128) -> (result:
        Result<(), RewardsErrorEnum>)
        ensures
            exists|refunded: Result<i128, RewardsErrorEnum>, reply: Option<Datum>, now: u64, reserved:
                i128|
                {
                    &&& #[trigger] refund_run(
                        world(*old(env)),
                        world(*final(env)),
                        refunded,
                        address_text(authority),
                        quest_id,
                        RefundGround::Closing,
                        Some(amount),
                        reply,
                        now,
                        reserved,
                    )
                    &&& result == (match refunded {
                        Ok(_) => Ok::<(), RewardsErrorEnum>(()),
                        Err(error) => Err(error),
                    })
                },
    {
        match refund(env, &authority, quest_id, RefundGround::Closing, Some(amount)) {
            Ok(_) => Ok(()),
            Err(error) => Err(error),
        }
    }

    /// Counts a refund, in all and for the quest.
    fn record_refund(env: &mut Env, quest_id: u32, total_funded: i128, refunded: i128)
        ensures
            world(*final(env)) == world(*old(env)).record_refund(quest_id, total_funded, refunded),
    {
        configure(env, &DataKey::TotalFunded, &Value::Amount(total_funded));
        keep(env, &DataKey::QuestRefunded(quest_id), &Value::Amount(refunded));
    }

    /// Refunds all that can be refunded from the pool of a quest to the
    /// authority over it, and gives the amount, which is 0 where nothing is
    /// left.
    ///
    /// The quest must have been archived for the grace period.
    pub fn refund_unused_pool(env: &mut Env, authority: Address, quest_id: u32) -> (result: Result<
        i128,
        RewardsErrorEnum,
    >)
        ensures
            exists|reply: Option<Datum>, now: u64, reserved: i128| #[trigger]
                refund_run(
                    world(*old(env)),
                    world(*final(env)),
                    result,
                    address_text(authority),
                    quest_id,
                    RefundGround::Archiving,
                    None,
                    reply,
                    now,
                    reserved,
                ),
    {
        refund(env, &authority, quest_id, RefundGround::Archiving, None)
    }

    /// Refunds all that can be refunded from the pool of a quest whose deadline
    /// has passed, archived or not, and gives the amount, which is 0 where
    /// nothing is left.
    ///
    /// So the tokens of a quest that was left alone are not stuck. The grace
    /// period counts from the deadline.
    pub fn refund_expired_pool(env: &mut Env, authority: Address, quest_id: u32) -> (result: Result<
        i128,
        RewardsErrorEnum,
    >)
        ensures
            exists|reply: Option<Datum>, now: u64, reserved: i128| #[trigger]
                refund_run(
                    world(*old(env)),
                    world(*final(env)),
                    result,
                    address_text(authority),
                    quest_id,
                    RefundGround::Expiry,
                    None,
                    reply,
                    now,
                    reserved,
                ),
    {
        refund(env, &authority, quest_id, RefundGround::Expiry, None)
    }

    /// When the unused pool of a quest can be refunded: from the first time to
    /// the second, in ledger seconds.
    ///
    /// Both are 0 where the quest is not archived, or cannot be found. The
    /// window of an archived quest opens after the grace period, and it never
    /// closes.
    pub fn get_refund_window(env: &mut Env, quest_id: u32) -> (window: (u64, u64))
        ensures
            exists|reply: Option<Datum>| #[trigger]
                refund_window_run(
                    world(*old(env)),
                    world(*final(env)),
                    window,
                    quest_id,
                    reply,
                ),
    {
        let ghost w = world(*env);
        let quest_contract = match find_contract(env, &DataKey::QuestContractAddr) {
            Some(address) => address,
            None => {
                assert(refund_window_run(w, world(*env), (0, 0), quest_id, None));
                return (0, 0);
            },
        };
        let found = ask_quest(env, &quest_contract, quest_id);
        let ghost reply = world(*env).last_reply();
        let window = match found {
            Some(quest) => refund_window(
                quest.status,
                quest.archived_at,
                Self::get_refund_grace_period(env),
            ),
            None => (0, 0),
        };
        assert(refund_window_run(w, world(*env), window, quest_id, reply));
        window
    }

    /// All that was refunded for a quest.
    pub fn get_quest_refunded(env: &Env, quest_id: u32) -> (amount: i128)
        ensures
            amount == world(*env).refunded(quest_id),
    {
        persistent_amount(env, &DataKey::QuestRefunded(quest_id))
    }
}

} // verus!
