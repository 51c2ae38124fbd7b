//! What each operation is for: when it succeeds and why it is refused, whom it
//! asks what before it decides, and everything that it writes, moves and
//! publishes.

use vstd::prelude::*;

use crate::claims::{
    claim_amount, claim_asked, claim_checked, claim_item, claim_item_world, claim_outcome,
    claim_paid, claim_run, claim_total, ClaimReply,
};
use crate::common::{contract_address_text, Quest};
use crate::contract::{grace_period_run, initialize_run, initialized, pause_run, upgrade_run};
use crate::effects::{law_claim_effect, lemma_claim_checked};
use crate::errors::RewardsErrorEnum;
use crate::funding::{funding_asked, funding_claim, funding_run, funding_terms};
use crate::keys::{lemma_path_injective, Key};
use crate::model::{Datum, Step, World};
use crate::payouts::{payout_asked, payout_run, payout_terms};
use crate::quest::quest_in;
use crate::refunds::{refund_run, refund_window_run, RefundGround};

verus! {

/// A call of another contract, with its reply.
pub open spec fn asked_of(
    contract: Option<Seq<u8>>,
    function: Seq<char>,
    args: Seq<Datum>,
    reply: Option<Datum>,
) -> Step {
    Step::Called { contract: contract->0, function, args, reply }
}

/// A write to the persistent store.
pub open spec fn wrote(key: Key, value: Datum) -> Step {
    Step::PersistentSet { key: key.path(), value }
}

/// An extension of the lifetime of a persistent entry.
pub open spec fn extended(key: Key) -> Step {
    Step::PersistentExtended { key: key.path(), threshold: 120_960, extend_to: 518_400 }
}

/// A write to the instance store.
pub open spec fn configured(key: Key, value: Datum) -> Step {
    Step::InstanceSet { key: key.path(), value }
}

/// An event.
pub open spec fn published(topic: Seq<char>, data: Seq<Datum>) -> Step {
    Step::Published { topics: seq![Datum::Symbol(topic)], data }
}

// ---------------------------------------------------------------------------
// Funding
// ---------------------------------------------------------------------------

/// A funding succeeds whenever it may, and is refused for one reason otherwise:
/// the contract must not be paused, the amount must be from 1 to 10^15, the quest
/// contract must give the quest, the funder must be its owner, its token must be
/// the one that the contract pays and must answer, the pool must have no
/// authority or the funder, and the sums must fit.
pub proof fn law_funding_decision(
    before: World,
    after: World,
    result: Result<(), RewardsErrorEnum>,
    funder: Seq<u8>,
    quest_id: u32,
    amount: i128,
    reply: Option<Datum>,
    token_live: bool,
)
    requires
        funding_run(before, after, result, funder, quest_id, amount, reply, token_live),
    ensures
        ({
            let quest = quest_in(reply);
            let token = before.token();
            let admitted = !before.paused() && 1 <= amount <= 1_000_000_000_000_000;
            let found = admitted && before.quest_contract() is Some && before.can_call(
                before.quest_contract()->0,
            ) && quest is Some;
            let owned = found && quest->0.owner == funder;
            let named = owned && token is Some && token->0 == quest->0.token_addr;
            let live = named && before.can_call(token->0) && token_live;
            let own_pool = before.authority(quest_id) is None || before.authority(quest_id)->0
                == funder;
            let sums = before.pool(quest_id) + amount <= i128::MAX && before.total_funded() + amount
                <= i128::MAX && (before.authority(quest_id) is None ==> before.quest_count()
                < u32::MAX);
            &&& result is Ok <==> live && own_pool && sums
            &&& result == Err::<(), RewardsErrorEnum>(RewardsErrorEnum::Paused)
                <==> before.paused()
            &&& result == Err::<(), RewardsErrorEnum>(RewardsErrorEnum::InvalidAmount)
                <==> !before.paused() && !(1 <= amount <= 1_000_000_000_000_000)
            &&& result == Err::<(), RewardsErrorEnum>(RewardsErrorEnum::NotInitialized)
                <==> admitted && (before.quest_contract() is None || (owned && token is None))
            &&& result == Err::<(), RewardsErrorEnum>(RewardsErrorEnum::QuestLookupFailed)
                <==> admitted && before.quest_contract() is Some && !found
            &&& result == Err::<(), RewardsErrorEnum>(RewardsErrorEnum::Unauthorized) <==> (found
                && !owned) || (live && !own_pool)
            &&& result == Err::<(), RewardsErrorEnum>(RewardsErrorEnum::InvalidToken) <==> owned
                && token is Some && !live
            &&& result == Err::<(), RewardsErrorEnum>(RewardsErrorEnum::ArithmeticOverflow)
                <==> live && own_pool && !sums
        }),
{
}

/// Before it decides on a quest, a funding asks the quest contract for that very
/// quest, and before it decides on a token, it asks that token; what it decides
/// on are their answers. A refused funding does nothing else but announce the
/// call.
pub proof fn law_funding_asks(
    before: World,
    after: World,
    result: Result<(), RewardsErrorEnum>,
    funder: Seq<u8>,
    quest_id: u32,
    amount: i128,
    reply: Option<Datum>,
    token_live: bool,
)
    requires
        funding_run(before, after, result, funder, quest_id, amount, reply, token_live),
    ensures
        ({
            let quest = quest_in(reply);
            let admitted = !before.paused() && 1 <= amount <= 1_000_000_000_000_000
                && before.quest_contract() is Some && before.can_call(before.quest_contract()->0);
            let probed = admitted && quest is Some && quest->0.owner == funder && before.token()
                == Some(quest->0.token_addr) && before.can_call(before.token()->0);
            let asked = before.steps.push(Step::Authorized { who: funder }) + seq![
                published(
                    "cross_contract_call"@,
                    seq![
                        Datum::Account(before.own),
                        Datum::Account(before.quest_contract()->0),
                        Datum::Symbol("get_quest"@),
                        Datum::Text(Seq::empty()),
                    ],
                ),
                asked_of(
                    before.quest_contract(),
                    "get_quest"@,
                    seq![Datum::Count(quest_id)],
                    reply,
                ),
                published(
                    "cross_contract_return"@,
                    seq![
                        Datum::Account(before.own),
                        Datum::Account(before.quest_contract()->0),
                        Datum::Symbol("get_quest"@),
                        Datum::Flag(quest is Some),
                        Datum::Text(Seq::empty()),
                    ],
                ),
            ];
            let heard = asked.push(
                Step::TokenProbed { token: before.token()->0, answered: token_live },
            );
            &&& probed ==> heard.is_prefix_of(after.steps)
            &&& result is Err ==> after.steps == (if probed {
                heard
            } else if admitted {
                asked
            } else {
                before.steps.push(Step::Authorized { who: funder })
            })
        }),
{
    let quest_contract = before.quest_contract()->0;
    let quest = quest_in(reply);
    let authorized = before.steps.push(Step::Authorized { who: funder });
    let asked = authorized + seq![
        published(
            "cross_contract_call"@,
            seq![
                Datum::Account(before.own),
                Datum::Account(quest_contract),
                Datum::Symbol("get_quest"@),
                Datum::Text(Seq::empty()),
            ],
        ),
        asked_of(before.quest_contract(), "get_quest"@, seq![Datum::Count(quest_id)], reply),
        published(
            "cross_contract_return"@,
            seq![
                Datum::Account(before.own),
                Datum::Account(quest_contract),
                Datum::Symbol("get_quest"@),
                Datum::Flag(quest is Some),
                Datum::Text(Seq::empty()),
            ],
        ),
    ];
    assert(funding_asked(before, funder, quest_id, reply).steps =~= asked);
}

/// A funding that succeeds moves the amount from the funder to the contract,
/// credits it to the pool of the quest and to the total funded, makes the funder
/// the authority and counts the quest where it had none, announces it, and does
/// nothing else.
pub proof fn law_funding_does(
    before: World,
    after: World,
    funder: Seq<u8>,
    quest_id: u32,
    amount: i128,
    reply: Option<Datum>,
    token_live: bool,
)
    requires
        funding_run(before, after, Ok(()), funder, quest_id, amount, reply, token_live),
    ensures
        ({
            let first = before.authority(quest_id) is None;
            let start = before.steps.len() as int;
            let pool = Datum::Amount((before.pool(quest_id) + amount) as i128);
            let total = Datum::Amount((before.total_funded() + amount) as i128);
            let count = Datum::Count((before.quest_count() + 1) as u32);
            let moved = Step::Transferred {
                token: before.token()->0,
                from: funder,
                to: before.own,
                amount,
            };
            let announced = published(
                "reward_funded"@,
                seq![Datum::Count(quest_id), Datum::Account(funder), Datum::Amount(amount)],
            );
            &&& after.own == before.own
            &&& first ==> after.steps.skip(start + 5) == seq![
                wrote(Key::QuestAuthority(quest_id), Datum::Account(funder)),
                extended(Key::QuestAuthority(quest_id)),
                published(
                    "reward_authority_assigned"@,
                    seq![Datum::Count(quest_id), Datum::Account(funder)],
                ),
                moved,
                wrote(Key::QuestPool(quest_id), pool),
                extended(Key::QuestPool(quest_id)),
                configured(Key::TotalFunded, total),
                configured(Key::QuestCount, count),
                announced,
            ]
            &&& !first ==> after.steps.skip(start + 5) == seq![
                moved,
                wrote(Key::QuestPool(quest_id), pool),
                extended(Key::QuestPool(quest_id)),
                configured(Key::TotalFunded, total),
                announced,
            ]
            &&& first ==> after.persistent == before.persistent.insert(
                Key::QuestAuthority(quest_id).path(),
                Datum::Account(funder),
            ).insert(Key::QuestPool(quest_id).path(), pool)
            &&& !first ==> after.persistent == before.persistent.insert(
                Key::QuestPool(quest_id).path(),
                pool,
            )
            &&& first ==> after.instance == before.instance.insert(
                Key::TotalFunded.path(),
                total,
            ).insert(Key::QuestCount.path(), count)
            &&& !first ==> after.instance == before.instance.insert(Key::TotalFunded.path(), total)
        }),
{
}

/// A quest can be funded by its owner, whoever that is, where it names the token
/// that the contract pays; and a pool can take it where the token is live and
/// nobody else controls the pool.
pub proof fn law_funding_terms(
    quest: Option<Quest>,
    funder: Seq<u8>,
    token: Option<Seq<u8>>,
    token_live: bool,
    authority: Option<Seq<u8>>,
)
    ensures
        funding_terms(quest, funder, token) is Ok <==> quest is Some && quest->0.owner == funder
            && token == Some(quest->0.token_addr),
        funding_terms(quest, funder, token) == Err::<(), RewardsErrorEnum>(
            RewardsErrorEnum::QuestLookupFailed,
        ) <==> quest is None,
        funding_terms(quest, funder, token) == Err::<(), RewardsErrorEnum>(
            RewardsErrorEnum::Unauthorized,
        ) <==> quest is Some && quest->0.owner != funder,
        funding_terms(quest, funder, token) == Err::<(), RewardsErrorEnum>(
            RewardsErrorEnum::NotInitialized,
        ) <==> quest is Some && quest->0.owner == funder && token is None,
        funding_terms(quest, funder, token) == Err::<(), RewardsErrorEnum>(
            RewardsErrorEnum::InvalidToken,
        ) <==> quest is Some && quest->0.owner == funder && token is Some && token->0
            != quest->0.token_addr,
        funding_claim(token_live, authority, funder) is Ok <==> token_live && (authority is None
            || authority->0 == funder),
        funding_claim(token_live, authority, funder) == Err::<(), RewardsErrorEnum>(
            RewardsErrorEnum::InvalidToken,
        ) <==> !token_live,
        funding_claim(token_live, authority, funder) == Err::<(), RewardsErrorEnum>(
            RewardsErrorEnum::Unauthorized,
        ) <==> token_live && authority is Some && authority->0 != funder,
{
}

// ---------------------------------------------------------------------------
// Payouts
// ---------------------------------------------------------------------------

/// An amount can be paid for a completed milestone where it is what was promised,
/// if anything was, the pool holds it, and the token can be called.
pub proof fn law_payout_terms(
    promised: Option<i128>,
    amount: i128,
    pool: i128,
    token: Option<Seq<u8>>,
    own: Seq<u8>,
)
    ensures
        ({
            let terms = payout_terms(promised, amount, pool, token, own);
            let agreed = promised is None || promised->0 <= 0 || promised->0 == amount;
            let held = agreed && amount <= pool;
            let called = token is Some && contract_address_text(token->0) && token->0 != own;
            &&& terms is Ok <==> held && called
            &&& terms == Err::<(), RewardsErrorEnum>(RewardsErrorEnum::RewardAmountMismatch)
                <==> !agreed
            &&& terms == Err::<(), RewardsErrorEnum>(RewardsErrorEnum::InsufficientPool)
                <==> agreed && !held
            &&& terms == Err::<(), RewardsErrorEnum>(RewardsErrorEnum::NotInitialized) <==> held
                && token is None
            &&& terms == Err::<(), RewardsErrorEnum>(RewardsErrorEnum::InvalidToken) <==> held
                && token is Some && !called
        }),
{
}

/// A payout succeeds whenever it may, and is refused for one reason otherwise:
/// the contract must not be paused, the amount must be from 1 to 10^15, no payout
/// must be on record, the caller must be the authority and not the enrollee, the
/// milestone must be completed, the amount must be what it promises where it
/// promises something, the pool must hold it, and the sums must fit.
pub proof fn law_payout_decision(
    before: World,
    after: World,
    result: Result<(), RewardsErrorEnum>,
    caller: Seq<u8>,
    quest_id: u32,
    milestone_id: u32,
    enrollee: Seq<u8>,
    amount: i128,
    completed: bool,
    reply: Option<Datum>,
)
    requires
        payout_run(
            before,
            after,
            result,
            caller,
            quest_id,
            milestone_id,
            enrollee,
            amount,
            completed,
            reply,
        ),
    ensures
        ({
            let token = before.token();
            let in_range = 1 <= amount <= 1_000_000_000_000_000;
            let unpaid = !before.paused() && in_range && !before.paid(
                quest_id,
                milestone_id,
                enrollee,
            );
            let funded = unpaid && before.authority(quest_id) is Some;
            let ordered = funded && before.authority(quest_id)->0 == caller && caller != enrollee;
            let known = ordered && before.milestone_contract() is Some;
            let admitted = known && before.quest_contract() is Some && before.can_call(
                before.milestone_contract()->0,
            );
            let agreed = match reply {
                Some(Datum::Amount(promised)) => promised <= 0 || amount == promised,
                _ => true,
            };
            let priced = admitted && completed && agreed;
            let held = priced && amount <= before.pool(quest_id);
            let payable = held && token is Some && before.can_call(token->0);
            let sums = before.earnings(enrollee) + amount <= i128::MAX
                && before.total_distributed() + amount <= i128::MAX && before.distributed(quest_id)
                + amount <= i128::MAX;
            &&& result is Ok <==> payable && sums
            &&& result == Err::<(), RewardsErrorEnum>(RewardsErrorEnum::Paused)
                <==> before.paused()
            &&& result == Err::<(), RewardsErrorEnum>(RewardsErrorEnum::InvalidAmount)
                <==> !before.paused() && !in_range
            &&& result == Err::<(), RewardsErrorEnum>(RewardsErrorEnum::AlreadyPaid)
                <==> !before.paused() && in_range && !unpaid
            &&& result == Err::<(), RewardsErrorEnum>(RewardsErrorEnum::QuestNotFunded) <==> unpaid
                && !funded
            &&& result == Err::<(), RewardsErrorEnum>(RewardsErrorEnum::Unauthorized) <==> funded
                && !ordered
            &&& result == Err::<(), RewardsErrorEnum>(
                RewardsErrorEnum::MilestoneContractNotInitialized,
            ) <==> ordered && (!known || (before.quest_contract() is Some && !admitted))
            &&& result == Err::<(), RewardsErrorEnum>(
                RewardsErrorEnum::QuestContractNotInitialized,
            ) <==> known && before.quest_contract() is None
            &&& result == Err::<(), RewardsErrorEnum>(RewardsErrorEnum::MilestoneNotCompleted)
                <==> admitted && !completed
            &&& result == Err::<(), RewardsErrorEnum>(RewardsErrorEnum::RewardAmountMismatch)
                <==> admitted && completed && !agreed
            &&& result == Err::<(), RewardsErrorEnum>(RewardsErrorEnum::InsufficientPool)
                <==> priced && !held
            &&& result == Err::<(), RewardsErrorEnum>(RewardsErrorEnum::NotInitialized) <==> held
                && token is None
            &&& result == Err::<(), RewardsErrorEnum>(RewardsErrorEnum::InvalidToken) <==> held
                && token is Some && !payable
            &&& result == Err::<(), RewardsErrorEnum>(RewardsErrorEnum::ArithmeticOverflow)
                <==> payable && !sums
        }),
{
}

/// Before it decides on a milestone, a payout asks the milestone contract whether
/// the enrollee completed that very milestone of that very quest, and then what
/// that milestone promises; what it decides on are the answers. A refused payout
/// does nothing else but announce the call.
pub proof fn law_payout_asks(
    before: World,
    after: World,
    result: Result<(), RewardsErrorEnum>,
    caller: Seq<u8>,
    quest_id: u32,
    milestone_id: u32,
    enrollee: Seq<u8>,
    amount: i128,
    completed: bool,
    reply: Option<Datum>,
)
    requires
        payout_run(
            before,
            after,
            result,
            caller,
            quest_id,
            milestone_id,
            enrollee,
            amount,
            completed,
            reply,
        ),
    ensures
        ({
            let milestone_contract = before.milestone_contract();
            let admitted = !before.paused() && 1 <= amount <= 1_000_000_000_000_000 && !before.paid(
                quest_id,
                milestone_id,
                enrollee,
            ) && before.authority(quest_id) == Some(caller) && caller != enrollee
                && milestone_contract is Some && before.quest_contract() is Some
                && before.can_call(milestone_contract->0);
            let asked = before.steps.push(Step::Authorized { who: caller }) + seq![
                published(
                    "cross_contract_call"@,
                    seq![
                        Datum::Account(before.own),
                        Datum::Account(milestone_contract->0),
                        Datum::Symbol("is_completed"@),
                        Datum::Text(Seq::empty()),
                    ],
                ),
                asked_of(
                    milestone_contract,
                    "is_completed"@,
                    seq![
                        Datum::Count(quest_id),
                        Datum::Count(milestone_id),
                        Datum::Account(enrollee),
                    ],
                    Some(Datum::Flag(completed)),
                ),
                published(
                    "cross_contract_return"@,
                    seq![
                        Datum::Account(before.own),
                        Datum::Account(milestone_contract->0),
                        Datum::Symbol("is_completed"@),
                        Datum::Flag(completed),
                        Datum::Text(Seq::empty()),
                    ],
                ),
            ];
            let priced = asked.push(
                asked_of(
                    milestone_contract,
                    "get_milestone_reward"@,
                    seq![Datum::Count(quest_id), Datum::Count(milestone_id)],
                    reply,
                ),
            );
            &&& admitted && completed ==> priced.is_prefix_of(after.steps)
            &&& result is Err ==> after.steps == (if admitted && completed {
                priced
            } else if admitted {
                asked
            } else {
                before.steps.push(Step::Authorized { who: caller })
            })
        }),
{
    let milestone_contract = before.milestone_contract();
    let asked = before.steps.push(Step::Authorized { who: caller }) + seq![
        published(
            "cross_contract_call"@,
            seq![
                Datum::Account(before.own),
                Datum::Account(milestone_contract->0),
                Datum::Symbol("is_completed"@),
                Datum::Text(Seq::empty()),
            ],
        ),
        asked_of(
            milestone_contract,
            "is_completed"@,
            seq![Datum::Count(quest_id), Datum::Count(milestone_id), Datum::Account(enrollee)],
            Some(Datum::Flag(completed)),
        ),
        published(
            "cross_contract_return"@,
            seq![
                Datum::Account(before.own),
                Datum::Account(milestone_contract->0),
                Datum::Symbol("is_completed"@),
                Datum::Flag(completed),
                Datum::Text(Seq::empty()),
            ],
        ),
    ];
    assert(payout_asked(
        before,
        caller,
        quest_id,
        milestone_id,
        enrollee,
        completed,
    ).steps =~= asked);
}

/// A payout that succeeds goes on record, takes the amount from the pool of the
/// quest, moves it from the contract to the enrollee, adds it to what the
/// enrollee earned and to what was distributed in all and for the quest,
/// announces it, and does nothing else.
pub proof fn law_payout_does(
    before: World,
    after: World,
    caller: Seq<u8>,
    quest_id: u32,
    milestone_id: u32,
    enrollee: Seq<u8>,
    amount: i128,
    completed: bool,
    reply: Option<Datum>,
)
    requires
        payout_run(
            before,
            after,
            Ok(()),
            caller,
            quest_id,
            milestone_id,
            enrollee,
            amount,
            completed,
            reply,
        ),
    ensures
        ({
            let start = before.steps.len() as int;
            let record = Key::PayoutRecord(quest_id, milestone_id, enrollee);
            let pool = Datum::Amount((before.pool(quest_id) - amount) as i128);
            let earned = Datum::Amount((before.earnings(enrollee) + amount) as i128);
            let total = Datum::Amount((before.total_distributed() + amount) as i128);
            let for_quest = Datum::Amount((before.distributed(quest_id) + amount) as i128);
            &&& after.own == before.own
            &&& after.steps.skip(start + 5) == seq![
                wrote(record, Datum::Amount(amount)),
                extended(record),
                wrote(Key::QuestPool(quest_id), pool),
                extended(Key::QuestPool(quest_id)),
                Step::Transferred {
                    token: before.token()->0,
                    from: before.own,
                    to: enrollee,
                    amount,
                },
                wrote(Key::UserEarnings(enrollee), earned),
                extended(Key::UserEarnings(enrollee)),
                configured(Key::TotalDistributed, total),
                wrote(Key::QuestDistributed(quest_id), for_quest),
                extended(Key::QuestDistributed(quest_id)),
                Step::InstanceExtended { threshold: 120_960, extend_to: 518_400 },
                published(
                    "reward_distributed"@,
                    seq![
                        Datum::Count(quest_id),
                        Datum::Count(milestone_id),
                        Datum::Account(enrollee),
                        Datum::Amount(amount),
                    ],
                ),
            ]
            &&& after.persistent == before.persistent.insert(
                record.path(),
                Datum::Amount(amount),
            ).insert(Key::QuestPool(quest_id).path(), pool).insert(
                Key::UserEarnings(enrollee).path(),
                earned,
            ).insert(Key::QuestDistributed(quest_id).path(), for_quest)
            &&& after.instance == before.instance.insert(Key::TotalDistributed.path(), total)
        }),
{
}

// ---------------------------------------------------------------------------
// Refunds
// ---------------------------------------------------------------------------

/// A refund succeeds whenever it may, and is refused for one reason otherwise:
/// the contract must not be paused, an amount that is wanted must be from 1 to
/// 10^15, the authority must be the one over the pool, the quest contract must
/// give the quest, and the time must have come. An amount that is wanted must
/// leave in the pool what is reserved beyond what was distributed; where none is
/// wanted, all but that is refunded.
pub proof fn law_refund_decision(
    before: World,
    after: World,
    result: Result<i128, RewardsErrorEnum>,
    authority: Seq<u8>,
    quest_id: u32,
    ground: RefundGround,
    wanted: Option<i128>,
    reply: Option<Datum>,
    now: u64,
    reserved: i128,
)
    requires
        refund_run(
            before,
            after,
            result,
            authority,
            quest_id,
            ground,
            wanted,
            reply,
            now,
            reserved,
        ),
    ensures
        ({
            let quest = quest_in(reply);
            let token = before.token();
            let grace = before.grace_period();
            let in_range = wanted is None || 1 <= wanted->0 <= 1_000_000_000_000_000;
            let funded = !before.paused() && in_range && before.authority(quest_id) is Some;
            let ordered = funded && before.authority(quest_id)->0 == authority;
            let found = ordered && before.quest_contract() is Some && before.can_call(
                before.quest_contract()->0,
            ) && quest is Some;
            let ended = found && match ground {
                RefundGround::Closing => !(quest->0.status is Active),
                RefundGround::Archiving => quest->0.status is Archived,
                RefundGround::Expiry => quest->0.deadline != 0 && now > quest->0.deadline,
            };
            let open = ended && match ground {
                RefundGround::Closing => quest->0.status is Cancelled || now
                    >= quest->0.archived_at + grace,
                RefundGround::Archiving => now >= quest->0.archived_at + grace,
                RefundGround::Expiry => now >= quest->0.deadline + grace,
            };
            let known = open && before.milestone_contract() is Some && before.can_call(
                before.milestone_contract()->0,
            );
            let owed = reserved - before.distributed(quest_id);
            let left = before.pool(quest_id) - (if owed > 0 {
                owed
            } else {
                0
            });
            let counted = known && i128::MIN <= owed <= i128::MAX && i128::MIN <= left;
            let amount = if wanted is Some {
                wanted->0 as int
            } else if left > 0 {
                left
            } else {
                0
            };
            let covered = counted && (wanted is None || amount <= left);
            let payable = covered && token is Some && before.can_call(token->0);
            let sums = before.pool(quest_id) - amount >= i128::MIN && before.refunded(quest_id)
                + amount <= i128::MAX;
            &&& result is Ok <==> covered && (amount == 0 || (payable && sums))
            &&& result is Ok ==> result->Ok_0 == amount
            &&& result == Err::<i128, RewardsErrorEnum>(RewardsErrorEnum::Paused)
                <==> before.paused()
            &&& result == Err::<i128, RewardsErrorEnum>(RewardsErrorEnum::InvalidAmount)
                <==> !before.paused() && !in_range
            &&& result == Err::<i128, RewardsErrorEnum>(RewardsErrorEnum::QuestNotFunded)
                <==> !before.paused() && in_range && !funded
            &&& result == Err::<i128, RewardsErrorEnum>(RewardsErrorEnum::Unauthorized)
                <==> funded && !ordered
            &&& result == Err::<i128, RewardsErrorEnum>(RewardsErrorEnum::QuestLookupFailed)
                <==> ordered && before.quest_contract() is Some && !found
            &&& result == Err::<i128, RewardsErrorEnum>(RewardsErrorEnum::QuestNotArchived)
                <==> found && !ended && !(ground is Expiry)
            &&& result == Err::<i128, RewardsErrorEnum>(RewardsErrorEnum::QuestNotExpired)
                <==> found && !ended && ground is Expiry
            &&& result == Err::<i128, RewardsErrorEnum>(RewardsErrorEnum::RefundWindowNotOpen)
                <==> ended && !open
            &&& result == Err::<i128, RewardsErrorEnum>(RewardsErrorEnum::NotInitialized) <==> (
            ordered && before.quest_contract() is None) || (open && !known) || (covered && amount
                != 0 && token is None)
            &&& result == Err::<i128, RewardsErrorEnum>(RewardsErrorEnum::InsufficientPool)
                <==> counted && !covered
            &&& result == Err::<i128, RewardsErrorEnum>(RewardsErrorEnum::InvalidToken)
                <==> covered && amount != 0 && token is Some && !payable
            &&& result == Err::<i128, RewardsErrorEnum>(RewardsErrorEnum::ArithmeticOverflow)
                <==> (known && !counted) || (payable && amount != 0 && !sums)
        }),
{
}

/// Whether it takes the time to tell if a quest can be refunded.
pub open spec fn takes_time(ground: RefundGround, reply: Option<Datum>) -> bool {
    quest_in(reply) is Some && match ground {
        RefundGround::Expiry => quest_in(reply)->0.deadline != 0,
        _ => quest_in(reply)->0.status is Archived,
    }
}

/// Before it decides on a quest, a refund asks the quest contract for that very
/// quest, reads the clock where it takes the time to tell, and asks the milestone
/// contract what is reserved for that very quest; what it decides on are the
/// answers. A refund that is refused, or for which nothing is left, does nothing
/// else.
pub proof fn law_refund_asks(
    before: World,
    after: World,
    result: Result<i128, RewardsErrorEnum>,
    authority: Seq<u8>,
    quest_id: u32,
    ground: RefundGround,
    wanted: Option<i128>,
    reply: Option<Datum>,
    now: u64,
    reserved: i128,
)
    requires
        refund_run(
            before,
            after,
            result,
            authority,
            quest_id,
            ground,
            wanted,
            reply,
            now,
            reserved,
        ),
    ensures
        ({
            let quest = quest_in(reply);
            let grace = before.grace_period();
            let admitted = !before.paused() && (wanted is None || 1 <= wanted->0
                <= 1_000_000_000_000_000) && before.authority(quest_id) == Some(authority)
                && before.quest_contract() is Some && before.can_call(before.quest_contract()->0);
            let open = admitted && quest is Some && match ground {
                RefundGround::Closing => quest->0.status is Cancelled || (quest->0.status
                    is Archived && now >= quest->0.archived_at + grace),
                RefundGround::Archiving => quest->0.status is Archived && now
                    >= quest->0.archived_at + grace,
                RefundGround::Expiry => quest->0.deadline != 0 && now > quest->0.deadline && now
                    >= quest->0.deadline + grace,
            };
            let known = open && before.milestone_contract() is Some && before.can_call(
                before.milestone_contract()->0,
            );
            let authorized = before.steps.push(Step::Authorized { who: authority });
            let looked_up = authorized.push(
                asked_of(
                    before.quest_contract(),
                    "get_quest"@,
                    seq![Datum::Count(quest_id)],
                    reply,
                ),
            );
            let timed = if takes_time(ground, reply) {
                looked_up.push(Step::ClockRead { now })
            } else {
                looked_up
            };
            let priced = timed.push(
                asked_of(
                    before.milestone_contract(),
                    "get_total_reserved_reward"@,
                    seq![Datum::Count(quest_id)],
                    Some(Datum::Amount(reserved)),
                ),
            );
            &&& known ==> priced.is_prefix_of(after.steps)
            &&& result is Err || result->Ok_0 == 0 ==> after.steps == (if known {
                priced
            } else if admitted {
                timed
            } else {
                authorized
            })
            &&& result is Ok && result->Ok_0 == 0 ==> after == (World {
                steps: after.steps,
                ..before
            })
        }),
{
}

/// A refund of an amount moves it from the contract to the authority, takes it
/// from the pool of the quest and from the total funded, which stops at 0, adds
/// it to what was refunded for the quest, announces it, and does nothing else.
pub proof fn law_refund_does(
    before: World,
    after: World,
    amount: i128,
    authority: Seq<u8>,
    quest_id: u32,
    ground: RefundGround,
    wanted: Option<i128>,
    reply: Option<Datum>,
    now: u64,
    reserved: i128,
)
    requires
        refund_run(
            before,
            after,
            Ok(amount),
            authority,
            quest_id,
            ground,
            wanted,
            reply,
            now,
            reserved,
        ),
        amount != 0,
    ensures
        ({
            let start = before.steps.len() + 3 + (if takes_time(ground, reply) {
                1int
            } else {
                0
            });
            let pool = Datum::Amount((before.pool(quest_id) - amount) as i128);
            let total = Datum::Amount(
                if before.total_funded() > amount {
                    (before.total_funded() - amount) as i128
                } else {
                    0
                },
            );
            let refunded = Datum::Amount((before.refunded(quest_id) + amount) as i128);
            &&& after.own == before.own
            &&& after.steps.skip(start) == seq![
                Step::Transferred {
                    token: before.token()->0,
                    from: before.own,
                    to: authority,
                    amount,
                },
                wrote(Key::QuestPool(quest_id), pool),
                extended(Key::QuestPool(quest_id)),
                configured(Key::TotalFunded, total),
                wrote(Key::QuestRefunded(quest_id), refunded),
                extended(Key::QuestRefunded(quest_id)),
                published(
                    "reward_refunded"@,
                    seq![Datum::Count(quest_id), Datum::Account(authority), Datum::Amount(amount)],
                ),
            ]
            &&& after.persistent == before.persistent.insert(
                Key::QuestPool(quest_id).path(),
                pool,
            ).insert(Key::QuestRefunded(quest_id).path(), refunded)
            &&& after.instance == before.instance.insert(Key::TotalFunded.path(), total)
        }),
{
}

/// The refund window is found from what the quest contract answers about that
/// very quest: from the end of the grace period after its archiving to the end of
/// time, or none. Nothing else is done.
pub proof fn law_refund_window_found(
    before: World,
    after: World,
    window: (u64, u64),
    quest_id: u32,
    reply: Option<Datum>,
)
    requires
        refund_window_run(before, after, window, quest_id, reply),
    ensures
        ({
            let quest = quest_in(reply);
            let asked = before.quest_contract() is Some && before.can_call(
                before.quest_contract()->0,
            );
            let archived = asked && quest is Some && quest->0.status is Archived;
            let opening = quest->0.archived_at + before.grace_period();
            &&& asked ==> after == before.note(
                asked_of(
                    before.quest_contract(),
                    "get_quest"@,
                    seq![Datum::Count(quest_id)],
                    reply,
                ),
            )
            &&& !asked ==> after == before
            &&& !archived ==> window == (0u64, 0u64)
            &&& archived ==> window.1 == u64::MAX
            &&& archived ==> window.0 == (if opening <= u64::MAX {
                opening
            } else {
                u64::MAX as int
            })
        }),
{
}

// ---------------------------------------------------------------------------
// Settings
// ---------------------------------------------------------------------------

/// A contract that was not set up before is set up with what is given, the grace
/// period of seven days, nothing distributed and not paused; and one that was is
/// left as it is. Either way, the administrator that is given must authorise it.
pub proof fn law_initialize_does(
    before: World,
    after: World,
    result: Result<(), RewardsErrorEnum>,
    admin: Seq<u8>,
    token: Seq<u8>,
    quest_contract: Seq<u8>,
    milestone_contract: Seq<u8>,
)
    requires
        initialize_run(before, after, result, admin, token, quest_contract, milestone_contract),
    ensures
        result is Ok <==> !initialized(before),
        result is Err ==> result->Err_0 == RewardsErrorEnum::AlreadyInitialized,
        result is Err ==> after == before.note(Step::Authorized { who: admin }),
        result is Ok ==> {
            &&& after.own == before.own
            &&& after.persistent == before.persistent
            &&& after.instance == before.instance.insert(
                Key::Admin.path(),
                Datum::Account(admin),
            ).insert(Key::TokenAddr.path(), Datum::Account(token)).insert(
                Key::QuestContractAddr.path(),
                Datum::Account(quest_contract),
            ).insert(
                Key::MilestoneContractAddr.path(),
                Datum::Account(milestone_contract),
            ).insert(Key::TotalDistributed.path(), Datum::Amount(0)).insert(
                Key::RefundGracePeriod.path(),
                Datum::Time(604_800),
            ).insert(Key::Paused.path(), Datum::Flag(false))
            &&& after.steps == before.steps + seq![
                Step::Authorized { who: admin },
                configured(Key::Admin, Datum::Account(admin)),
                configured(Key::TokenAddr, Datum::Account(token)),
                configured(Key::QuestContractAddr, Datum::Account(quest_contract)),
                configured(Key::MilestoneContractAddr, Datum::Account(milestone_contract)),
                configured(Key::TotalDistributed, Datum::Amount(0)),
                configured(Key::RefundGracePeriod, Datum::Time(604_800)),
                configured(Key::Paused, Datum::Flag(false)),
                Step::InstanceExtended { threshold: 120_960, extend_to: 518_400 },
            ]
        },
{
}

/// Whether only the administrator gets through, and why nobody else does.
pub open spec fn admin_only(
    before: World,
    result: Result<(), RewardsErrorEnum>,
    who: Seq<u8>,
) -> bool {
    &&& result is Ok <==> before.admin() == Some(who)
    &&& result is Err ==> result->Err_0 == (if before.admin() is None {
        RewardsErrorEnum::NotInitialized
    } else {
        RewardsErrorEnum::Unauthorized
    })
}

/// The administrator, and nobody else, replaces the code by the one given, and
/// does nothing else with it.
pub proof fn law_upgrade_does(
    before: World,
    after: World,
    result: Result<(), RewardsErrorEnum>,
    admin: Seq<u8>,
    hash: Seq<u8>,
)
    requires
        upgrade_run(before, after, result, admin, hash),
    ensures
        admin_only(before, result, admin),
        result is Err ==> after == before.note(Step::Authorized { who: admin }),
        result is Ok ==> after == before.note(Step::Authorized { who: admin }).note(
            Step::CodeReplaced { hash },
        ),
{
}

/// The administrator, and nobody else, pauses and unpauses the contract, paused
/// or not, and changes nothing else with it.
pub proof fn law_pause_does(
    before: World,
    after: World,
    result: Result<(), RewardsErrorEnum>,
    admin: Seq<u8>,
    paused: bool,
)
    requires
        pause_run(before, after, result, admin, paused),
    ensures
        admin_only(before, result, admin),
        result is Err ==> after == before.note(Step::Authorized { who: admin }),
        result is Ok ==> after == (World {
            instance: before.instance.insert(Key::Paused.path(), Datum::Flag(paused)),
            steps: before.steps + seq![
                Step::Authorized { who: admin },
                configured(Key::Paused, Datum::Flag(paused)),
                Step::InstanceExtended { threshold: 120_960, extend_to: 518_400 },
            ],
            ..before
        }),
{
    let steps = before.steps + seq![
        Step::Authorized { who: admin },
        configured(Key::Paused, Datum::Flag(paused)),
        Step::InstanceExtended { threshold: 120_960, extend_to: 518_400 },
    ];
    if result is Ok {
        assert(after.steps =~= steps);
    }
}

/// The administrator, and nobody else, sets a grace period from one day to one
/// year while the contract is not paused, and changes nothing else with it.
pub proof fn law_grace_period_does(
    before: World,
    after: World,
    result: Result<(), RewardsErrorEnum>,
    admin: Seq<u8>,
    seconds: u64,
)
    requires
        grace_period_run(before, after, result, admin, seconds),
    ensures
        result is Ok <==> !before.paused() && before.admin() == Some(admin) && 86_400 <= seconds
            <= 31_536_000,
        result == Err::<(), RewardsErrorEnum>(RewardsErrorEnum::Paused) <==> before.paused(),
        result == Err::<(), RewardsErrorEnum>(RewardsErrorEnum::NotInitialized)
            <==> !before.paused() && before.admin() is None,
        result == Err::<(), RewardsErrorEnum>(RewardsErrorEnum::Unauthorized)
            <==> !before.paused() && before.admin() is Some && before.admin()->0 != admin,
        result == Err::<(), RewardsErrorEnum>(RewardsErrorEnum::InvalidInput)
            <==> !before.paused() && before.admin() == Some(admin) && !(86_400 <= seconds
            <= 31_536_000),
        result is Err ==> after == before.note(Step::Authorized { who: admin }),
        result is Ok ==> after == (World {
            instance: before.instance.insert(Key::RefundGracePeriod.path(), Datum::Time(seconds)),
            steps: before.steps + seq![
                Step::Authorized { who: admin },
                configured(Key::RefundGracePeriod, Datum::Time(seconds)),
                Step::InstanceExtended { threshold: 120_960, extend_to: 518_400 },
            ],
            ..before
        }),
{
    let steps = before.steps + seq![
        Step::Authorized { who: admin },
        configured(Key::RefundGracePeriod, Datum::Time(seconds)),
        Step::InstanceExtended { threshold: 120_960, extend_to: 518_400 },
    ];
    if result is Ok {
        assert(after.steps =~= steps);
    }
}

// ---------------------------------------------------------------------------
// Claims
// ---------------------------------------------------------------------------

/// Whether a milestone of a claim is due, given the answers about it: it is a
/// number that was not named before, the claimant is active or inactive and
/// completed it, it was not paid, and it promises from 1 to 10^15.
pub open spec fn due(
    w: World,
    claimant: Seq<u8>,
    quest_id: u32,
    ids: Seq<Datum>,
    replies: Seq<ClaimReply>,
    index: int,
) -> bool {
    &&& ids[index] is Count
    &&& forall|earlier: int| 0 <= earlier < index ==> ids[earlier] != ids[index]
    &&& replies[index].standing == 0 || replies[index].standing == 2
    &&& replies[index].completed
    &&& !w.paid(quest_id, ids[index]->Count_0, claimant)
    &&& replies[index].reward is Some
    &&& replies[index].reward->0 is Amount
    &&& 1 <= replies[index].reward->0->Amount_0 <= 1_000_000_000_000_000
}

/// Whether a claim gets as far as asking for its milestones.
pub open spec fn claim_admitted(w: World, quest_id: u32, ids: Seq<Datum>) -> bool {
    &&& !w.paused()
    &&& 1 <= ids.len() <= 20
    &&& w.authority(quest_id) is Some
    &&& w.milestone_contract() is Some
    &&& w.quest_contract() is Some
    &&& w.token() is Some
}

/// Whether both contracts that a claim asks can be called.
pub open spec fn claim_reachable(w: World) -> bool {
    w.can_call(w.quest_contract()->0) && w.can_call(w.milestone_contract()->0)
}

/// A milestone is admitted exactly where it is due and the contracts can be
/// asked about it, and then for what it promises.
proof fn lemma_item_is_due(
    w: World,
    claimant: Seq<u8>,
    quest_id: u32,
    ids: Seq<Datum>,
    replies: Seq<ClaimReply>,
    index: int,
)
    requires
        0 <= index < ids.len(),
    ensures
        claim_item(w, claimant, quest_id, ids, index, replies[index]) is Ok <==> due(
            w,
            claimant,
            quest_id,
            ids,
            replies,
            index,
        ) && claim_reachable(w),
        due(w, claimant, quest_id, ids, replies, index) ==> claim_amount(replies, index)
            == replies[index].reward->0->Amount_0,
{
    if ids.take(index).contains(ids[index]) {
        let earlier = choose|j: int| 0 <= j < index && ids.take(index)[j] == ids[index];
        assert(ids[earlier] == ids[index]);
    } else {
        assert forall|earlier: int| 0 <= earlier < index implies ids[earlier] != ids[index] by {
            assert(ids.take(index)[earlier] == ids[earlier]);
        }
    }
}

/// The first milestones are admitted exactly where each is due and the contracts
/// can be asked about them.
proof fn lemma_checked_is_due(
    w: World,
    claimant: Seq<u8>,
    quest_id: u32,
    ids: Seq<Datum>,
    replies: Seq<ClaimReply>,
    count: nat,
)
    requires
        count <= ids.len(),
    ensures
        claim_checked(w, claimant, quest_id, ids, replies, count) is Ok <==> (count > 0
            ==> claim_reachable(w)) && forall|i: int|
            0 <= i < count ==> #[trigger] due(w, claimant, quest_id, ids, replies, i),
    decreases count,
{
    if count > 0 {
        let previous = (count - 1) as nat;
        lemma_checked_is_due(w, claimant, quest_id, ids, replies, previous);
        lemma_item_is_due(w, claimant, quest_id, ids, replies, count - 1);
        if claim_checked(w, claimant, quest_id, ids, replies, count) is Ok {
            assert forall|i: int| 0 <= i < count implies #[trigger] due(
                w,
                claimant,
                quest_id,
                ids,
                replies,
                i,
            ) by {
                lemma_claim_checked(w, claimant, quest_id, ids, replies, count, i);
                lemma_item_is_due(w, claimant, quest_id, ids, replies, i);
            }
        } else if claim_reachable(w) && (forall|i: int|
            0 <= i < count ==> #[trigger] due(w, claimant, quest_id, ids, replies, i)) {
            assert(due(w, claimant, quest_id, ids, replies, count - 1));
            assert forall|i: int| 0 <= i < previous implies #[trigger] due(
                w,
                claimant,
                quest_id,
                ids,
                replies,
                i,
            ) by {}
        }
    }
}

/// What a claim comes to is the sum of what its milestones promise.
pub proof fn law_claim_total_is_sum(replies: Seq<ClaimReply>, count: nat)
    requires
        forall|i: int|
            0 <= i < count ==> (#[trigger] replies[i]).reward is Some && replies[i].reward->0
                is Amount,
    ensures
        claim_total(replies, count) == Seq::new(
            count,
            |i: int| replies[i].reward->0->Amount_0 as int,
        ).fold_left(0int, |sum: int, amount: int| sum + amount),
    decreases count,
{
    let promised = |i: int| replies[i].reward->0->Amount_0 as int;
    let all = Seq::new(count, promised);
    if count > 0 {
        let previous = (count - 1) as nat;
        law_claim_total_is_sum(replies, previous);
        assert(all.drop_last() =~= Seq::new(previous, promised));
        assert(replies[count - 1].reward is Some);
        reveal_with_fuel(Seq::fold_left, 2);
    }
}

/// A claim succeeds whenever it may: it must be admitted, every milestone must be
/// due, the pool must hold the sum, and the sums must fit. Where every milestone
/// is due, it is refused for one reason otherwise.
pub proof fn law_claim_decision(
    before: World,
    after: World,
    result: Result<i128, RewardsErrorEnum>,
    claimant: Seq<u8>,
    quest_id: u32,
    ids: Seq<Datum>,
    replies: Seq<ClaimReply>,
)
    requires
        claim_run(before, after, result, claimant, quest_id, ids, replies),
    ensures
        ({
            let total = claim_total(replies, ids.len());
            let sized = !before.paused() && 1 <= ids.len() <= 20;
            let funded = sized && before.authority(quest_id) is Some;
            let all_due = claim_admitted(before, quest_id, ids) && claim_reachable(before) && (
            forall|i: int|
                0 <= i < ids.len() ==> #[trigger] due(before, claimant, quest_id, ids, replies, i));
            let held = all_due && total <= before.pool(quest_id);
            let payable = held && before.can_call(before.token()->0);
            let sums = before.earnings(claimant) + total <= i128::MAX
                && before.total_distributed() + total <= i128::MAX && before.distributed(quest_id)
                + total <= i128::MAX;
            &&& result is Ok <==> payable && sums
            &&& result is Ok ==> result->Ok_0 == total && replies.len() == ids.len()
            &&& result == Err::<i128, RewardsErrorEnum>(RewardsErrorEnum::Paused)
                <==> before.paused()
            &&& result == Err::<i128, RewardsErrorEnum>(RewardsErrorEnum::BatchTooLarge)
                <==> !before.paused() && !sized
            &&& result == Err::<i128, RewardsErrorEnum>(RewardsErrorEnum::QuestNotFunded)
                <==> sized && !funded
            &&& funded && before.milestone_contract() is None ==> result == Err::<
                i128,
                RewardsErrorEnum,
            >(RewardsErrorEnum::MilestoneContractNotInitialized)
            &&& funded && before.milestone_contract() is Some && before.quest_contract() is None
                ==> result == Err::<i128, RewardsErrorEnum>(
                RewardsErrorEnum::QuestContractNotInitialized,
            )
            &&& result == Err::<i128, RewardsErrorEnum>(RewardsErrorEnum::NotInitialized)
                <==> funded && before.milestone_contract() is Some && before.quest_contract()
                is Some && before.token() is None
            &&& result == Err::<i128, RewardsErrorEnum>(RewardsErrorEnum::InsufficientPool)
                <==> all_due && !held
            &&& result == Err::<i128, RewardsErrorEnum>(RewardsErrorEnum::InvalidToken) <==> held
                && !payable
            &&& result == Err::<i128, RewardsErrorEnum>(RewardsErrorEnum::ArithmeticOverflow)
                <==> payable && !sums
        }),
{
    let total = claim_total(replies, ids.len());
    lemma_checked_is_due(before, claimant, quest_id, ids, replies, ids.len());
    if claim_admitted(before, quest_id, ids) {
        if claim_checked(before, claimant, quest_id, ids, replies, ids.len()) is Ok {
            lemma_due_total(before, claimant, quest_id, ids, replies, ids.len());
            assert(total <= 20 * 1_000_000_000_000_000);
        } else {
            lemma_refused_at(
                before,
                before.note(Step::Authorized { who: claimant }),
                claimant,
                quest_id,
                ids,
                replies,
                ids.len(),
            );
        }
    }
}

/// Milestones that are due come to a positive sum, within bounds.
proof fn lemma_due_total(
    w: World,
    claimant: Seq<u8>,
    quest_id: u32,
    ids: Seq<Datum>,
    replies: Seq<ClaimReply>,
    count: nat,
)
    requires
        count <= ids.len(),
        forall|i: int| 0 <= i < count ==> #[trigger] due(w, claimant, quest_id, ids, replies, i),
    ensures
        count <= claim_total(replies, count) <= count * 1_000_000_000_000_000,
    decreases count,
{
    if count > 0 {
        lemma_due_total(w, claimant, quest_id, ids, replies, (count - 1) as nat);
        assert(due(w, claimant, quest_id, ids, replies, count - 1));
        lemma_item_is_due(w, claimant, quest_id, ids, replies, count - 1);
    }
}

/// Milestones that are not all admitted stop at the first that is not.
proof fn lemma_refused_at(
    w: World,
    at: World,
    claimant: Seq<u8>,
    quest_id: u32,
    ids: Seq<Datum>,
    replies: Seq<ClaimReply>,
    count: nat,
) -> (index: int)
    requires
        claim_checked(w, claimant, quest_id, ids, replies, count) is Err,
    ensures
        0 <= index < count,
        claim_checked(w, claimant, quest_id, ids, replies, index as nat) is Ok,
        claim_item(w, claimant, quest_id, ids, index, replies[index]) is Err,
        claim_checked(w, claimant, quest_id, ids, replies, count)->Err_0 == claim_item(
            w,
            claimant,
            quest_id,
            ids,
            index,
            replies[index],
        )->Err_0,
        claim_asked(w, at, claimant, quest_id, ids, replies, count) == claim_item_world(
            w,
            claim_asked(w, at, claimant, quest_id, ids, replies, index as nat),
            claimant,
            quest_id,
            ids,
            index,
            replies[index],
        ),
    decreases count,
{
    let previous = (count - 1) as nat;
    if claim_checked(w, claimant, quest_id, ids, replies, previous) is Err {
        lemma_refused_at(w, at, claimant, quest_id, ids, replies, previous)
    } else {
        count - 1
    }
}

/// A claim is refused for what is wrong with the first milestone that is not due:
/// it is no number or was named before; or the claimant is suspended; or the
/// claimant did not complete it; or it was paid; or it promises nothing, or
/// nothing that can be paid. A contract that cannot be called is found when its
/// turn comes.
pub proof fn law_claim_refusal(
    w: World,
    claimant: Seq<u8>,
    quest_id: u32,
    ids: Seq<Datum>,
    replies: Seq<ClaimReply>,
    index: nat,
)
    requires
        claim_admitted(w, quest_id, ids),
        index < ids.len(),
        index > 0 ==> claim_reachable(w),
        forall|i: int| 0 <= i < index ==> #[trigger] due(w, claimant, quest_id, ids, replies, i),
    ensures
        ({
            let outcome = claim_outcome(w, claimant, quest_id, ids, replies);
            let id = ids[index as int];
            let reply = replies[index as int];
            let new = id is Count && forall|i: int| 0 <= i < index ==> ids[i] != id;
            let met = new && w.can_call(w.quest_contract()->0);
            let standing = met && (reply.standing == 0 || reply.standing == 2);
            let asked = standing && w.can_call(w.milestone_contract()->0);
            let done = asked && reply.completed;
            let unpaid = done && !w.paid(quest_id, id->Count_0, claimant);
            let promised = unpaid && reply.reward is Some && reply.reward->0 is Amount;
            &&& !new ==> outcome == Err::<i128, RewardsErrorEnum>(RewardsErrorEnum::InvalidInput)
            &&& new && !met ==> outcome == Err::<i128, RewardsErrorEnum>(
                RewardsErrorEnum::QuestContractNotInitialized,
            )
            &&& met && reply.standing == 1 ==> outcome == Err::<i128, RewardsErrorEnum>(
                RewardsErrorEnum::UserSuspended,
            )
            &&& met && reply.standing > 2 ==> outcome == Err::<i128, RewardsErrorEnum>(
                RewardsErrorEnum::QuestLookupFailed,
            )
            &&& standing && !asked ==> outcome == Err::<i128, RewardsErrorEnum>(
                RewardsErrorEnum::MilestoneContractNotInitialized,
            )
            &&& asked && !done ==> outcome == Err::<i128, RewardsErrorEnum>(
                RewardsErrorEnum::MilestoneNotCompleted,
            )
            &&& done && !unpaid ==> outcome == Err::<i128, RewardsErrorEnum>(
                RewardsErrorEnum::AlreadyPaid,
            )
            &&& unpaid && !promised ==> outcome == Err::<i128, RewardsErrorEnum>(
                RewardsErrorEnum::NotFound,
            )
            &&& promised && !(1 <= reply.reward->0->Amount_0 <= 1_000_000_000_000_000) ==> outcome
                == Err::<i128, RewardsErrorEnum>(RewardsErrorEnum::InvalidAmount)
        }),
{
    let k = index as int;
    lemma_checked_is_due(w, claimant, quest_id, ids, replies, index);
    lemma_item_is_due(w, claimant, quest_id, ids, replies, k);
    let new = ids[k] is Count && forall|i: int| 0 <= i < index ==> ids[i] != ids[k];
    assert(new <==> ids[k] is Count && !ids.take(k).contains(ids[k])) by {
        if ids.take(k).contains(ids[k]) {
            let j = choose|j: int| 0 <= j < k && ids.take(k)[j] == ids[k];
            assert(ids[j] == ids[k]);
        } else {
            assert forall|i: int| 0 <= i < index implies ids[i] != ids[k] by {
                assert(ids.take(k)[i] == ids[i]);
            }
        }
    }
    if claim_item(w, claimant, quest_id, ids, k, replies[k]) is Err {
        assert(claim_checked(w, claimant, quest_id, ids, replies, index + 1) is Err);
        lemma_stays_refused(w, claimant, quest_id, ids, replies, index + 1, ids.len());
    }
}

/// Once a milestone is refused, the claim stays refused for it.
proof fn lemma_stays_refused(
    w: World,
    claimant: Seq<u8>,
    quest_id: u32,
    ids: Seq<Datum>,
    replies: Seq<ClaimReply>,
    stop: nat,
    count: nat,
)
    requires
        stop <= count,
        claim_checked(w, claimant, quest_id, ids, replies, stop) is Err,
    ensures
        claim_checked(w, claimant, quest_id, ids, replies, count) == claim_checked(
            w,
            claimant,
            quest_id,
            ids,
            replies,
            stop,
        ),
    decreases count,
{
    if stop < count {
        lemma_stays_refused(w, claimant, quest_id, ids, replies, stop, (count - 1) as nat);
    }
}

/// The question to the quest contract where the claimant stands, with its
/// answer.
pub open spec fn standing_asked(w: World, claimant: Seq<u8>, reply: ClaimReply) -> Step {
    asked_of(
        w.quest_contract(),
        "get_user_status"@,
        seq![Datum::Account(claimant)],
        Some(Datum::Count(reply.standing)),
    )
}

/// The question to the milestone contract whether the claimant completed a
/// milestone of the quest, with its answer.
pub open spec fn completion_asked(
    w: World,
    claimant: Seq<u8>,
    quest_id: u32,
    id: Datum,
    reply: ClaimReply,
) -> Step {
    asked_of(
        w.milestone_contract(),
        "is_completed"@,
        seq![Datum::Count(quest_id), id, Datum::Account(claimant)],
        Some(Datum::Flag(reply.completed)),
    )
}

/// The question to the milestone contract what a milestone of the quest
/// promises, with its answer.
pub open spec fn reward_asked(w: World, quest_id: u32, id: Datum, reply: ClaimReply) -> Step {
    asked_of(
        w.milestone_contract(),
        "get_milestone_reward"@,
        seq![Datum::Count(quest_id), id],
        reply.reward,
    )
}

/// Whether a step asks one of the three questions about one of the first
/// milestones.
pub open spec fn asks_about(
    w: World,
    claimant: Seq<u8>,
    quest_id: u32,
    ids: Seq<Datum>,
    replies: Seq<ClaimReply>,
    count: nat,
    step: Step,
) -> bool {
    exists|i: int|
        0 <= i < count && (#[trigger] ids[i]) is Count && {
            ||| step == standing_asked(w, claimant, replies[i])
            ||| step == completion_asked(w, claimant, quest_id, ids[i], replies[i])
            ||| step == reward_asked(w, quest_id, ids[i], replies[i])
        }
}

/// One question about a milestone is one about the first milestones.
proof fn lemma_asks_about(
    w: World,
    claimant: Seq<u8>,
    quest_id: u32,
    ids: Seq<Datum>,
    replies: Seq<ClaimReply>,
    count: nat,
    more: nat,
    step: Step,
)
    requires
        asks_about(w, claimant, quest_id, ids, replies, count, step),
        count <= more,
    ensures
        asks_about(w, claimant, quest_id, ids, replies, more, step),
{
    let i = choose|i: int|
        0 <= i < count && (#[trigger] ids[i]) is Count && {
            ||| step == standing_asked(w, claimant, replies[i])
            ||| step == completion_asked(w, claimant, quest_id, ids[i], replies[i])
            ||| step == reward_asked(w, quest_id, ids[i], replies[i])
        };
    assert(ids[i] is Count);
}

/// Whether one list of steps goes on from another.
pub open spec fn goes_on(earlier: Seq<Step>, later: Seq<Step>) -> bool {
    &&& earlier.len() <= later.len()
    &&& forall|s: int| 0 <= s < earlier.len() ==> #[trigger] later[s] == earlier[s]
}

/// Whether the three questions about a milestone are asked from a place on.
pub open spec fn asks_all_at(
    w: World,
    claimant: Seq<u8>,
    quest_id: u32,
    id: Datum,
    reply: ClaimReply,
    steps: Seq<Step>,
    place: int,
) -> bool {
    &&& steps[place] == standing_asked(w, claimant, reply)
    &&& steps[place + 1] == completion_asked(w, claimant, quest_id, id, reply)
    &&& steps[place + 2] == reward_asked(w, quest_id, id, reply)
}

/// Whether nothing is asked from a place on but the three questions about the
/// first milestones.
pub open spec fn only_asks(
    w: World,
    claimant: Seq<u8>,
    quest_id: u32,
    ids: Seq<Datum>,
    replies: Seq<ClaimReply>,
    count: nat,
    steps: Seq<Step>,
    place: int,
) -> bool {
    forall|s: int|
        place <= s < steps.len() ==> asks_about(
            w,
            claimant,
            quest_id,
            ids,
            replies,
            count,
            #[trigger] steps[s],
        )
}

/// Asking about one milestone asks the three questions about it, as far as the
/// claim is not bound to fail.
proof fn lemma_item_questions(
    w: World,
    at: World,
    claimant: Seq<u8>,
    quest_id: u32,
    ids: Seq<Datum>,
    replies: Seq<ClaimReply>,
    index: int,
)
    requires
        0 <= index < ids.len(),
    ensures
        ({
            let next = claim_item_world(
                w,
                at,
                claimant,
                quest_id,
                ids,
                index,
                replies[index],
            );
            let start = at.steps.len() as int;
            &&& next.instance == at.instance
            &&& next.persistent == at.persistent
            &&& next.own == at.own
            &&& goes_on(at.steps, next.steps)
            &&& next.steps.len() <= start + 3
            &&& next.steps.len() > start ==> ids[index] is Count && next.steps[start]
                == standing_asked(w, claimant, replies[index])
            &&& next.steps.len() > start + 1 ==> next.steps[start + 1] == completion_asked(
                w,
                claimant,
                quest_id,
                ids[index],
                replies[index],
            )
            &&& next.steps.len() > start + 2 ==> next.steps[start + 2] == reward_asked(
                w,
                quest_id,
                ids[index],
                replies[index],
            )
            &&& claim_item(w, claimant, quest_id, ids, index, replies[index]) is Ok
                ==> next.steps.len() == start + 3
        }),
{
}

/// Asking about the first milestones asks nothing but the three questions about
/// them.
proof fn lemma_claim_questions(
    w: World,
    at: World,
    claimant: Seq<u8>,
    quest_id: u32,
    ids: Seq<Datum>,
    replies: Seq<ClaimReply>,
    count: nat,
)
    requires
        count <= ids.len(),
    ensures
        ({
            let asked = claim_asked(w, at, claimant, quest_id, ids, replies, count);
            let start = at.steps.len() as int;
            &&& asked.instance == at.instance
            &&& asked.persistent == at.persistent
            &&& asked.own == at.own
            &&& goes_on(at.steps, asked.steps)
            &&& only_asks(w, claimant, quest_id, ids, replies, count, asked.steps, start)
        }),
    decreases count,
{
    if count > 0 {
        let asked = claim_asked(w, at, claimant, quest_id, ids, replies, count);
        let start = at.steps.len() as int;
        let previous = (count - 1) as nat;
        let k = count - 1;
        let mid = claim_asked(w, at, claimant, quest_id, ids, replies, previous);
        lemma_claim_questions(w, at, claimant, quest_id, ids, replies, previous);
        lemma_item_questions(w, mid, claimant, quest_id, ids, replies, k);
        assert(goes_on(mid.steps, asked.steps));
        assert forall|s: int| start <= s < asked.steps.len() implies asks_about(
            w,
            claimant,
            quest_id,
            ids,
            replies,
            count,
            #[trigger] asked.steps[s],
        ) by {
            if s < mid.steps.len() {
                let step = mid.steps[s];
                assert(asked.steps[s] == step);
                lemma_asks_about(w, claimant, quest_id, ids, replies, previous, count, step);
            } else {
                assert(ids[k] is Count);
            }
        }
    }
}

/// Where the first milestones are all admitted, all three questions are asked
/// about each, in turn.
proof fn lemma_claim_asks_each(
    w: World,
    at: World,
    claimant: Seq<u8>,
    quest_id: u32,
    ids: Seq<Datum>,
    replies: Seq<ClaimReply>,
    count: nat,
    index: int,
)
    requires
        0 <= index < count <= ids.len(),
        claim_checked(w, claimant, quest_id, ids, replies, count) is Ok,
    ensures
        ({
            let asked = claim_asked(w, at, claimant, quest_id, ids, replies, count);
            let start = at.steps.len() as int;
            &&& asked.steps.len() == start + 3 * count
            &&& asks_all_at(
                w,
                claimant,
                quest_id,
                ids[index],
                replies[index],
                asked.steps,
                start + 3 * index,
            )
        }),
    decreases count,
{
    let asked = claim_asked(w, at, claimant, quest_id, ids, replies, count);
    let start = at.steps.len() as int;
    let previous = (count - 1) as nat;
    let mid = claim_asked(w, at, claimant, quest_id, ids, replies, previous);
    lemma_item_questions(w, mid, claimant, quest_id, ids, replies, count - 1);
    if index < previous {
        lemma_claim_asks_each(w, at, claimant, quest_id, ids, replies, previous, index);
        assert(asked.steps[start + 3 * index] == mid.steps[start + 3 * index]);
        assert(asked.steps[start + 3 * index + 1] == mid.steps[start + 3 * index + 1]);
        assert(asked.steps[start + 3 * index + 2] == mid.steps[start + 3 * index + 2]);
    } else if previous > 0 {
        lemma_claim_asks_each(w, at, claimant, quest_id, ids, replies, previous, 0);
    }
}

/// A claim that succeeds has asked, about each of its milestones, where the
/// claimant stands, whether the claimant completed that milestone of that quest,
/// and what it promises, of the contracts that were set up; and the answers were
/// that the claimant is not suspended, that the milestone is completed, and the
/// amount that is paid for it.
pub proof fn law_claim_asks_each(
    before: World,
    after: World,
    total: i128,
    claimant: Seq<u8>,
    quest_id: u32,
    ids: Seq<Datum>,
    replies: Seq<ClaimReply>,
    index: int,
) -> (place: int)
    requires
        claim_run(before, after, Ok(total), claimant, quest_id, ids, replies),
        0 <= index < ids.len(),
    ensures
        place == before.steps.len() + 1 + 3 * index,
        place + 2 < after.steps.len(),
        ids[index] is Count,
        replies[index].standing == 0 || replies[index].standing == 2,
        after.steps[place] == (Step::Called {
            contract: before.quest_contract()->0,
            function: "get_user_status"@,
            args: seq![Datum::Account(claimant)],
            reply: Some(Datum::Count(replies[index].standing)),
        }),
        after.steps[place + 1] == (Step::Called {
            contract: before.milestone_contract()->0,
            function: "is_completed"@,
            args: seq![Datum::Count(quest_id), ids[index], Datum::Account(claimant)],
            reply: Some(Datum::Flag(true)),
        }),
        after.steps[place + 2] == (Step::Called {
            contract: before.milestone_contract()->0,
            function: "get_milestone_reward"@,
            args: seq![Datum::Count(quest_id), ids[index]],
            reply: Some(Datum::Amount(claim_amount(replies, index))),
        }),
        1 <= claim_amount(replies, index) <= 1_000_000_000_000_000,
{
    let at = before.note(Step::Authorized { who: claimant });
    let count = ids.len();
    let asked = claim_asked(before, at, claimant, quest_id, ids, replies, count);
    let paid = claim_paid(before, asked, claimant, quest_id, ids, replies, count);
    lemma_claim_asks_each(before, at, claimant, quest_id, ids, replies, count, index);
    lemma_claim_checked(before, claimant, quest_id, ids, replies, count, index);
    lemma_item_is_due(before, claimant, quest_id, ids, replies, index);
    lemma_paid_steps(before, asked, claimant, quest_id, ids, replies, count);
    lemma_after_paid(before, after, total, claimant, quest_id, ids, replies);
    let place = before.steps.len() + 1 + 3 * index;
    assert(after.steps[place] == paid.steps[place]);
    assert(after.steps[place + 1] == paid.steps[place + 1]);
    assert(after.steps[place + 2] == paid.steps[place + 2]);
    place
}

/// What a claim that succeeds does once its milestones are paid.
proof fn lemma_after_paid(
    before: World,
    after: World,
    total: i128,
    claimant: Seq<u8>,
    quest_id: u32,
    ids: Seq<Datum>,
    replies: Seq<ClaimReply>,
)
    requires
        claim_run(before, after, Ok(total), claimant, quest_id, ids, replies),
    ensures
        ({
            let at = before.note(Step::Authorized { who: claimant });
            let asked = claim_asked(before, at, claimant, quest_id, ids, replies, ids.len());
            let paid = claim_paid(before, asked, claimant, quest_id, ids, replies, ids.len());
            let pool = Datum::Amount((before.pool(quest_id) - total) as i128);
            let earned = Datum::Amount((before.earnings(claimant) + total) as i128);
            let in_all = Datum::Amount((before.total_distributed() + total) as i128);
            let for_quest = Datum::Amount((before.distributed(quest_id) + total) as i128);
            &&& goes_on(paid.steps, after.steps)
            &&& after.steps.skip(paid.steps.len() as int) == seq![
                wrote(Key::QuestPool(quest_id), pool),
                extended(Key::QuestPool(quest_id)),
                wrote(Key::UserEarnings(claimant), earned),
                extended(Key::UserEarnings(claimant)),
                configured(Key::TotalDistributed, in_all),
                wrote(Key::QuestDistributed(quest_id), for_quest),
                extended(Key::QuestDistributed(quest_id)),
                Step::InstanceExtended { threshold: 120_960, extend_to: 518_400 },
            ]
            &&& after.own == paid.own
            &&& after.instance == paid.instance.insert(Key::TotalDistributed.path(), in_all)
            &&& after.persistent == paid.persistent.insert(
                Key::QuestPool(quest_id).path(),
                pool,
            ).insert(Key::UserEarnings(claimant).path(), earned).insert(
                Key::QuestDistributed(quest_id).path(),
                for_quest,
            )
        }),
{
    law_claim_effect(before, after, total, claimant, quest_id, ids, replies);
}

/// Whatever comes of a claim, it asks nothing but the three questions about its
/// milestones, and it decides on the answers. A claim that is refused does
/// nothing else.
pub proof fn law_claim_asks_only(
    before: World,
    after: World,
    result: Result<i128, RewardsErrorEnum>,
    claimant: Seq<u8>,
    quest_id: u32,
    ids: Seq<Datum>,
    replies: Seq<ClaimReply>,
    place: int,
)
    requires
        claim_run(before, after, result, claimant, quest_id, ids, replies),
        before.steps.len() <= place < after.steps.len(),
    ensures
        goes_on(before.steps, after.steps),
        after.steps[before.steps.len() as int] == (Step::Authorized { who: claimant }),
        after.steps[place] is Called || (result is Err && place > before.steps.len())
            ==> asks_about(
            before,
            claimant,
            quest_id,
            ids,
            replies,
            ids.len(),
            after.steps[place],
        ),
{
    let at = before.note(Step::Authorized { who: claimant });
    let count = ids.len();
    let asked = claim_asked(before, at, claimant, quest_id, ids, replies, count);
    let start = before.steps.len() as int;
    lemma_claim_questions(before, at, claimant, quest_id, ids, replies, count);
    assert(goes_on(before.steps, at.steps));
    assert(asked.steps[start] == at.steps[start]);
    if result is Ok {
        let total = result->Ok_0;
        let paid = claim_paid(before, asked, claimant, quest_id, ids, replies, count);
        lemma_paid_steps(before, asked, claimant, quest_id, ids, replies, count);
        lemma_paid_calls_nobody(before, asked, claimant, quest_id, ids, replies, count);
        lemma_after_paid(before, after, total, claimant, quest_id, ids, replies);
        assert(goes_on(asked.steps, paid.steps));
        assert(after.steps[start] == paid.steps[start]);
        assert(paid.steps[start] == asked.steps[start]);
        assert forall|s: int| 0 <= s < start implies #[trigger] after.steps[s]
            == before.steps[s] by {
            assert(after.steps[s] == paid.steps[s]);
            assert(paid.steps[s] == asked.steps[s]);
            assert(asked.steps[s] == at.steps[s]);
        }
        if place < paid.steps.len() {
            assert(after.steps[place] == paid.steps[place]);
            if place < asked.steps.len() {
                assert(paid.steps[place] == asked.steps[place]);
            }
        } else {
            let k = place - paid.steps.len();
            assert(after.steps.skip(paid.steps.len() as int)[k] == after.steps[place]);
        }
    } else {
        assert(after == asked || after == at);
    }
}

/// A claim is refused for the claimant's standing, for a milestone that is not
/// completed, or for what one promises, only on the answer to the question that
/// it asked last.
pub proof fn law_claim_refused_on_answer(
    before: World,
    after: World,
    error: RewardsErrorEnum,
    claimant: Seq<u8>,
    quest_id: u32,
    ids: Seq<Datum>,
    replies: Seq<ClaimReply>,
)
    requires
        claim_run(before, after, Err(error), claimant, quest_id, ids, replies),
    ensures
        error == RewardsErrorEnum::UserSuspended ==> after.steps.last() == asked_of(
            before.quest_contract(),
            "get_user_status"@,
            seq![Datum::Account(claimant)],
            Some(Datum::Count(1)),
        ),
        error == RewardsErrorEnum::MilestoneNotCompleted ==> exists|i: int|
            0 <= i < ids.len() && after.steps.last() == asked_of(
                before.milestone_contract(),
                "is_completed"@,
                seq![Datum::Count(quest_id), #[trigger] ids[i], Datum::Account(claimant)],
                Some(Datum::Flag(false)),
            ),
        error == RewardsErrorEnum::NotFound || error == RewardsErrorEnum::InvalidAmount
            ==> exists|i: int|
            0 <= i < ids.len() && after.steps.last() == asked_of(
                before.milestone_contract(),
                "get_milestone_reward"@,
                seq![Datum::Count(quest_id), #[trigger] ids[i]],
                replies[i].reward,
            ),
{
    if claim_admitted(before, quest_id, ids) && claim_checked(
        before,
        claimant,
        quest_id,
        ids,
        replies,
        ids.len(),
    ) is Err {
        let at = before.note(Step::Authorized { who: claimant });
        let i = lemma_refused_at(before, at, claimant, quest_id, ids, replies, ids.len());
        let last = after.steps.last();
        if error == RewardsErrorEnum::UserSuspended {
            assert(last == standing_asked(before, claimant, replies[i]));
        } else if error == RewardsErrorEnum::MilestoneNotCompleted {
            assert(last == completion_asked(before, claimant, quest_id, ids[i], replies[i]));
        } else if error == RewardsErrorEnum::NotFound || error
            == RewardsErrorEnum::InvalidAmount {
            assert(last == reward_asked(before, quest_id, ids[i], replies[i]));
        }
    }
}

/// The steps by which one milestone of a claim is paid.
pub open spec fn payment_steps(
    w: World,
    claimant: Seq<u8>,
    quest_id: u32,
    milestone_id: u32,
    amount: i128,
) -> Seq<Step> {
    let record = Key::PayoutRecord(quest_id, milestone_id, claimant);
    seq![
        wrote(record, Datum::Amount(amount)),
        extended(record),
        Step::Transferred { token: w.token()->0, from: w.own, to: claimant, amount },
        published(
            "reward_distributed"@,
            seq![
                Datum::Count(quest_id),
                Datum::Count(milestone_id),
                Datum::Account(claimant),
                Datum::Amount(amount),
            ],
        ),
    ]
}

/// Paying the first milestones takes four steps for each, in turn.
proof fn lemma_paid_steps(
    w: World,
    at: World,
    claimant: Seq<u8>,
    quest_id: u32,
    ids: Seq<Datum>,
    replies: Seq<ClaimReply>,
    count: nat,
)
    ensures
        ({
            let paid = claim_paid(w, at, claimant, quest_id, ids, replies, count);
            let start = at.steps.len() as int;
            &&& paid.steps.len() == start + 4 * count
            &&& forall|s: int| 0 <= s < start ==> #[trigger] paid.steps[s] == at.steps[s]
            &&& forall|i: int|
                #![trigger ids[i]]
                0 <= i < count ==> paid.steps.subrange(start + 4 * i, start + 4 * i + 4)
                    == payment_steps(
                    w,
                    claimant,
                    quest_id,
                    ids[i]->Count_0,
                    claim_amount(replies, i),
                )
        }),
    decreases count,
{
    if count > 0 {
        let previous = (count - 1) as nat;
        lemma_paid_steps(w, at, claimant, quest_id, ids, replies, previous);
        let mid = claim_paid(w, at, claimant, quest_id, ids, replies, previous);
        let paid = claim_paid(w, at, claimant, quest_id, ids, replies, count);
        let start = at.steps.len() as int;
        assert forall|i: int| #![trigger ids[i]] 0 <= i < count implies paid.steps.subrange(
            start + 4 * i,
            start + 4 * i + 4,
        ) == payment_steps(
            w,
            claimant,
            quest_id,
            ids[i]->Count_0,
            claim_amount(replies, i),
        ) by {
            if i < previous {
                assert(paid.steps.subrange(start + 4 * i, start + 4 * i + 4)
                    =~= mid.steps.subrange(start + 4 * i, start + 4 * i + 4));
            } else {
                assert(mid.steps.len() == start + 4 * i);
                assert(paid.steps.subrange(start + 4 * i, start + 4 * i + 4) =~= payment_steps(
                    w,
                    claimant,
                    quest_id,
                    ids[i]->Count_0,
                    claim_amount(replies, i),
                ));
            }
        }
    }
}

/// Paying the first milestones calls no other contract but the token.
proof fn lemma_paid_calls_nobody(
    w: World,
    at: World,
    claimant: Seq<u8>,
    quest_id: u32,
    ids: Seq<Datum>,
    replies: Seq<ClaimReply>,
    count: nat,
)
    ensures
        ({
            let paid = claim_paid(w, at, claimant, quest_id, ids, replies, count);
            forall|s: int|
                at.steps.len() <= s < paid.steps.len() ==> !((#[trigger] paid.steps[s]) is Called)
        }),
    decreases count,
{
    if count > 0 {
        lemma_paid_calls_nobody(w, at, claimant, quest_id, ids, replies, (count - 1) as nat);
    }
}

/// Whether a path is that of the record of one of the first milestones.
pub open spec fn records_milestone(
    claimant: Seq<u8>,
    quest_id: u32,
    ids: Seq<Datum>,
    count: nat,
    path: Seq<Datum>,
) -> bool {
    exists|i: int|
        0 <= i < count && path == Key::PayoutRecord(
            quest_id,
            (#[trigger] ids[i])->Count_0,
            claimant,
        ).path()
}

/// Paying the first milestones writes their records and nothing else.
proof fn lemma_paid_writes(
    w: World,
    at: World,
    claimant: Seq<u8>,
    quest_id: u32,
    ids: Seq<Datum>,
    replies: Seq<ClaimReply>,
    count: nat,
)
    requires
        count <= ids.len(),
        forall|i: int| 0 <= i < count ==> (#[trigger] ids[i]) is Count,
        forall|i: int, j: int| 0 <= i < j < count ==> #[trigger] ids[i] != #[trigger] ids[j],
    ensures
        ({
            let paid = claim_paid(w, at, claimant, quest_id, ids, replies, count);
            &&& paid.instance == at.instance
            &&& paid.own == at.own
            &&& forall|path: Seq<Datum>| #[trigger]
                paid.persistent.contains_key(path) <==> at.persistent.contains_key(path)
                    || records_milestone(claimant, quest_id, ids, count, path)
            &&& forall|path: Seq<Datum>|
                !records_milestone(claimant, quest_id, ids, count, path)
                    ==> #[trigger] paid.persistent[path] == at.persistent[path]
            &&& forall|i: int|
                0 <= i < count ==> paid.persistent[Key::PayoutRecord(
                    quest_id,
                    (#[trigger] ids[i])->Count_0,
                    claimant,
                ).path()] == Datum::Amount(claim_amount(replies, i))
        }),
    decreases count,
{
    broadcast use lemma_path_injective;

    if count > 0 {
        let previous = (count - 1) as nat;
        let k = count - 1;
        lemma_paid_writes(w, at, claimant, quest_id, ids, replies, previous);
        let mid = claim_paid(w, at, claimant, quest_id, ids, replies, previous);
        let paid = claim_paid(w, at, claimant, quest_id, ids, replies, count);
        let own = Key::PayoutRecord(quest_id, ids[k]->Count_0, claimant).path();
        assert(paid.persistent == mid.persistent.insert(
            own,
            Datum::Amount(claim_amount(replies, k)),
        ));
        assert forall|path: Seq<Datum>| #[trigger]
            records_milestone(claimant, quest_id, ids, count, path) <==> path == own
            || records_milestone(claimant, quest_id, ids, previous, path) by {
            if records_milestone(claimant, quest_id, ids, previous, path) {
                let i = choose|i: int|
                    0 <= i < previous && path == Key::PayoutRecord(
                        quest_id,
                        (#[trigger] ids[i])->Count_0,
                        claimant,
                    ).path();
                assert(0 <= i < count && ids[i] is Count);
            }
            assert(0 <= k < count && ids[k] is Count);
        }
        assert forall|i: int| 0 <= i < count implies paid.persistent[Key::PayoutRecord(
            quest_id,
            (#[trigger] ids[i])->Count_0,
            claimant,
        ).path()] == Datum::Amount(claim_amount(replies, i)) by {
            if i < k {
                assert(ids[i] != ids[k]);
                assert(ids[i] is Count && ids[k] is Count);
                assert(Key::PayoutRecord(quest_id, ids[i]->Count_0, claimant)
                    != Key::PayoutRecord(quest_id, ids[k]->Count_0, claimant));
            }
        }
    }
}

/// A claim that succeeds puts each milestone on record with what it promises,
/// moves that from the contract to the claimant and announces it, one milestone
/// after the other, then takes the sum from the pool and adds it to what the
/// claimant earned and to what was distributed in all and for the quest, and does
/// nothing else.
pub proof fn law_claim_does(
    before: World,
    after: World,
    total: i128,
    claimant: Seq<u8>,
    quest_id: u32,
    ids: Seq<Datum>,
    replies: Seq<ClaimReply>,
    index: int,
)
    requires
        claim_run(before, after, Ok(total), claimant, quest_id, ids, replies),
        0 <= index < ids.len(),
    ensures
        ({
            let start = (before.steps.len() + 1 + 3 * ids.len()) as int;
            let end = start + 4 * ids.len();
            let pool = Datum::Amount((before.pool(quest_id) - total) as i128);
            let earned = Datum::Amount((before.earnings(claimant) + total) as i128);
            let in_all = Datum::Amount((before.total_distributed() + total) as i128);
            let for_quest = Datum::Amount((before.distributed(quest_id) + total) as i128);
            let amount = claim_amount(replies, index);
            let record = Key::PayoutRecord(quest_id, ids[index]->Count_0, claimant);
            &&& after.own == before.own
            &&& after.steps.subrange(start + 4 * index, start + 4 * index + 4) == payment_steps(
                before,
                claimant,
                quest_id,
                ids[index]->Count_0,
                amount,
            )
            &&& after.steps.skip(end) == seq![
                wrote(Key::QuestPool(quest_id), pool),
                extended(Key::QuestPool(quest_id)),
                wrote(Key::UserEarnings(claimant), earned),
                extended(Key::UserEarnings(claimant)),
                configured(Key::TotalDistributed, in_all),
                wrote(Key::QuestDistributed(quest_id), for_quest),
                extended(Key::QuestDistributed(quest_id)),
                Step::InstanceExtended { threshold: 120_960, extend_to: 518_400 },
            ]
            &&& after.instance == before.instance.insert(Key::TotalDistributed.path(), in_all)
            &&& after.persistent.contains_key(record.path())
            &&& after.persistent[record.path()] == Datum::Amount(amount)
            &&& forall|path: Seq<Datum>|
                #![trigger after.persistent.contains_key(path)]
                #![trigger after.persistent[path]]
                path != Key::QuestPool(quest_id).path() && path != Key::UserEarnings(
                    claimant,
                ).path() && path != Key::QuestDistributed(quest_id).path() && !records_milestone(
                    claimant,
                    quest_id,
                    ids,
                    ids.len(),
                    path,
                ) ==> after.persistent.contains_key(path) == before.persistent.contains_key(path)
                    && after.persistent[path] == before.persistent[path]
        }),
{
    let at = before.note(Step::Authorized { who: claimant });
    let count = ids.len();
    let asked = claim_asked(before, at, claimant, quest_id, ids, replies, count);
    let paid = claim_paid(before, asked, claimant, quest_id, ids, replies, count);
    lemma_claim_questions(before, at, claimant, quest_id, ids, replies, count);
    lemma_claim_asks_each(before, at, claimant, quest_id, ids, replies, count, 0);
    lemma_checked_is_due(before, claimant, quest_id, ids, replies, count);
    lemma_paid_steps(before, asked, claimant, quest_id, ids, replies, count);
    lemma_after_paid(before, after, total, claimant, quest_id, ids, replies);
    assert forall|i: int| 0 <= i < count implies (#[trigger] ids[i]) is Count by {
        assert(due(before, claimant, quest_id, ids, replies, i));
    }
    assert forall|i: int, j: int| 0 <= i < j < count implies #[trigger] ids[i]
        != #[trigger] ids[j] by {
        assert(due(before, claimant, quest_id, ids, replies, j));
    }
    lemma_paid_writes(before, asked, claimant, quest_id, ids, replies, count);
    let start = before.steps.len() + 1 + 3 * count;
    assert(ids[index] is Count);
    assert(after.steps.subrange(start + 4 * index, start + 4 * index + 4)
        =~= paid.steps.subrange(start + 4 * index, start + 4 * index + 4));
    let record = Key::PayoutRecord(quest_id, ids[index]->Count_0, claimant);
    assert(records_milestone(claimant, quest_id, ids, count, record.path()));
    lemma_distinct_paths(quest_id, claimant, ids[index]->Count_0);
}

/// The entries that a claim writes are different ones.
proof fn lemma_distinct_paths(quest_id: u32, claimant: Seq<u8>, milestone_id: u32)
    ensures
        ({
            let record = Key::PayoutRecord(quest_id, milestone_id, claimant).path();
            &&& record != Key::QuestPool(quest_id).path()
            &&& record != Key::UserEarnings(claimant).path()
            &&& record != Key::QuestDistributed(quest_id).path()
        }),
{
    broadcast use lemma_path_injective;

}

} // verus!
