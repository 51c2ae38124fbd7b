//! Funding the pool of a quest.

use soroban_sdk::{Address, Env};
use vstd::prelude::*;

use crate::common::{
    emit, emit_reward_funded, is_callable, lemma_event_names, log_cross_call, log_cross_return,
    make_list, Quest, QuestInfo,
};
use crate::contract::RewardsContract;
use crate::errors::RewardsErrorEnum;
use crate::host::{
    address_text, list_items, new_text, option_text, require_auth, same_address, token_answers,
    token_transfer, world, Value,
};
use crate::keys::{DataKey, Key};
use crate::ledger::{
    configure, instance_address, instance_amount, instance_count, keep, persistent_address,
    persistent_amount,
};
use crate::model::{Datum, Step, World};
use crate::quest::quest_in;
use crate::rules::{add_funding, funding_fits, is_payable, payable};
use crate::services::{ask_quest, lemma_empty_text, lemma_function_names};

verus! {

/// Whether a funding gets as far as asking for the quest, and otherwise why not.
pub open spec fn funding_request(w: World, amount: i128) -> Result<(), RewardsErrorEnum> {
    if w.paused() {
        Err(RewardsErrorEnum::Paused)
    } else if !payable(amount) {
        Err(RewardsErrorEnum::InvalidAmount)
    } else if w.quest_contract() is None {
        Err(RewardsErrorEnum::NotInitialized)
    } else if !w.can_call(w.quest_contract()->0) {
        Err(RewardsErrorEnum::QuestLookupFailed)
    } else {
        Ok(())
    }
}

/// Whether a quest can be funded by someone, in the token that the contract
/// pays.
pub open spec fn funding_terms(
    quest: Option<Quest>,
    funder: Seq<u8>,
    token: Option<Seq<u8>>,
) -> Result<(), RewardsErrorEnum> {
    match quest {
        None => Err(RewardsErrorEnum::QuestLookupFailed),
        Some(quest) => if quest.owner != funder {
            Err(RewardsErrorEnum::Unauthorized)
        } else if token is None {
            Err(RewardsErrorEnum::NotInitialized)
        } else if token != Some(quest.token_addr) {
            Err(RewardsErrorEnum::InvalidToken)
        } else {
            Ok(())
        },
    }
}

/// Whether a quest can be funded by someone, in the token that the contract
/// pays.
pub fn check_funding_terms(
    quest: &Option<QuestInfo>,
    funder: &Address,
    token: &Option<Address>,
) -> (verdict: Result<(), RewardsErrorEnum>)
    ensures
        verdict == funding_terms(
            match *quest {
                Some(quest) => Some(quest@),
                None => None,
            },
            address_text(*funder),
            option_text(*token),
        ),
{
    let quest = match quest {
        Some(quest) => quest,
        None => return Err(RewardsErrorEnum::QuestLookupFailed),
    };
    if !same_address(&quest.owner, funder) {
        return Err(RewardsErrorEnum::Unauthorized);
    }
    match token {
        Some(token) => {
            // A quest that advertises one token must not be paid in another.
            if same_address(&quest.token_addr, token) {
                Ok(())
            } else {
                Err(RewardsErrorEnum::InvalidToken)
            }
        },
        None => Err(RewardsErrorEnum::NotInitialized),
    }
}

/// Whether a pool can take a funding, given whether its token answers and who
/// controls it.
pub open spec fn funding_claim(
    token_live: bool,
    authority: Option<Seq<u8>>,
    funder: Seq<u8>,
) -> Result<(), RewardsErrorEnum> {
    if !token_live {
        Err(RewardsErrorEnum::InvalidToken)
    } else if authority is Some && authority != Some(funder) {
        Err(RewardsErrorEnum::Unauthorized)
    } else {
        Ok(())
    }
}

/// Whether a pool can take a funding. Only the authority can add to a pool that
/// has one.
pub fn check_funding_claim(token_live: bool, authority: &Option<Address>, funder: &Address) -> (verdict:
    Result<(), RewardsErrorEnum>)
    ensures
        verdict == funding_claim(token_live, option_text(*authority), address_text(*funder)),
{
    if !token_live {
        return Err(RewardsErrorEnum::InvalidToken);
    }
    match authority {
        Some(existing) => {
            if same_address(existing, funder) {
                Ok(())
            } else {
                Err(RewardsErrorEnum::Unauthorized)
            }
        },
        None => Ok(()),
    }
}

/// Whether the token is live: it can be asked for its symbol, and it answers.
pub open spec fn funding_live(w: World, answered: bool) -> bool {
    w.can_call(w.token()->0) && answered
}

/// Whether the counters can take a funding.
pub open spec fn funding_counted(w: World, quest_id: u32, amount: i128) -> bool {
    funding_fits(
        w.pool(quest_id),
        w.total_funded(),
        w.quest_count(),
        w.authority(quest_id) is None,
        amount,
    )
}

/// What a funding comes to, given the answers of the quest contract and of the
/// token.
pub open spec fn funding_outcome(
    w: World,
    funder: Seq<u8>,
    quest_id: u32,
    amount: i128,
    reply: Option<Datum>,
    token_live: bool,
) -> Result<(), RewardsErrorEnum> {
    if funding_request(w, amount) is Err {
        funding_request(w, amount)
    } else if funding_terms(quest_in(reply), funder, w.token()) is Err {
        funding_terms(quest_in(reply), funder, w.token())
    } else if funding_claim(funding_live(w, token_live), w.authority(quest_id), funder) is Err {
        funding_claim(funding_live(w, token_live), w.authority(quest_id), funder)
    } else if !funding_counted(w, quest_id, amount) {
        Err(RewardsErrorEnum::ArithmeticOverflow)
    } else {
        Ok(())
    }
}

impl World {
    /// The world after a funder came to control the pool of a quest.
    pub open spec fn assign_authority(self, quest_id: u32, funder: Seq<u8>) -> World {
        self.keep(Key::QuestAuthority(quest_id), Datum::Account(funder)).publish(
            "reward_authority_assigned"@,
            seq![Datum::Count(quest_id), Datum::Account(funder)],
        )
    }

    /// The world after tokens came into the pool of a quest.
    pub open spec fn credit(
        self,
        quest_id: u32,
        funder: Seq<u8>,
        amount: i128,
        pool: i128,
        total_funded: i128,
        quest_count: Option<u32>,
    ) -> World {
        let credited = self.keep(Key::QuestPool(quest_id), Datum::Amount(pool)).configure(
            Key::TotalFunded,
            Datum::Amount(total_funded),
        );
        let counted = match quest_count {
            Some(count) => credited.configure(Key::QuestCount, Datum::Count(count)),
            None => credited,
        };
        counted.announce_funding(quest_id, funder, amount)
    }
}

/// The world after a funding has asked what it needs to know.
pub open spec fn funding_asked(
    w: World,
    funder: Seq<u8>,
    quest_id: u32,
    reply: Option<Datum>,
) -> World {
    let quest_contract = w.quest_contract()->0;
    w.note(Step::Authorized { who: funder }).announce_call(
        quest_contract,
        "get_quest"@,
        Seq::empty(),
    ).ask_quest(quest_contract, quest_id, reply).announce_return(
        quest_contract,
        "get_quest"@,
        quest_in(reply) is Some,
        Seq::empty(),
    )
}

/// The world after a funding that every check admits and the counters can take:
/// the authority of the quest is settled, the tokens are moved, and they are
/// credited.
pub open spec fn funding_settled(
    w: World,
    at: World,
    funder: Seq<u8>,
    quest_id: u32,
    amount: i128,
) -> World {
    let assigned = if w.authority(quest_id) is None {
        at.assign_authority(quest_id, funder)
    } else {
        at
    };
    assigned.note(
        Step::Transferred { token: w.token()->0, from: funder, to: w.own, amount },
    ).credit(
        quest_id,
        funder,
        amount,
        (w.pool(quest_id) + amount) as i128,
        (w.total_funded() + amount) as i128,
        if w.authority(quest_id) is None {
            Some((w.quest_count() + 1) as u32)
        } else {
            None
        },
    )
}

/// The world after a funding, given the answers of the quest contract and of
/// the token. A token that cannot be called is not asked.
pub open spec fn funding_world(
    w: World,
    funder: Seq<u8>,
    quest_id: u32,
    amount: i128,
    reply: Option<Datum>,
    token_live: bool,
) -> World {
    if funding_request(w, amount) is Err {
        w.note(Step::Authorized { who: funder })
    } else {
        let asked = funding_asked(w, funder, quest_id, reply);
        if funding_terms(quest_in(reply), funder, w.token()) is Err {
            asked
        } else {
            let probed = if w.can_call(w.token()->0) {
                asked.note(Step::TokenProbed { token: w.token()->0, answered: token_live })
            } else {
                asked
            };
            if funding_outcome(w, funder, quest_id, amount, reply, token_live) is Err {
                probed
            } else {
                funding_settled(w, probed, funder, quest_id, amount)
            }
        }
    }
}

/// Whether a funding went as it has to, given the answers of the quest contract
/// and of the token.
pub open spec fn funding_run(
    before: World,
    after: World,
    result: Result<(), RewardsErrorEnum>,
    funder: Seq<u8>,
    quest_id: u32,
    amount: i128,
    reply: Option<Datum>,
    token_live: bool,
) -> bool {
    &&& result == funding_outcome(before, funder, quest_id, amount, reply, token_live)
    &&& after == funding_world(before, funder, quest_id, amount, reply, token_live)
}

impl RewardsContract {
    /// Funds the pool of a quest. Only the owner of the quest can, and the first
    /// to do so becomes the authority over the pool.
    ///
    /// The tokens move from the funder to this contract and are credited to the
    /// pool.
    pub fn fund_quest(env: &mut Env, funder: Address, quest_id: u32, amount: i128) -> (result:
        Result<(), RewardsErrorEnum>)
        ensures
            exists|reply: Option<Datum>, token_live: bool| #[trigger]
                funding_run(
                    world(*old(env)),
                    world(*final(env)),
                    result,
                    address_text(funder),
                    quest_id,
                    amount,
                    reply,
                    token_live,
                ),
    {
        let ghost w = world(*env);
        let ghost who = address_text(funder);
        require_auth(env, &funder);
        if Self::is_paused(env) {
            assert(funding_run(
                w,
                world(*env),
                Err(RewardsErrorEnum::Paused),
                who,
                quest_id,
                amount,
                None,
                false,
            ));
            return Err(RewardsErrorEnum::Paused);
        }
        if !is_payable(amount) {
            assert(funding_run(
                w,
                world(*env),
                Err(RewardsErrorEnum::InvalidAmount),
                who,
                quest_id,
                amount,
                None,
                false,
            ));
            return Err(RewardsErrorEnum::InvalidAmount);
        }
        let quest_contract = match instance_address(env, &DataKey::QuestContractAddr) {
            Some(address) => address,
            None => {
                assert(funding_run(
                    w,
                    world(*env),
                    Err(RewardsErrorEnum::NotInitialized),
                    who,
                    quest_id,
                    amount,
                    None,
                    false,
                ));
                return Err(RewardsErrorEnum::NotInitialized);
            },
        };

        let own = env.current_contract_address();
        if !is_callable(&quest_contract, &own) {
            let error = RewardsErrorEnum::QuestLookupFailed;
            assert(funding_run(w, world(*env), Err(error), who, quest_id, amount, None, false));
            return Err(error);
        }

        // The owner of the quest, as the quest contract has it.
        let nothing = new_text(env, "");
        proof {
            lemma_function_names();
            lemma_empty_text();
        }
        log_cross_call(env, &quest_contract, "get_quest", &nothing);
        let found = ask_quest(env, &quest_contract, quest_id);
        let ghost reply = world(*env).last_reply();
        log_cross_return(env, &quest_contract, "get_quest", found.is_some(), &nothing);
        assert(world(*env) == funding_asked(w, who, quest_id, reply));
        let token = instance_address(env, &DataKey::TokenAddr);
        if let Err(error) = check_funding_terms(&found, &funder, &token) {
            assert(funding_run(w, world(*env), Err(error), who, quest_id, amount, reply, false));
            return Err(error);
        }
        let token = token.unwrap();
        // An address without a token behind it gives no symbol, and one that is
        // not that of a contract cannot even be asked.
        let token_live = is_callable(&token, &own) && token_answers(env, &token);
        let authority_key = DataKey::QuestAuthority(quest_id);
        let authority = persistent_address(env, &authority_key);
        if let Err(error) = check_funding_claim(token_live, &authority, &funder) {
            assert(funding_run(
                w,
                world(*env),
                Err(error),
                who,
                quest_id,
                amount,
                reply,
                token_live,
            ));
            return Err(error);
        }
        let pool = persistent_amount(env, &DataKey::QuestPool(quest_id));
        let total_funded = instance_amount(env, &DataKey::TotalFunded);
        let quest_count = instance_count(env, &DataKey::QuestCount);
        let first = authority.is_none();
        // The sums come first: a funding that they cannot take changes nothing.
        let sums = match add_funding(pool, total_funded, quest_count, first, amount) {
            Ok(sums) => sums,
            Err(error) => {
                assert(funding_run(
                    w,
                    world(*env),
                    Err(error),
                    who,
                    quest_id,
                    amount,
                    reply,
                    token_live,
                ));
                return Err(error);
            },
        };
        if first {
            keep(env, &authority_key, &Value::Account(&funder));
            let data = make_list(env, &[Value::Count(quest_id), Value::Account(&funder)]);
            proof {
                lemma_event_names();
                assert(list_items(data) =~= seq![Datum::Count(quest_id), Datum::Account(who)]);
            }
            emit(env, "reward_authority_assigned", data);
        }
        token_transfer(env, &token, &funder, &own, amount);
        keep(env, &DataKey::QuestPool(quest_id), &Value::Amount(sums.0));
        configure(env, &DataKey::TotalFunded, &Value::Amount(sums.1));
        if first {
            configure(env, &DataKey::QuestCount, &Value::Count(sums.2));
        }
        emit_reward_funded(env, quest_id, &funder, amount);
        assert(funding_run(w, world(*env), Ok(()), who, quest_id, amount, reply, token_live));
        Ok(())
    }
}

} // verus!
