//! The contracts that the rewards contract asks: the quest contract and the
//! milestone contract.
//!
//! Nothing is known of what they answer. Each function here states what is
//! asked, and how the answer is read.

use soroban_sdk::{Address, Env};
use vstd::prelude::*;

use crate::common::{make_list, QuestInfo};
use crate::host::{
    address_text, as_amount, call_for_amount, call_for_count, call_for_flag, list_items, try_call,
    world, Value,
};
use crate::model::{function_text, Datum, World};
use crate::quest::{quest_in, read_quest};

verus! {

/// The host takes the names of the functions for names of functions.
pub proof fn lemma_function_names()
    ensures
        function_text("get_quest"@),
        function_text("get_user_status"@),
        function_text("is_completed"@),
        function_text("get_milestone_reward"@),
        function_text("get_total_reserved_reward"@),
{
    reveal_strlit("get_quest");
    reveal_strlit("get_user_status");
    reveal_strlit("is_completed");
    reveal_strlit("get_milestone_reward");
    reveal_strlit("get_total_reserved_reward");
}

/// An empty text has no bytes.
pub proof fn lemma_empty_text()
    ensures
        vstd::utf8::encode_utf8(""@) == Seq::<u8>::empty(),
{
    reveal_strlit("");
    assert(""@ =~= Seq::<char>::empty());
    assert(vstd::utf8::encode_utf8(""@) =~= Seq::<u8>::empty());
}

/// The reward in the reply to a request for it.
pub open spec fn reward_in(reply: Option<Datum>) -> Option<i128> {
    match reply {
        Some(Datum::Amount(reward)) => Some(reward),
        _ => None,
    }
}

impl World {
    /// The reply in the last step.
    pub open spec fn last_reply(self) -> Option<Datum> {
        self.steps.last()->reply
    }

    /// The world after the quest contract was asked for a quest.
    pub open spec fn ask_quest(
        self,
        quest_contract: Seq<u8>,
        quest_id: u32,
        reply: Option<Datum>,
    ) -> World {
        self.call(quest_contract, "get_quest"@, seq![Datum::Count(quest_id)], reply)
    }

    /// The world after the quest contract was asked where a user stands.
    pub open spec fn ask_standing(self, quest_contract: Seq<u8>, user: Seq<u8>, code: u32) -> World {
        self.call(
            quest_contract,
            "get_user_status"@,
            seq![Datum::Account(user)],
            Some(Datum::Count(code)),
        )
    }

    /// The world after the milestone contract was asked whether an enrollee
    /// completed a milestone.
    pub open spec fn ask_completed(
        self,
        milestone_contract: Seq<u8>,
        quest_id: u32,
        milestone_id: u32,
        enrollee: Seq<u8>,
        completed: bool,
    ) -> World {
        self.call(
            milestone_contract,
            "is_completed"@,
            seq![Datum::Count(quest_id), Datum::Count(milestone_id), Datum::Account(enrollee)],
            Some(Datum::Flag(completed)),
        )
    }

    /// The world after the milestone contract was asked for the reward that a
    /// milestone promises.
    pub open spec fn ask_reward(
        self,
        milestone_contract: Seq<u8>,
        quest_id: u32,
        milestone_id: u32,
        reply: Option<Datum>,
    ) -> World {
        self.call(
            milestone_contract,
            "get_milestone_reward"@,
            seq![Datum::Count(quest_id), Datum::Count(milestone_id)],
            reply,
        )
    }

    /// The world after the milestone contract was asked for all rewards that
    /// are reserved for a quest.
    pub open spec fn ask_reserved(
        self,
        milestone_contract: Seq<u8>,
        quest_id: u32,
        reserved: i128,
    ) -> World {
        self.call(
            milestone_contract,
            "get_total_reserved_reward"@,
            seq![Datum::Count(quest_id)],
            Some(Datum::Amount(reserved)),
        )
    }
}

/// Asks the quest contract for a quest.
pub(crate) fn ask_quest(env: &mut Env, quest_contract: &Address, quest_id: u32) -> (quest: Option<
    QuestInfo,
>)
    requires
        world(*old(env)).can_call(address_text(*quest_contract)),
    ensures
        world(*final(env)) == world(*old(env)).ask_quest(
            address_text(*quest_contract),
            quest_id,
            world(*final(env)).last_reply(),
        ),
        quest is Some <==> quest_in(world(*final(env)).last_reply()) is Some,
        quest is Some ==> quest_in(world(*final(env)).last_reply()) == Some(quest->0@),
{
    let args = make_list(env, &[Value::Count(quest_id)]);
    proof {
        lemma_function_names();
        assert(list_items(args) =~= seq![Datum::Count(quest_id)]);
    }
    match try_call(env, quest_contract, "get_quest", args) {
        Some(record) => read_quest(env, &record),
        None => None,
    }
}

/// Asks the quest contract where a user stands. The answer is a number.
pub(crate) fn ask_standing(env: &mut Env, quest_contract: &Address, user: &Address) -> (code: u32)
    requires
        world(*old(env)).can_call(address_text(*quest_contract)),
    ensures
        world(*final(env)) == world(*old(env)).ask_standing(
            address_text(*quest_contract),
            address_text(*user),
            code,
        ),
{
    let args = make_list(env, &[Value::Account(user)]);
    proof {
        lemma_function_names();
        assert(list_items(args) =~= seq![Datum::Account(address_text(*user))]);
    }
    call_for_count(env, quest_contract, "get_user_status", args)
}

/// Asks the milestone contract whether an enrollee completed a milestone.
pub(crate) fn ask_completed(
    env: &mut Env,
    milestone_contract: &Address,
    quest_id: u32,
    milestone_id: u32,
    enrollee: &Address,
) -> (completed: bool)
    requires
        world(*old(env)).can_call(address_text(*milestone_contract)),
    ensures
        world(*final(env)) == world(*old(env)).ask_completed(
            address_text(*milestone_contract),
            quest_id,
            milestone_id,
            address_text(*enrollee),
            completed,
        ),
{
    let args = make_list(
        env,
        &[Value::Count(quest_id), Value::Count(milestone_id), Value::Account(enrollee)],
    );
    proof {
        lemma_function_names();
        assert(list_items(args) =~= seq![
            Datum::Count(quest_id),
            Datum::Count(milestone_id),
            Datum::Account(address_text(*enrollee)),
        ]);
    }
    call_for_flag(env, milestone_contract, "is_completed", args)
}

/// Asks the milestone contract for the reward that a milestone promises.
pub(crate) fn ask_reward(
    env: &mut Env,
    milestone_contract: &Address,
    quest_id: u32,
    milestone_id: u32,
) -> (reward: Option<i128>)
    requires
        world(*old(env)).can_call(address_text(*milestone_contract)),
    ensures
        world(*final(env)) == world(*old(env)).ask_reward(
            address_text(*milestone_contract),
            quest_id,
            milestone_id,
            world(*final(env)).last_reply(),
        ),
        reward == reward_in(world(*final(env)).last_reply()),
{
    let args = make_list(env, &[Value::Count(quest_id), Value::Count(milestone_id)]);
    proof {
        lemma_function_names();
        assert(list_items(args) =~= seq![Datum::Count(quest_id), Datum::Count(milestone_id)]);
    }
    match try_call(env, milestone_contract, "get_milestone_reward", args) {
        Some(reply) => as_amount(env, &reply),
        None => None,
    }
}

/// Asks the milestone contract for all rewards that are reserved for a quest.
pub(crate) fn ask_reserved(env: &mut Env, milestone_contract: &Address, quest_id: u32) -> (reserved:
    i128)
    requires
        world(*old(env)).can_call(address_text(*milestone_contract)),
    ensures
        world(*final(env)) == world(*old(env)).ask_reserved(
            address_text(*milestone_contract),
            quest_id,
            reserved,
        ),
{
    let args = make_list(env, &[Value::Count(quest_id)]);
    proof {
        lemma_function_names();
        assert(list_items(args) =~= seq![Datum::Count(quest_id)]);
    }
    call_for_amount(env, milestone_contract, "get_total_reserved_reward", args)
}

} // verus!
