//! The contract on a host, with stand-ins for the quest contract and the
//! milestone contract.

use std::cell::RefCell;
use std::rc::Rc;

use rewards::funding::{check_funding_claim, check_funding_terms};
use rewards::payouts::check_payout_terms;
use rewards::{
    emit_quest_created, extend_persistent_ttl, get_instance, get_persistent, is_contract_address,
    is_paused_by_key, is_valid_url, DataKey, IsDataKey, QuestInfo, QuestStatus, RewardsContract,
    RewardsErrorEnum, Visibility,
};
use soroban_sdk::testutils::storage::{Instance as _, Persistent as _};
use soroban_sdk::testutils::{
    Address as _, ContractFunctionSet, EnvTestConfig, Events as _, Ledger as _,
};
use soroban_sdk::token::{StellarAssetClient, TokenClient};
use soroban_sdk::{
    Address, BytesN, Env, Error, IntoVal, String, Symbol, TryFromVal, Val, Vec,
};

const DAY: u64 = 86_400;
const GRACE: u64 = 604_800;

/// What the quest contract knows.
struct Quests {
    found: bool,
    owner: Address,
    token: Address,
    name: &'static str,
    description: &'static str,
    category: &'static str,
    status: u32,
    deadline: u64,
    archived_at: u64,
    standing: u32,
    /// A field that the record is handed out without.
    without: &'static str,
}

struct QuestStub(Rc<RefCell<Quests>>);

impl ContractFunctionSet for QuestStub {
    fn call(&self, func: &str, env: Env, args: &[Val]) -> Option<Val> {
        let quests = self.0.borrow();
        match func {
            "get_quest" => {
                if !quests.found {
                    return Some(Error::from_contract_error(1).to_val());
                }
                let id: u32 = read(&env, &args[0]);
                let mut record: soroban_sdk::Map<Symbol, Val> = soroban_sdk::Map::new(&env);
                let text = |chars: &str| String::from_str(&env, chars).to_val();
                let fields: [(&str, Val); 15] = [
                    ("id", id.into_val(&env)),
                    ("owner", quests.owner.to_val()),
                    ("name", text(quests.name)),
                    ("description", text(quests.description)),
                    ("category", text(quests.category)),
                    ("tags", Vec::<String>::new(&env).to_val()),
                    ("token_addr", quests.token.to_val()),
                    ("created_at", 5u64.into_val(&env)),
                    ("visibility", 0u32.into_val(&env)),
                    ("status", quests.status.into_val(&env)),
                    ("deadline", quests.deadline.into_val(&env)),
                    ("archived_at", quests.archived_at.into_val(&env)),
                    ("max_enrollees", ().into_val(&env)),
                    ("verified", true.into_val(&env)),
                    ("version", 1u32.into_val(&env)),
                ];
                for (name, value) in fields {
                    if name != quests.without {
                        record.set(Symbol::new(&env, name), value);
                    }
                }
                Some(record.to_val())
            }
            "get_user_status" => Some(quests.standing.into_val(&env)),
            _ => None,
        }
    }
}

/// What the milestone contract knows.
struct Milestones {
    completed: std::vec::Vec<(u32, u32, Address)>,
    rewards: std::vec::Vec<(u32, u32, i128)>,
    reserved: i128,
}

struct MilestoneStub(Rc<RefCell<Milestones>>);

impl ContractFunctionSet for MilestoneStub {
    fn call(&self, func: &str, env: Env, args: &[Val]) -> Option<Val> {
        let milestones = self.0.borrow();
        match func {
            "is_completed" => {
                let asked: (u32, u32, Address) =
                    (read(&env, &args[0]), read(&env, &args[1]), read(&env, &args[2]));
                Some(milestones.completed.contains(&asked).into_val(&env))
            }
            "get_milestone_reward" => {
                let quest_id: u32 = read(&env, &args[0]);
                let milestone_id: u32 = read(&env, &args[1]);
                for (quest, milestone, reward) in milestones.rewards.iter() {
                    if *quest == quest_id && *milestone == milestone_id {
                        return Some(reward.into_val(&env));
                    }
                }
                Some(Error::from_contract_error(1).to_val())
            }
            "get_total_reserved_reward" => Some(milestones.reserved.into_val(&env)),
            _ => None,
        }
    }
}

fn read<T: TryFromVal<Env, Val>>(env: &Env, value: &Val) -> T {
    T::try_from_val(env, value).ok().unwrap()
}

fn give<T: IntoVal<Env, Val>>(env: &Env, result: Result<T, RewardsErrorEnum>) -> Val {
    match result {
        Ok(value) => value.into_val(env),
        Err(error) => Error::from_contract_error(error.code()).to_val(),
    }
}

struct RewardsStub;

impl ContractFunctionSet for RewardsStub {
    fn call(&self, func: &str, env: Env, args: &[Val]) -> Option<Val> {
        let mut host = env.clone();
        let address = |i: usize| -> Address { read(&env, &args[i]) };
        let count = |i: usize| -> u32 { read(&env, &args[i]) };
        let amount = |i: usize| -> i128 { read(&env, &args[i]) };
        let reply = match func {
            "initialize" => give(
                &env,
                RewardsContract::initialize(
                    &mut host,
                    address(0),
                    address(1),
                    address(2),
                    address(3),
                ),
            ),
            "upgrade" => {
                let hash: BytesN<32> = read(&env, &args[1]);
                give(&env, RewardsContract::upgrade(&mut host, address(0), hash))
            }
            "fund_quest" => give(
                &env,
                RewardsContract::fund_quest(&mut host, address(0), count(1), amount(2)),
            ),
            "distribute_reward" => give(
                &env,
                RewardsContract::distribute_reward(
                    &mut host,
                    address(0),
                    count(1),
                    count(2),
                    address(3),
                    amount(4),
                ),
            ),
            "claim_batch" => {
                let ids: Vec<u32> = read(&env, &args[2]);
                give(&env, RewardsContract::claim_batch(&mut host, address(0), count(1), ids))
            }
            "refund_pool" => give(
                &env,
                RewardsContract::refund_pool(&mut host, address(0), count(1), amount(2)),
            ),
            "refund_unused_pool" => give(
                &env,
                RewardsContract::refund_unused_pool(&mut host, address(0), count(1)),
            ),
            "refund_expired_pool" => give(
                &env,
                RewardsContract::refund_expired_pool(&mut host, address(0), count(1)),
            ),
            "get_refund_window" => {
                RewardsContract::get_refund_window(&mut host, count(0)).into_val(&env)
            }
            "set_refund_grace_period" => {
                let seconds: u64 = read(&env, &args[1]);
                give(
                    &env,
                    RewardsContract::set_refund_grace_period(&mut host, address(0), seconds),
                )
            }
            "pause" => give(&env, RewardsContract::pause(&mut host, address(0))),
            "unpause" => give(&env, RewardsContract::unpause(&mut host, address(0))),
            _ => return None,
        };
        Some(reply)
    }
}

/// A contract that another one can be upgraded to.
struct NextStub;

impl ContractFunctionSet for NextStub {
    fn call(&self, func: &str, env: Env, _args: &[Val]) -> Option<Val> {
        match func {
            "version" => Some(2u32.into_val(&env)),
            _ => None,
        }
    }
}

struct Fixture {
    env: Env,
    token: Address,
    quest: Address,
    milestone: Address,
    rewards: Address,
    admin: Address,
    owner: Address,
    enrollee: Address,
    quests: Rc<RefCell<Quests>>,
    milestones: Rc<RefCell<Milestones>>,
}

impl Fixture {
    /// A contract that has not been set up.
    fn bare() -> Fixture {
        let env = Env::new_with_config(EnvTestConfig { capture_snapshot_at_drop: false });
        env.mock_all_auths();
        let token_admin = Address::generate(&env);
        let token = env.register_stellar_asset_contract_v2(token_admin).address();
        let owner = Address::generate(&env);
        let quests = Rc::new(RefCell::new(Quests {
            found: true,
            owner: owner.clone(),
            token: token.clone(),
            name: "Quest",
            description: "Test",
            category: "Cat",
            status: 0,
            deadline: 0,
            archived_at: 0,
            standing: 0,
            without: "",
        }));
        let milestones = Rc::new(RefCell::new(Milestones {
            completed: std::vec::Vec::new(),
            rewards: std::vec::Vec::new(),
            reserved: 0,
        }));
        Fixture {
            token,
            quest: env.register(QuestStub(quests.clone()), ()),
            milestone: env.register(MilestoneStub(milestones.clone()), ()),
            rewards: env.register(RewardsStub, ()),
            admin: Address::generate(&env),
            owner,
            enrollee: Address::generate(&env),
            quests,
            milestones,
            env,
        }
    }

    /// A contract that has been set up, and an owner with tokens.
    fn new(tokens: i128) -> Fixture {
        let f = Fixture::bare();
        assert_eq!(f.initialize(), Ok(()));
        StellarAssetClient::new(&f.env, &f.token).mint(&f.owner, &tokens);
        f
    }

    fn call<T: TryFromVal<Env, Val>>(&self, func: &str, args: Vec<Val>) -> Result<T, u32> {
        let name = Symbol::new(&self.env, func);
        match self.env.try_invoke_contract::<T, Error>(&self.rewards, &name, args) {
            Ok(Ok(value)) => Ok(value),
            Err(Ok(error)) => Err(error.get_code()),
            _ => panic!("the call did not end as a contract call"),
        }
    }

    /// Runs something as the contract.
    fn inside<T>(&self, run: impl FnOnce(&mut Env) -> T) -> T {
        let mut env = self.env.clone();
        self.env.as_contract(&self.rewards, || run(&mut env))
    }

    fn initialize(&self) -> Result<(), u32> {
        self.call(
            "initialize",
            (&self.admin, &self.token, &self.quest, &self.milestone).into_val(&self.env),
        )
    }

    fn fund(&self, funder: &Address, quest_id: u32, amount: i128) -> Result<(), u32> {
        self.call("fund_quest", (funder, quest_id, amount).into_val(&self.env))
    }

    fn distribute(&self, quest_id: u32, milestone_id: u32, amount: i128) -> Result<(), u32> {
        self.call(
            "distribute_reward",
            (&self.owner, quest_id, milestone_id, &self.enrollee, amount).into_val(&self.env),
        )
    }

    fn claim(&self, quest_id: u32, ids: &[u32]) -> Result<i128, u32> {
        let ids: Vec<u32> = Vec::from_slice(&self.env, ids);
        self.call("claim_batch", (&self.enrollee, quest_id, ids).into_val(&self.env))
    }

    fn refund(&self, quest_id: u32, amount: i128) -> Result<(), u32> {
        self.call("refund_pool", (&self.owner, quest_id, amount).into_val(&self.env))
    }

    fn refund_unused(&self, quest_id: u32) -> Result<i128, u32> {
        self.call("refund_unused_pool", (&self.owner, quest_id).into_val(&self.env))
    }

    fn refund_expired(&self, quest_id: u32) -> Result<i128, u32> {
        self.call("refund_expired_pool", (&self.owner, quest_id).into_val(&self.env))
    }

    fn window(&self, quest_id: u32) -> (u64, u64) {
        self.call("get_refund_window", (quest_id,).into_val(&self.env)).unwrap()
    }

    fn set_grace(&self, admin: &Address, seconds: u64) -> Result<(), u32> {
        self.call("set_refund_grace_period", (admin, seconds).into_val(&self.env))
    }

    fn pause(&self, admin: &Address) -> Result<(), u32> {
        self.call("pause", (admin,).into_val(&self.env))
    }

    fn unpause(&self, admin: &Address) -> Result<(), u32> {
        self.call("unpause", (admin,).into_val(&self.env))
    }

    fn pool(&self, quest_id: u32) -> i128 {
        self.inside(|env| RewardsContract::get_pool_balance(env, quest_id))
    }

    fn stats(&self) -> (u32, i128, i128) {
        self.inside(|env| RewardsContract::get_platform_stats(env))
    }

    fn earned(&self, user: &Address) -> i128 {
        self.inside(|env| RewardsContract::get_user_earnings(env, user.clone()))
    }

    fn refunded(&self, quest_id: u32) -> i128 {
        self.inside(|env| RewardsContract::get_quest_refunded(env, quest_id))
    }

    fn balance(&self, who: &Address) -> i128 {
        TokenClient::new(&self.env, &self.token).balance(who)
    }

    /// A milestone that the enrollee completed.
    fn complete(&self, quest_id: u32, milestone_id: u32, reward: i128) {
        let mut milestones = self.milestones.borrow_mut();
        milestones.completed.push((quest_id, milestone_id, self.enrollee.clone()));
        milestones.rewards.push((quest_id, milestone_id, reward));
    }

    fn archive(&self, at: u64) {
        let mut quests = self.quests.borrow_mut();
        quests.status = 1;
        quests.archived_at = at;
    }

    /// Archives the quest at the start, and lets the grace period run out.
    fn close(&self) {
        self.archive(0);
        self.at(GRACE);
    }

    /// An address that is not that of a contract.
    fn account(&self) -> Address {
        Address::from_string(&String::from_str(
            &self.env,
            "GAAAAAAAAAAAAAAAAAAAAAAAAAAAAAAAAAAAAAAAAAAAAAAAAAAAAWHF",
        ))
    }

    fn at(&self, now: u64) {
        self.env.ledger().set_timestamp(now);
    }

    /// Overwrites an amount in the persistent store.
    fn put(&self, key: DataKey, amount: i128) {
        self.inside(|env| {
            let key = key.to_key(env);
            env.storage().persistent().set(&key, &amount);
        })
    }

    /// Overwrites an entry of the instance store.
    fn put_setting<V: IntoVal<Env, Val>>(&self, key: DataKey, value: V) {
        self.inside(|env| {
            let key = key.to_key(env);
            env.storage().instance().set(&key, &value);
        })
    }

    /// Removes an entry of the instance store.
    fn forget(&self, key: DataKey) {
        self.inside(|env| {
            let key = key.to_key(env);
            env.storage().instance().remove(&key);
        })
    }

    /// The events of the contract in the last call: the topics and the data of
    /// each.
    fn published(&self, expected: std::vec::Vec<(Vec<Val>, Val)>) -> bool {
        let mut all: Vec<(Address, Vec<Val>, Val)> = Vec::new(&self.env);
        for (topics, data) in expected {
            all.push_back((self.rewards.clone(), topics, data));
        }
        self.env.events().all().filter_by_contract(&self.rewards) == all
    }

    fn topic(&self, name: &str) -> Vec<Val> {
        (Symbol::new(&self.env, name),).into_val(&self.env)
    }
}

// ---------------------------------------------------------------------------
// Funding and payouts
// ---------------------------------------------------------------------------

#[test]
fn test_insufficient_pool_rejects_large_distribution() {
    let f = Fixture::bare();
    assert_eq!(f.initialize(), Ok(()));
    {
        let mut quests = f.quests.borrow_mut();
        quests.name = "Overflow Quest";
        quests.description = "Test";
        quests.category = "Cat";
    }

    // The owner has limited tokens.
    StellarAssetClient::new(&f.env, &f.token).mint(&f.owner, &1000_i128);

    // Fund the pool with 500.
    assert_eq!(f.fund(&f.owner, 0u32, 500_i128), Ok(()));

    // A milestone, created and verified.
    f.complete(0u32, 0u32, 1000_i128);

    // A payout larger than the pool fails.
    let res = f.distribute(0u32, 0u32, 1000_i128);
    assert_eq!(res, Err(RewardsErrorEnum::InsufficientPool.code()));
}

#[test]
fn test_fund_quest_emits_cross_contract_log() {
    let f = Fixture::bare();
    assert_eq!(f.initialize(), Ok(()));
    {
        let mut quests = f.quests.borrow_mut();
        quests.name = "Cross-Contract Quest";
        quests.description = "Integration test quest";
        quests.category = "Programming";
    }

    // Make sure the owner has tokens.
    StellarAssetClient::new(&f.env, &f.token).mint(&f.owner, &10_000_i128);

    // This calls the quest contract.
    assert_eq!(f.fund(&f.owner, 0u32, 5_000_i128), Ok(()));

    let expected = soroban_sdk::xdr::ScVal::Symbol("cross_contract_call".try_into().unwrap());
    let mut found = false;
    for event in f.env.events().all().events().iter() {
        let soroban_sdk::xdr::ContractEventBody::V0(body) = &event.body;
        if body.topics.len() > 0 && body.topics[0] == expected {
            found = true;
        }
    }
    assert!(found, "expected cross_contract_call event to be emitted");
}

#[test]
fn first_funding_publishes_every_event_in_order() {
    let f = Fixture::new(10_000);
    assert_eq!(f.fund(&f.owner, 3, 5_000), Ok(()));
    let env = &f.env;
    let method = Symbol::new(env, "get_quest");
    let empty = String::from_str(env, "");
    assert!(f.published(std::vec![
        (
            f.topic("cross_contract_call"),
            (&f.rewards, &f.quest, &method, &empty).into_val(env),
        ),
        (
            f.topic("cross_contract_return"),
            (&f.rewards, &f.quest, &method, true, &empty).into_val(env),
        ),
        (f.topic("reward_authority_assigned"), (3u32, &f.owner).into_val(env)),
        (f.topic("reward_funded"), (3u32, &f.owner, 5_000i128).into_val(env)),
    ]));
}

#[test]
fn funding_moves_tokens_and_counts() {
    let f = Fixture::new(10_000);
    assert_eq!(f.fund(&f.owner, 7, 4_000), Ok(()));
    assert_eq!(f.pool(7), 4_000);
    assert_eq!(f.stats(), (1, 4_000, 0));
    assert_eq!(f.balance(&f.owner), 6_000);
    assert_eq!(f.balance(&f.rewards), 4_000);
    assert_eq!(f.fund(&f.owner, 7, 1_000), Ok(()));
    assert_eq!(f.pool(7), 5_000);
    assert_eq!(f.stats(), (1, 5_000, 0));
    assert_eq!(f.fund(&f.owner, 8, 500), Ok(()));
    assert_eq!(f.pool(7), 5_000);
    assert_eq!(f.pool(8), 500);
    assert_eq!(f.stats(), (2, 5_500, 0));
    assert_eq!(f.balance(&f.rewards), 5_500);
}

#[test]
fn an_emptied_quest_is_counted_once() {
    let f = Fixture::new(10_000);
    assert_eq!(f.fund(&f.owner, 7, 100), Ok(()));
    f.complete(7, 1, 100);
    assert_eq!(f.distribute(7, 1, 100), Ok(()));
    assert_eq!(f.pool(7), 0);
    assert_eq!(f.fund(&f.owner, 7, 100), Ok(()));
    assert_eq!(f.stats(), (1, 200, 100));
}

#[test]
fn funding_checks_the_amount() {
    let f = Fixture::new(10_000);
    let invalid = Err(RewardsErrorEnum::InvalidAmount.code());
    assert_eq!(f.fund(&f.owner, 0, 0), invalid);
    assert_eq!(f.fund(&f.owner, 0, -5), invalid);
    assert_eq!(f.fund(&f.owner, 0, 1_000_000_000_000_001), invalid);
    assert_eq!(f.fund(&f.owner, 0, 1), Ok(()));
}

#[test]
fn the_largest_amount_can_be_funded() {
    let f = Fixture::new(1_000_000_000_000_000);
    assert_eq!(f.fund(&f.owner, 0, 1_000_000_000_000_000), Ok(()));
    assert_eq!(f.pool(0), 1_000_000_000_000_000);
}

#[test]
fn funding_needs_a_contract_that_is_set_up() {
    let f = Fixture::bare();
    assert_eq!(f.fund(&f.owner, 0, 5), Err(RewardsErrorEnum::NotInitialized.code()));
}

#[test]
fn funding_needs_the_quest() {
    let f = Fixture::new(10_000);
    f.quests.borrow_mut().found = false;
    assert_eq!(f.fund(&f.owner, 0, 5), Err(RewardsErrorEnum::QuestLookupFailed.code()));
    f.quests.borrow_mut().found = true;
    f.quests.borrow_mut().without = "owner";
    assert_eq!(f.fund(&f.owner, 0, 5), Err(RewardsErrorEnum::QuestLookupFailed.code()));
    f.quests.borrow_mut().without = "";
    f.quests.borrow_mut().status = 3;
    assert_eq!(f.fund(&f.owner, 0, 5), Err(RewardsErrorEnum::QuestLookupFailed.code()));
    f.quests.borrow_mut().status = 2;
    assert_eq!(f.fund(&f.owner, 0, 5), Ok(()));
}

#[test]
fn funding_takes_the_owner_only() {
    let f = Fixture::new(10_000);
    let unauthorized = Err(RewardsErrorEnum::Unauthorized.code());
    assert_eq!(f.fund(&f.enrollee, 0, 5), unauthorized);
    assert_eq!(f.fund(&f.owner, 0, 5), Ok(()));
    // A new owner cannot add to a pool that has an authority.
    f.quests.borrow_mut().owner = f.enrollee.clone();
    StellarAssetClient::new(&f.env, &f.token).mint(&f.enrollee, &100);
    assert_eq!(f.fund(&f.enrollee, 0, 5), unauthorized);
    assert_eq!(f.balance(&f.enrollee), 100);
    assert_eq!(f.fund(&f.enrollee, 1, 5), Ok(()));
}

#[test]
fn funding_takes_the_token_of_the_contract_only() {
    let f = Fixture::new(10_000);
    f.quests.borrow_mut().token = Address::generate(&f.env);
    assert_eq!(f.fund(&f.owner, 0, 5), Err(RewardsErrorEnum::InvalidToken.code()));
    f.forget(DataKey::TokenAddr);
    assert_eq!(f.fund(&f.owner, 0, 5), Err(RewardsErrorEnum::NotInitialized.code()));
}

#[test]
fn funding_needs_a_live_token() {
    let f = Fixture::bare();
    // The milestone contract is no token.
    let no_token = f.milestone.clone();
    let set_up: Result<(), u32> = f.call(
        "initialize",
        (&f.admin, &no_token, &f.quest, &f.milestone).into_val(&f.env),
    );
    assert_eq!(set_up, Ok(()));
    f.quests.borrow_mut().token = no_token;
    assert_eq!(f.fund(&f.owner, 0, 5), Err(RewardsErrorEnum::InvalidToken.code()));
    assert_eq!(f.stats(), (0, 0, 0));
}

#[test]
fn funding_that_overflows_is_taken_back() {
    let f = Fixture::new(10_000);
    assert_eq!(f.fund(&f.owner, 0, 5), Ok(()));
    f.put(DataKey::QuestPool(0), i128::MAX - 3);
    assert_eq!(f.fund(&f.owner, 0, 4), Err(RewardsErrorEnum::ArithmeticOverflow.code()));
    assert_eq!(f.balance(&f.owner), 9_995);
    assert_eq!(f.fund(&f.owner, 0, 3), Ok(()));
    f.put_setting(DataKey::QuestCount, u32::MAX);
    assert_eq!(f.fund(&f.owner, 1, 4), Err(RewardsErrorEnum::ArithmeticOverflow.code()));
    assert_eq!(f.fund(&f.owner, 0, 0), Err(RewardsErrorEnum::InvalidAmount.code()));
    f.put_setting(DataKey::TotalFunded, i128::MAX);
    f.put(DataKey::QuestPool(0), 1);
    assert_eq!(f.fund(&f.owner, 0, 4), Err(RewardsErrorEnum::ArithmeticOverflow.code()));
}

#[test]
fn a_payout_moves_tokens_counts_and_is_announced() {
    let f = Fixture::new(10_000);
    assert_eq!(f.fund(&f.owner, 2, 1_000), Ok(()));
    f.complete(2, 9, 300);
    assert_eq!(f.distribute(2, 9, 300), Ok(()));
    let env = &f.env;
    let method = Symbol::new(env, "is_completed");
    let empty = String::from_str(env, "");
    assert!(f.published(std::vec![
        (
            f.topic("cross_contract_call"),
            (&f.rewards, &f.milestone, &method, &empty).into_val(env),
        ),
        (
            f.topic("cross_contract_return"),
            (&f.rewards, &f.milestone, &method, true, &empty).into_val(env),
        ),
        (f.topic("reward_distributed"), (2u32, 9u32, &f.enrollee, 300i128).into_val(env)),
    ]));
    assert_eq!(f.pool(2), 700);
    assert_eq!(f.earned(&f.enrollee), 300);
    assert_eq!(f.inside(|env| RewardsContract::get_user_total(env, f.enrollee.clone())), 300);
    assert_eq!(f.inside(|env| RewardsContract::get_total_distributed(env)), 300);
    assert_eq!(f.stats(), (1, 1_000, 300));
    assert_eq!(f.balance(&f.enrollee), 300);
    assert_eq!(f.balance(&f.rewards), 700);
}

#[test]
fn a_payout_is_made_once() {
    let f = Fixture::new(10_000);
    assert_eq!(f.fund(&f.owner, 2, 1_000), Ok(()));
    f.complete(2, 9, 300);
    assert_eq!(f.distribute(2, 9, 300), Ok(()));
    let paid = Err(RewardsErrorEnum::AlreadyPaid.code());
    assert_eq!(f.distribute(2, 9, 300), paid);
    assert_eq!(f.distribute(2, 9, 1), paid);
    assert_eq!(f.claim(2, &[9]), Err(RewardsErrorEnum::AlreadyPaid.code()));
    assert_eq!(f.distribute(2, 9, 0), Err(RewardsErrorEnum::InvalidAmount.code()));
    assert_eq!(f.balance(&f.enrollee), 300);
    assert_eq!(f.pool(2), 700);
}

#[test]
fn a_payout_takes_the_authority_only() {
    let f = Fixture::new(10_000);
    f.complete(2, 9, 300);
    assert_eq!(f.distribute(2, 9, 300), Err(RewardsErrorEnum::QuestNotFunded.code()));
    assert_eq!(f.fund(&f.owner, 2, 1_000), Ok(()));
    let unauthorized: Result<(), u32> = Err(RewardsErrorEnum::Unauthorized.code());
    let by_other: Result<(), u32> = f.call(
        "distribute_reward",
        (&f.admin, 2u32, 9u32, &f.enrollee, 300i128).into_val(&f.env),
    );
    assert_eq!(by_other, unauthorized);
    let to_itself: Result<(), u32> = f.call(
        "distribute_reward",
        (&f.owner, 2u32, 9u32, &f.owner, 300i128).into_val(&f.env),
    );
    assert_eq!(to_itself, unauthorized);
}

#[test]
fn a_payout_takes_a_completed_milestone() {
    let f = Fixture::new(10_000);
    assert_eq!(f.fund(&f.owner, 2, 1_000), Ok(()));
    assert_eq!(f.distribute(2, 9, 300), Err(RewardsErrorEnum::MilestoneNotCompleted.code()));
    f.complete(2, 9, 300);
    assert_eq!(f.distribute(3, 9, 300), Err(RewardsErrorEnum::QuestNotFunded.code()));
    assert_eq!(f.distribute(2, 8, 300), Err(RewardsErrorEnum::MilestoneNotCompleted.code()));
    assert_eq!(f.distribute(2, 9, 300), Ok(()));
}

#[test]
fn a_payout_is_what_was_promised() {
    let f = Fixture::new(10_000);
    assert_eq!(f.fund(&f.owner, 2, 1_000), Ok(()));
    f.complete(2, 9, 300);
    let mismatch = Err(RewardsErrorEnum::RewardAmountMismatch.code());
    assert_eq!(f.distribute(2, 9, 299), mismatch);
    assert_eq!(f.distribute(2, 9, 301), mismatch);
    // A milestone that promises nothing, or is not known, fixes no amount.
    f.complete(2, 10, 0);
    assert_eq!(f.distribute(2, 10, 17), Ok(()));
    f.milestones.borrow_mut().completed.push((2, 11, f.enrollee.clone()));
    assert_eq!(f.distribute(2, 11, 18), Ok(()));
    assert_eq!(f.pool(2), 965);
}

#[test]
fn a_payout_can_empty_the_pool() {
    let f = Fixture::new(10_000);
    assert_eq!(f.fund(&f.owner, 2, 300), Ok(()));
    f.complete(2, 9, 301);
    f.complete(2, 10, 300);
    assert_eq!(f.distribute(2, 9, 301), Err(RewardsErrorEnum::InsufficientPool.code()));
    assert_eq!(f.distribute(2, 10, 300), Ok(()));
    assert_eq!(f.pool(2), 0);
}

#[test]
fn a_payout_needs_its_contracts() {
    let f = Fixture::new(10_000);
    assert_eq!(f.fund(&f.owner, 2, 300), Ok(()));
    f.complete(2, 9, 300);
    f.forget(DataKey::TokenAddr);
    assert_eq!(f.distribute(2, 9, 300), Err(RewardsErrorEnum::NotInitialized.code()));
    assert_eq!(f.claim(2, &[9]), Err(RewardsErrorEnum::NotInitialized.code()));
    f.forget(DataKey::QuestContractAddr);
    let no_quests = RewardsErrorEnum::QuestContractNotInitialized.code();
    assert_eq!(f.distribute(2, 9, 300), Err(no_quests));
    assert_eq!(f.claim(2, &[9]), Err(no_quests));
    f.forget(DataKey::MilestoneContractAddr);
    let no_milestones = RewardsErrorEnum::MilestoneContractNotInitialized.code();
    assert_eq!(f.distribute(2, 9, 300), Err(no_milestones));
    assert_eq!(f.claim(2, &[9]), Err(no_milestones));
}

#[test]
fn a_payout_that_overflows_is_taken_back() {
    let f = Fixture::new(10_000);
    assert_eq!(f.fund(&f.owner, 2, 300), Ok(()));
    f.complete(2, 9, 300);
    f.put(DataKey::UserEarnings(f.enrollee.clone()), i128::MAX - 299);
    let overflow = RewardsErrorEnum::ArithmeticOverflow.code();
    assert_eq!(f.distribute(2, 9, 300), Err(overflow));
    assert_eq!(f.claim(2, &[9]), Err(overflow));
    assert_eq!(f.balance(&f.enrollee), 0);
    assert_eq!(f.pool(2), 300);
    f.put(DataKey::UserEarnings(f.enrollee.clone()), 0);
    f.put(DataKey::QuestDistributed(2), i128::MAX);
    assert_eq!(f.distribute(2, 9, 300), Err(overflow));
    f.put(DataKey::QuestDistributed(2), 0);
    f.put_setting(DataKey::TotalDistributed, i128::MAX);
    assert_eq!(f.distribute(2, 9, 300), Err(overflow));
    f.put_setting(DataKey::TotalDistributed, 0i128);
    assert_eq!(f.distribute(2, 9, 300), Ok(()));
}

#[test]
fn funding_terms_take_the_replies() {
    let f = Fixture::bare();
    let none: Option<Address> = None;
    let missing = Err(RewardsErrorEnum::QuestLookupFailed);
    assert_eq!(check_funding_terms(&None, &f.owner, &Some(f.token.clone())), missing);
    let text = String::from_str(&f.env, "");
    let quest = Some(QuestInfo {
        id: 1,
        owner: f.owner.clone(),
        name: text.clone(),
        description: text.clone(),
        category: text,
        tags: Vec::new(&f.env),
        token_addr: f.token.clone(),
        created_at: 0,
        visibility: Visibility::Private,
        status: QuestStatus::Active,
        deadline: 0,
        archived_at: 0,
        max_enrollees: Some(4),
        verified: false,
        version: 1,
    });
    let token = Some(f.token.clone());
    assert_eq!(quest.clone(), quest);
    assert_eq!(check_funding_terms(&quest, &f.owner, &token), Ok(()));
    let unauthorized = Err(RewardsErrorEnum::Unauthorized);
    assert_eq!(check_funding_terms(&quest, &f.admin, &token), unauthorized);
    let not_set = Err(RewardsErrorEnum::NotInitialized);
    assert_eq!(check_funding_terms(&quest, &f.owner, &none), not_set);
    let invalid = Err(RewardsErrorEnum::InvalidToken);
    assert_eq!(check_funding_terms(&quest, &f.owner, &Some(f.quest.clone())), invalid);

    assert_eq!(check_funding_claim(true, &none, &f.owner), Ok(()));
    assert_eq!(check_funding_claim(true, &Some(f.owner.clone()), &f.owner), Ok(()));
    assert_eq!(check_funding_claim(true, &Some(f.admin.clone()), &f.owner), unauthorized);
    assert_eq!(check_funding_claim(false, &none, &f.owner), invalid);
}

#[test]
fn payout_terms_take_the_replies() {
    let f = Fixture::bare();
    let token = Some(f.token.clone());
    assert_eq!(check_payout_terms(Some(5), 5, 5, &token, &f.rewards), Ok(()));
    assert_eq!(check_payout_terms(None, 5, 9, &token, &f.rewards), Ok(()));
    let mismatch = Err(RewardsErrorEnum::RewardAmountMismatch);
    assert_eq!(check_payout_terms(Some(6), 5, 1, &token, &f.rewards), mismatch);
    let short = Err(RewardsErrorEnum::InsufficientPool);
    assert_eq!(check_payout_terms(Some(5), 5, 4, &None, &f.rewards), short);
    let not_set = Err(RewardsErrorEnum::NotInitialized);
    assert_eq!(check_payout_terms(Some(5), 5, 5, &None, &f.rewards), not_set);
    let invalid = Err(RewardsErrorEnum::InvalidToken);
    let account = Some(f.account());
    assert_eq!(check_payout_terms(Some(5), 5, 5, &account, &f.rewards), invalid);
    assert_eq!(check_payout_terms(Some(5), 5, 5, &token, &f.token), invalid);
}

#[test]
fn the_books_balance_over_a_course_of_operations() {
    let f = Fixture::new(10_000);
    let balanced = || {
        let pools = f.pool(1) + f.pool(2);
        let (_, funded, distributed) = f.stats();
        let spent: i128 = f.inside(|env| {
            let mut sum: i128 = 0;
            for quest_id in [1u32, 2] {
                let key = DataKey::QuestDistributed(quest_id);
                if let Some(value) = get_persistent(env, &key) {
                    sum += read::<i128>(env, &value);
                }
            }
            sum
        });
        assert_eq!(funded, pools + distributed);
        assert_eq!(distributed, spent);
        assert_eq!(distributed, f.earned(&f.enrollee));
        assert_eq!(f.balance(&f.rewards), pools);
    };
    balanced();
    assert_eq!(f.fund(&f.owner, 1, 1_000), Ok(()));
    balanced();
    assert_eq!(f.fund(&f.owner, 2, 600), Ok(()));
    balanced();
    f.complete(1, 1, 150);
    f.complete(1, 2, 50);
    f.complete(2, 1, 60);
    assert_eq!(f.distribute(2, 1, 60), Ok(()));
    balanced();
    assert_eq!(f.claim(1, &[1, 2]), Ok(200));
    balanced();
    f.close();
    f.milestones.borrow_mut().reserved = 500;
    assert_eq!(f.refund(1, 300), Ok(()));
    balanced();
    assert_eq!(f.refund_unused(1), Ok(200));
    balanced();
    assert_eq!(f.pool(1), 300);
    assert_eq!(f.fund(&f.owner, 1, 5), Ok(()));
    balanced();
    assert_eq!(f.stats().0, 2);
}

// ---------------------------------------------------------------------------
// Claims
// ---------------------------------------------------------------------------

#[test]
fn a_claim_pays_every_milestone() {
    let f = Fixture::new(10_000);
    assert_eq!(f.fund(&f.owner, 4, 1_000), Ok(()));
    f.complete(4, 1, 100);
    f.complete(4, 2, 250);
    f.complete(4, 3, 50);
    assert_eq!(f.claim(4, &[3, 1, 2]), Ok(400));
    let env = &f.env;
    assert!(f.published(std::vec![
        (f.topic("reward_distributed"), (4u32, 3u32, &f.enrollee, 50i128).into_val(env)),
        (f.topic("reward_distributed"), (4u32, 1u32, &f.enrollee, 100i128).into_val(env)),
        (f.topic("reward_distributed"), (4u32, 2u32, &f.enrollee, 250i128).into_val(env)),
    ]));
    assert_eq!(f.pool(4), 600);
    assert_eq!(f.earned(&f.enrollee), 400);
    assert_eq!(f.stats(), (1, 1_000, 400));
    assert_eq!(f.balance(&f.enrollee), 400);
    assert_eq!(f.claim(4, &[2]), Err(RewardsErrorEnum::AlreadyPaid.code()));
    assert_eq!(f.distribute(4, 2, 250), Err(RewardsErrorEnum::AlreadyPaid.code()));
    // The amount stays on record.
    let record = f.inside(|env| {
        let key = DataKey::PayoutRecord(4, 2, f.enrollee.clone());
        get_persistent(env, &key).map(|value| read::<i128>(env, &value))
    });
    assert_eq!(record, Some(250));
}

#[test]
fn a_claim_is_paid_as_a_whole_or_not_at_all() {
    let f = Fixture::new(10_000);
    assert_eq!(f.fund(&f.owner, 4, 1_000), Ok(()));
    f.complete(4, 1, 100);
    assert_eq!(f.claim(4, &[1, 2]), Err(RewardsErrorEnum::MilestoneNotCompleted.code()));
    assert_eq!(f.pool(4), 1_000);
    assert_eq!(f.earned(&f.enrollee), 0);
    assert_eq!(f.balance(&f.enrollee), 0);
    f.complete(4, 2, 901);
    assert_eq!(f.claim(4, &[1, 2]), Err(RewardsErrorEnum::InsufficientPool.code()));
    assert_eq!(f.pool(4), 1_000);
    assert_eq!(f.claim(4, &[1]), Ok(100));
}

#[test]
fn a_claim_names_no_milestone_twice() {
    let f = Fixture::new(10_000);
    assert_eq!(f.fund(&f.owner, 4, 1_000), Ok(()));
    f.complete(4, 1, 100);
    f.complete(4, 2, 100);
    assert_eq!(f.claim(4, &[1, 2, 1]), Err(RewardsErrorEnum::InvalidInput.code()));
    assert_eq!(f.claim(4, &[1, 2]), Ok(200));
}

#[test]
fn a_claim_is_of_numbers() {
    let f = Fixture::new(10_000);
    assert_eq!(f.fund(&f.owner, 4, 1_000), Ok(()));
    f.complete(4, 1, 100);
    let mixed: Vec<Val> = (1u32, true).into_val(&f.env);
    let claim: Result<i128, u32> =
        f.call("claim_batch", (&f.enrollee, 4u32, mixed).into_val(&f.env));
    assert_eq!(claim, Err(RewardsErrorEnum::InvalidInput.code()));
}

#[test]
fn a_claim_has_a_largest_size() {
    let f = Fixture::new(10_000);
    assert_eq!(f.fund(&f.owner, 4, 1_000), Ok(()));
    let too_large = Err(RewardsErrorEnum::BatchTooLarge.code());
    assert_eq!(f.claim(4, &[]), too_large);
    let mut ids: std::vec::Vec<u32> = std::vec::Vec::new();
    for id in 0..20 {
        f.complete(4, id, 3);
        ids.push(id);
    }
    ids.push(20);
    f.complete(4, 20, 3);
    assert_eq!(f.claim(4, &ids), too_large);
    assert_eq!(f.claim(4, &ids[..20]), Ok(60));
}

#[test]
fn a_claim_needs_a_funded_quest() {
    let f = Fixture::new(10_000);
    f.complete(4, 1, 100);
    assert_eq!(f.claim(4, &[1]), Err(RewardsErrorEnum::QuestNotFunded.code()));
}

#[test]
fn a_claim_needs_a_standing() {
    let f = Fixture::new(10_000);
    assert_eq!(f.fund(&f.owner, 4, 1_000), Ok(()));
    f.complete(4, 1, 100);
    f.quests.borrow_mut().standing = 1;
    assert_eq!(f.claim(4, &[1]), Err(RewardsErrorEnum::UserSuspended.code()));
    f.quests.borrow_mut().standing = 3;
    assert_eq!(f.claim(4, &[1]), Err(RewardsErrorEnum::QuestLookupFailed.code()));
    f.quests.borrow_mut().standing = 2;
    assert_eq!(f.claim(4, &[1]), Ok(100));
}

#[test]
fn a_claim_takes_a_reward_that_can_be_paid() {
    let f = Fixture::new(10_000);
    assert_eq!(f.fund(&f.owner, 4, 1_000), Ok(()));
    f.milestones.borrow_mut().completed.push((4, 1, f.enrollee.clone()));
    assert_eq!(f.claim(4, &[1]), Err(RewardsErrorEnum::NotFound.code()));
    f.complete(4, 2, 0);
    f.complete(4, 3, -1);
    f.complete(4, 5, 1_000_000_000_000_001);
    let invalid = Err(RewardsErrorEnum::InvalidAmount.code());
    assert_eq!(f.claim(4, &[2]), invalid);
    assert_eq!(f.claim(4, &[3]), invalid);
    assert_eq!(f.claim(4, &[5]), invalid);
}

// ---------------------------------------------------------------------------
// Refunds
// ---------------------------------------------------------------------------

#[test]
fn a_refund_of_an_archived_quest_waits_for_the_grace_period() {
    let f = Fixture::new(10_000);
    assert_eq!(f.fund(&f.owner, 1, 1_000), Ok(()));
    assert_eq!(f.refund(1, 10), Err(RewardsErrorEnum::QuestNotArchived.code()));
    assert_eq!(f.refund_unused(1), Err(RewardsErrorEnum::QuestNotArchived.code()));
    f.archive(1_000);
    f.at(1_000 + GRACE - 1);
    assert_eq!(f.refund(1, 10), Err(RewardsErrorEnum::RefundWindowNotOpen.code()));
    assert_eq!(f.refund_unused(1), Err(RewardsErrorEnum::RefundWindowNotOpen.code()));
    f.at(1_000 + GRACE);
    assert_eq!(f.refund(1, 10), Ok(()));
    assert_eq!(f.refund_unused(1), Ok(990));
    assert_eq!(f.balance(&f.owner), 10_000);
}

#[test]
fn a_refund_counts_and_is_announced() {
    let f = Fixture::new(10_000);
    assert_eq!(f.fund(&f.owner, 1, 1_000), Ok(()));
    f.close();
    assert_eq!(f.refund(1, 400), Ok(()));
    let data = (1u32, &f.owner, 400i128).into_val(&f.env);
    assert!(f.published(std::vec![(f.topic("reward_refunded"), data)]));
    assert_eq!(f.pool(1), 600);
    assert_eq!(f.refunded(1), 400);
    assert_eq!(f.stats(), (1, 600, 0));
    assert_eq!(f.balance(&f.owner), 9_400);
    assert_eq!(f.refund_unused(1), Ok(600));
    let data = (1u32, &f.owner, 600i128).into_val(&f.env);
    assert!(f.published(std::vec![(f.topic("reward_refunded"), data)]));
    assert_eq!(f.refunded(1), 1_000);
    assert_eq!(f.refunded(2), 0);
    assert_eq!(f.stats(), (1, 0, 0));
    assert_eq!(f.pool(1), 0);
    assert_eq!(f.balance(&f.rewards), 0);
}

#[test]
fn a_refund_leaves_what_is_owed() {
    let f = Fixture::new(10_000);
    assert_eq!(f.fund(&f.owner, 1, 1_000), Ok(()));
    f.complete(1, 1, 100);
    assert_eq!(f.distribute(1, 1, 100), Ok(()));
    f.milestones.borrow_mut().reserved = 350;
    f.close();
    // 900 in the pool, 250 of them owed.
    assert_eq!(f.refund(1, 651), Err(RewardsErrorEnum::InsufficientPool.code()));
    assert_eq!(f.refund(1, 600), Ok(()));
    assert_eq!(f.refund_unused(1), Ok(50));
    assert_eq!(f.pool(1), 250);
    assert_eq!(f.refund_unused(1), Ok(0));
    assert!(f.published(std::vec![]));
    assert_eq!(f.refund(1, 1), Err(RewardsErrorEnum::InsufficientPool.code()));
    assert_eq!(f.stats(), (1, 350, 100));
    // What is owed can still be paid.
    f.complete(1, 2, 250);
    assert_eq!(f.claim(1, &[2]), Ok(250));
}

#[test]
fn refunding_all_is_refunding_that_amount() {
    let one = Fixture::new(10_000);
    let other = Fixture::new(10_000);
    for f in [&one, &other] {
        assert_eq!(f.fund(&f.owner, 1, 1_000), Ok(()));
        f.milestones.borrow_mut().reserved = 120;
        f.close();
    }
    assert_eq!(one.refund_unused(1), Ok(880));
    assert_eq!(other.refund(1, 880), Ok(()));
    assert_eq!(one.pool(1), other.pool(1));
    assert_eq!(one.refunded(1), other.refunded(1));
    assert_eq!(one.stats(), other.stats());
}

#[test]
fn a_refund_takes_the_authority_only() {
    let f = Fixture::new(10_000);
    f.close();
    assert_eq!(f.refund(1, 5), Err(RewardsErrorEnum::QuestNotFunded.code()));
    assert_eq!(f.refund_unused(1), Err(RewardsErrorEnum::QuestNotFunded.code()));
    assert_eq!(f.refund_expired(1), Err(RewardsErrorEnum::QuestNotFunded.code()));
    assert_eq!(f.fund(&f.owner, 1, 1_000), Ok(()));
    let by_other: Result<(), u32> =
        f.call("refund_pool", (&f.enrollee, 1u32, 5i128).into_val(&f.env));
    assert_eq!(by_other, Err(RewardsErrorEnum::Unauthorized.code()));
    let all_by_other: Result<i128, u32> =
        f.call("refund_unused_pool", (&f.enrollee, 1u32).into_val(&f.env));
    assert_eq!(all_by_other, Err(RewardsErrorEnum::Unauthorized.code()));
}

#[test]
fn a_refund_checks_the_amount() {
    let f = Fixture::new(10_000);
    let invalid = Err(RewardsErrorEnum::InvalidAmount.code());
    assert_eq!(f.refund(1, 0), invalid);
    assert_eq!(f.refund(1, -1), invalid);
    assert_eq!(f.refund(1, 1_000_000_000_000_001), invalid);
}

#[test]
fn a_refund_needs_its_contracts() {
    let f = Fixture::new(10_000);
    assert_eq!(f.fund(&f.owner, 1, 1_000), Ok(()));
    f.close();
    f.quests.borrow_mut().found = false;
    assert_eq!(f.refund(1, 5), Err(RewardsErrorEnum::QuestLookupFailed.code()));
    assert_eq!(f.refund_unused(1), Err(RewardsErrorEnum::QuestLookupFailed.code()));
    f.quests.borrow_mut().found = true;
    f.forget(DataKey::TokenAddr);
    let missing = RewardsErrorEnum::NotInitialized.code();
    assert_eq!(f.refund(1, 5), Err(missing));
    assert_eq!(f.refund_unused(1), Err(missing));
    // Nothing to refund takes no token.
    f.milestones.borrow_mut().reserved = 1_000;
    assert_eq!(f.refund_unused(1), Ok(0));
    f.forget(DataKey::MilestoneContractAddr);
    assert_eq!(f.refund_unused(1), Err(missing));
    f.forget(DataKey::QuestContractAddr);
    assert_eq!(f.refund_unused(1), Err(missing));
}

#[test]
fn a_refund_that_overflows_is_taken_back() {
    let f = Fixture::new(10_000);
    assert_eq!(f.fund(&f.owner, 1, 1_000), Ok(()));
    f.close();
    let overflow = RewardsErrorEnum::ArithmeticOverflow.code();
    f.put(DataKey::QuestRefunded(1), i128::MAX);
    assert_eq!(f.refund(1, 5), Err(overflow));
    assert_eq!(f.balance(&f.owner), 9_000);
    assert_eq!(f.pool(1), 1_000);
    f.put(DataKey::QuestRefunded(1), 0);
    f.milestones.borrow_mut().reserved = i128::MIN;
    assert_eq!(f.refund(1, 5), Ok(()));
    f.put(DataKey::QuestDistributed(1), 1);
    assert_eq!(f.refund_unused(1), Err(overflow));
}

#[test]
fn a_refund_never_takes_the_tokens_of_other_quests() {
    let f = Fixture::new(10_000);
    assert_eq!(f.fund(&f.owner, 1, 150), Ok(()));
    assert_eq!(f.fund(&f.owner, 2, 500), Ok(()));
    f.complete(1, 1, 100);
    assert_eq!(f.distribute(1, 1, 100), Ok(()));
    // Nothing is reserved, though 100 were distributed.
    f.close();
    assert_eq!(f.refund(1, 51), Err(RewardsErrorEnum::InsufficientPool.code()));
    assert_eq!(f.refund_unused(1), Ok(50));
    assert_eq!(f.pool(1), 0);
    assert_eq!(f.pool(2), 500);
    assert_eq!(f.balance(&f.rewards), 500);
}

#[test]
fn a_cancelled_quest_is_refunded_by_amount_only() {
    let f = Fixture::new(10_000);
    assert_eq!(f.fund(&f.owner, 1, 1_000), Ok(()));
    f.quests.borrow_mut().status = 2;
    assert_eq!(f.refund_unused(1), Err(RewardsErrorEnum::QuestNotArchived.code()));
    assert_eq!(f.pool(1), 1_000);
    assert_eq!(f.balance(&f.owner), 9_000);
    assert_eq!(f.refund(1, 400), Ok(()));
    assert_eq!(f.pool(1), 600);
}

#[test]
fn what_is_no_contract_is_not_called() {
    let f = Fixture::new(10_000);
    assert_eq!(f.fund(&f.owner, 1, 1_000), Ok(()));
    f.complete(1, 1, 100);
    f.close();
    // The token, as the quest names it too.
    let account = f.account();
    let invalid = RewardsErrorEnum::InvalidToken.code();
    f.put_setting(DataKey::TokenAddr, account.clone());
    f.quests.borrow_mut().token = account.clone();
    assert_eq!(f.fund(&f.owner, 1, 5), Err(invalid));
    assert_eq!(f.distribute(1, 1, 100), Err(invalid));
    assert_eq!(f.claim(1, &[1]), Err(invalid));
    assert_eq!(f.refund(1, 5), Err(invalid));
    assert_eq!(f.refund_unused(1), Err(invalid));
    // What else is wrong with a claim is said first.
    assert_eq!(f.claim(1, &[2]), Err(RewardsErrorEnum::MilestoneNotCompleted.code()));
    assert_eq!(f.claim(1, &[1, 1]), Err(RewardsErrorEnum::InvalidInput.code()));
    f.complete(1, 3, 5_000);
    assert_eq!(f.claim(1, &[3]), Err(RewardsErrorEnum::InsufficientPool.code()));
    // The contract itself is no token either.
    f.put_setting(DataKey::TokenAddr, f.rewards.clone());
    f.quests.borrow_mut().token = f.rewards.clone();
    assert_eq!(f.fund(&f.owner, 1, 5), Err(invalid));
    assert_eq!(f.distribute(1, 1, 100), Err(invalid));
    f.put_setting(DataKey::TokenAddr, f.token.clone());
    f.quests.borrow_mut().token = f.token.clone();
    // The milestone contract.
    let no_milestones = RewardsErrorEnum::MilestoneContractNotInitialized.code();
    f.put_setting(DataKey::MilestoneContractAddr, account.clone());
    assert_eq!(f.distribute(1, 1, 100), Err(no_milestones));
    assert_eq!(f.claim(1, &[1]), Err(no_milestones));
    assert_eq!(f.refund(1, 5), Err(RewardsErrorEnum::NotInitialized.code()));
    // A suspended user is told so before the milestones are asked about.
    f.quests.borrow_mut().standing = 1;
    assert_eq!(f.claim(1, &[1]), Err(RewardsErrorEnum::UserSuspended.code()));
    f.quests.borrow_mut().standing = 0;
    // A missing quest contract is said first.
    f.forget(DataKey::QuestContractAddr);
    let no_quest = RewardsErrorEnum::QuestContractNotInitialized.code();
    assert_eq!(f.distribute(1, 1, 100), Err(no_quest));
    f.put_setting(DataKey::QuestContractAddr, f.quest.clone());
    f.put_setting(DataKey::MilestoneContractAddr, f.milestone.clone());
    // The quest contract.
    let not_found = RewardsErrorEnum::QuestLookupFailed.code();
    f.put_setting(DataKey::QuestContractAddr, account);
    assert_eq!(f.fund(&f.owner, 1, 5), Err(not_found));
    let no_quests = RewardsErrorEnum::QuestContractNotInitialized.code();
    assert_eq!(f.claim(1, &[1]), Err(no_quests));
    assert_eq!(f.refund(1, 5), Err(not_found));
    assert_eq!(f.refund_unused(1), Err(not_found));
    assert_eq!(f.window(1), (0, 0));
    f.put_setting(DataKey::QuestContractAddr, f.quest.clone());
    assert_eq!(f.window(1), (GRACE, u64::MAX));
    assert_eq!(f.claim(1, &[1]), Ok(100));
}

#[test]
fn an_overflow_leaves_everything_alone() {
    let f = Fixture::new(10_000);
    assert_eq!(f.fund(&f.owner, 1, 1_000), Ok(()));
    f.complete(1, 1, 100);
    f.close();
    f.put_setting(DataKey::TotalFunded, i128::MAX);
    f.put(DataKey::QuestDistributed(1), i128::MAX);
    let overflow = RewardsErrorEnum::ArithmeticOverflow;
    // Within one invocation, before the host takes anything back.
    f.inside(|env| {
        let funded = RewardsContract::get_platform_stats(env);
        let result = RewardsContract::fund_quest(env, f.owner.clone(), 3, 5);
        assert_eq!(result, Err(overflow));
        assert!(get_persistent(env, &DataKey::QuestAuthority(3)).is_none());
        assert_eq!(RewardsContract::get_platform_stats(env), funded);
    });
    f.inside(|env| {
        let ids: Vec<u32> = Vec::from_slice(env, &[1]);
        let result = RewardsContract::claim_batch(env, f.enrollee.clone(), 1, ids);
        assert_eq!(result, Err(overflow));
        let record = DataKey::PayoutRecord(1, 1, f.enrollee.clone());
        assert!(get_persistent(env, &record).is_none());
        assert_eq!(RewardsContract::get_pool_balance(env, 1), 1_000);
    });
    f.inside(|env| {
        let enrollee = f.enrollee.clone();
        let result =
            RewardsContract::distribute_reward(env, f.owner.clone(), 1, 1, enrollee, 100);
        assert_eq!(result, Err(overflow));
        assert_eq!(RewardsContract::get_pool_balance(env, 1), 1_000);
    });
    assert_eq!(f.balance(&f.owner), 9_000);
    assert_eq!(f.balance(&f.enrollee), 0);
}

#[test]
fn a_claim_ends_where_single_payouts_end() {
    let together = Fixture::new(10_000);
    let singly = Fixture::new(10_000);
    let turned = Fixture::new(10_000);
    for f in [&together, &singly, &turned] {
        assert_eq!(f.fund(&f.owner, 4, 1_000), Ok(()));
        f.complete(4, 1, 100);
        f.complete(4, 2, 250);
        f.complete(4, 3, 50);
    }
    assert_eq!(together.claim(4, &[1, 2, 3]), Ok(400));
    assert_eq!(turned.claim(4, &[3, 1, 2]), Ok(400));
    assert_eq!(singly.distribute(4, 2, 250), Ok(()));
    assert_eq!(singly.distribute(4, 3, 50), Ok(()));
    assert_eq!(singly.distribute(4, 1, 100), Ok(()));
    for f in [&together, &singly, &turned] {
        assert_eq!(f.pool(4), 600);
        assert_eq!(f.earned(&f.enrollee), 400);
        assert_eq!(f.stats(), (1, 1_000, 400));
        assert_eq!(f.balance(&f.enrollee), 400);
        assert_eq!(f.balance(&f.rewards), 600);
        for id in 1..4 {
            assert_eq!(f.claim(4, &[id]), Err(RewardsErrorEnum::AlreadyPaid.code()));
        }
    }
}

#[test]
fn the_total_funded_does_not_go_below_zero() {
    let f = Fixture::new(10_000);
    assert_eq!(f.fund(&f.owner, 1, 1_000), Ok(()));
    f.close();
    f.put_setting(DataKey::TotalFunded, 3i128);
    assert_eq!(f.refund(1, 5), Ok(()));
    assert_eq!(f.stats(), (1, 0, 0));
}

#[test]
fn an_expired_quest_is_refunded_whatever_its_status() {
    let f = Fixture::new(10_000);
    assert_eq!(f.fund(&f.owner, 1, 1_000), Ok(()));
    f.milestones.borrow_mut().reserved = 300;
    let not_expired = RewardsErrorEnum::QuestNotExpired.code();
    f.at(5_000);
    assert_eq!(f.refund_expired(1), Err(not_expired));
    f.quests.borrow_mut().deadline = 5_000;
    assert_eq!(f.refund_expired(1), Err(not_expired));
    f.at(5_001);
    assert_eq!(f.refund_expired(1), Err(RewardsErrorEnum::RefundWindowNotOpen.code()));
    f.at(5_000 + GRACE - 1);
    assert_eq!(f.refund_expired(1), Err(RewardsErrorEnum::RefundWindowNotOpen.code()));
    f.at(5_000 + GRACE);
    // The quest is still active.
    assert_eq!(f.refund_unused(1), Err(RewardsErrorEnum::QuestNotArchived.code()));
    assert_eq!(f.refund_expired(1), Ok(700));
    assert_eq!(f.pool(1), 300);
    assert_eq!(f.refunded(1), 700);
    assert_eq!(f.refund_expired(1), Ok(0));
    f.archive(5_000 + GRACE);
    f.milestones.borrow_mut().reserved = 290;
    assert_eq!(f.refund_expired(1), Ok(10));
}

#[test]
fn a_window_past_the_end_of_time_never_opens() {
    let f = Fixture::new(10_000);
    assert_eq!(f.fund(&f.owner, 1, 1_000), Ok(()));
    f.archive(u64::MAX - 5);
    f.at(u64::MAX);
    assert_eq!(f.refund(1, 5), Err(RewardsErrorEnum::RefundWindowNotOpen.code()));
    assert_eq!(f.window(1), (u64::MAX, u64::MAX));
}

#[test]
fn the_refund_window_follows_the_status() {
    let f = Fixture::bare();
    assert_eq!(f.window(1), (0, 0));
    assert_eq!(f.initialize(), Ok(()));
    assert_eq!(f.window(1), (0, 0));
    f.archive(1_000);
    assert_eq!(f.window(1), (1_000 + GRACE, u64::MAX));
    assert_eq!(f.set_grace(&f.admin, DAY), Ok(()));
    assert_eq!(f.window(1), (1_000 + DAY, u64::MAX));
    f.quests.borrow_mut().status = 2;
    assert_eq!(f.window(1), (0, 0));
    f.archive(1_000);
    assert_eq!(f.window(1), (1_000 + DAY, u64::MAX));
    f.quests.borrow_mut().found = false;
    assert_eq!(f.window(1), (0, 0));
}

// ---------------------------------------------------------------------------
// Configuration
// ---------------------------------------------------------------------------

#[test]
fn the_contract_is_set_up_once() {
    let f = Fixture::bare();
    let missing = Err(RewardsErrorEnum::NotInitialized);
    assert_eq!(f.inside(|env| RewardsContract::get_admin(env)), missing);
    assert_eq!(f.inside(|env| RewardsContract::get_token(env)), missing);
    assert_eq!(f.inside(|env| RewardsContract::get_refund_grace_period(env)), GRACE);
    assert_eq!(f.initialize(), Ok(()));
    assert_eq!(f.inside(|env| RewardsContract::get_admin(env)), Ok(f.admin.clone()));
    assert_eq!(f.inside(|env| RewardsContract::get_token(env)), Ok(f.token.clone()));
    assert_eq!(f.inside(|env| RewardsContract::get_refund_grace_period(env)), GRACE);
    assert!(!f.inside(|env| RewardsContract::is_paused(env)));
    assert_eq!(f.stats(), (0, 0, 0));
    assert_eq!(f.initialize(), Err(RewardsErrorEnum::AlreadyInitialized.code()));
    let by_other: Result<(), u32> = f.call(
        "initialize",
        (&f.owner, &f.token, &f.quest, &f.milestone).into_val(&f.env),
    );
    assert_eq!(by_other, Err(RewardsErrorEnum::AlreadyInitialized.code()));
    assert_eq!(f.inside(|env| RewardsContract::get_admin(env)), Ok(f.admin.clone()));
}

#[test]
fn the_grace_period_has_bounds() {
    let f = Fixture::bare();
    assert_eq!(f.set_grace(&f.admin, DAY), Err(RewardsErrorEnum::NotInitialized.code()));
    assert_eq!(f.initialize(), Ok(()));
    assert_eq!(f.set_grace(&f.owner, DAY), Err(RewardsErrorEnum::Unauthorized.code()));
    let invalid = Err(RewardsErrorEnum::InvalidInput.code());
    assert_eq!(f.set_grace(&f.admin, DAY - 1), invalid);
    assert_eq!(f.set_grace(&f.admin, 365 * DAY + 1), invalid);
    assert_eq!(f.inside(|env| RewardsContract::get_refund_grace_period(env)), GRACE);
    assert_eq!(f.set_grace(&f.admin, 365 * DAY), Ok(()));
    assert_eq!(f.inside(|env| RewardsContract::get_refund_grace_period(env)), 365 * DAY);
    assert_eq!(f.set_grace(&f.admin, DAY), Ok(()));
    assert_eq!(f.inside(|env| RewardsContract::get_refund_grace_period(env)), DAY);
}

#[test]
fn a_paused_contract_refuses_everything() {
    let f = Fixture::new(10_000);
    assert_eq!(f.fund(&f.owner, 1, 1_000), Ok(()));
    f.complete(1, 1, 100);
    f.close();
    assert_eq!(f.pause(&f.admin), Ok(()));
    assert!(f.inside(|env| RewardsContract::is_paused(env)));
    assert!(f.inside(|env| is_paused_by_key(env, &DataKey::Paused)));
    let paused = RewardsErrorEnum::Paused.code();
    assert_eq!(f.fund(&f.owner, 1, 1), Err(paused));
    assert_eq!(f.distribute(1, 1, 100), Err(paused));
    assert_eq!(f.claim(1, &[1]), Err(paused));
    assert_eq!(f.refund(1, 5), Err(paused));
    assert_eq!(f.refund_unused(1), Err(paused));
    assert_eq!(f.refund_expired(1), Err(paused));
    assert_eq!(f.set_grace(&f.admin, DAY), Err(paused));
    assert_eq!(f.pool(1), 1_000);
    assert_eq!(f.unpause(&f.admin), Ok(()));
    assert!(!f.inside(|env| RewardsContract::is_paused(env)));
    assert_eq!(f.claim(1, &[1]), Ok(100));
}

#[test]
fn only_the_administrator_pauses() {
    let f = Fixture::bare();
    assert_eq!(f.pause(&f.admin), Err(RewardsErrorEnum::NotInitialized.code()));
    assert_eq!(f.unpause(&f.admin), Err(RewardsErrorEnum::NotInitialized.code()));
    assert_eq!(f.initialize(), Ok(()));
    assert_eq!(f.pause(&f.owner), Err(RewardsErrorEnum::Unauthorized.code()));
    assert_eq!(f.unpause(&f.owner), Err(RewardsErrorEnum::Unauthorized.code()));
    assert!(!f.inside(|env| RewardsContract::is_paused(env)));
}

#[test]
fn only_the_administrator_upgrades() {
    let f = Fixture::bare();
    let hash = f.env.upload(NextStub);
    let upgrade = |who: &Address| -> Result<(), u32> {
        f.call("upgrade", (who, &hash).into_val(&f.env))
    };
    assert_eq!(upgrade(&f.admin), Err(RewardsErrorEnum::NotInitialized.code()));
    assert_eq!(f.initialize(), Ok(()));
    assert_eq!(upgrade(&f.owner), Err(RewardsErrorEnum::Unauthorized.code()));
    assert_eq!(upgrade(&f.admin), Ok(()));
    let version: Result<u32, u32> = f.call("version", Vec::new(&f.env));
    assert_eq!(version, Ok(2));
}

#[test]
fn the_caller_must_authorise() {
    let f = Fixture::new(10_000);
    assert_eq!(f.fund(&f.owner, 1, 1_000), Ok(()));
    // Nobody has authorised anything any more.
    f.env.set_auths(&[]);
    let name = Symbol::new(&f.env, "fund_quest");
    let args: Vec<Val> = (&f.owner, 1u32, 5i128).into_val(&f.env);
    let refused = f.env.try_invoke_contract::<Val, Error>(&f.rewards, &name, args);
    assert!(refused.is_err());
    assert_eq!(f.pool(1), 1_000);
}

// ---------------------------------------------------------------------------
// Entries and events
// ---------------------------------------------------------------------------

#[test]
fn entries_live_for_thirty_days() {
    let f = Fixture::new(10_000);
    assert_eq!(f.fund(&f.owner, 1, 1_000), Ok(()));
    f.complete(1, 1, 100);
    assert_eq!(f.claim(1, &[1]), Ok(100));
    f.inside(|env| {
        assert_eq!(env.storage().instance().get_ttl(), 518_400);
        for key in [
            DataKey::QuestAuthority(1),
            DataKey::QuestPool(1),
            DataKey::QuestDistributed(1),
            DataKey::UserEarnings(f.enrollee.clone()),
            DataKey::PayoutRecord(1, 1, f.enrollee.clone()),
        ] {
            let key = key.to_key(env);
            assert_eq!(env.storage().persistent().get_ttl(&key), 518_400);
        }
    });
}

#[test]
fn an_entry_can_be_given_a_longer_life() {
    let f = Fixture::new(10_000);
    f.put(DataKey::QuestPool(9), 4);
    f.inside(|env| {
        let key = DataKey::QuestPool(9).to_key(env);
        assert!(env.storage().persistent().get_ttl(&key) < 518_400);
        extend_persistent_ttl(env, &DataKey::QuestPool(9));
        assert_eq!(env.storage().persistent().get_ttl(&key), 518_400);
    });
    assert_eq!(f.pool(9), 4);
}

#[test]
fn keys_are_lists_that_start_with_their_name() {
    let f = Fixture::new(10_000);
    assert_eq!(f.fund(&f.owner, 7, 250), Ok(()));
    f.complete(7, 2, 50);
    assert_eq!(f.distribute(7, 2, 50), Ok(()));
    f.inside(|env| {
        let pool_key = (Symbol::new(env, "QuestPool"), 7u32);
        let pool: Option<i128> = env.storage().persistent().get(&pool_key);
        assert_eq!(pool, Some(200));
        let record_key = (Symbol::new(env, "PayoutRecord"), 7u32, 2u32, f.enrollee.clone());
        let record: Option<i128> = env.storage().persistent().get(&record_key);
        assert_eq!(record, Some(50));
        let earned_key = (Symbol::new(env, "UserEarnings"), f.enrollee.clone());
        let earned: Option<i128> = env.storage().persistent().get(&earned_key);
        assert_eq!(earned, Some(50));
        let admin_key = (Symbol::new(env, "Admin"),);
        let admin: Option<Address> = env.storage().instance().get(&admin_key);
        assert_eq!(admin, Some(f.admin.clone()));
    });
}

#[test]
fn entries_can_be_read_by_key() {
    let f = Fixture::new(10_000);
    assert_eq!(f.fund(&f.owner, 7, 250), Ok(()));
    f.inside(|env| {
        let total = get_instance(env, &DataKey::TotalFunded).unwrap();
        assert_eq!(read::<i128>(env, &total), 250);
        assert!(get_instance(env, &DataKey::QuestPool(7)).is_none());
        let pool = get_persistent(env, &DataKey::QuestPool(7)).unwrap();
        assert_eq!(read::<i128>(env, &pool), 250);
        assert!(get_persistent(env, &DataKey::QuestPool(8)).is_none());
    });
}

#[test]
fn an_entry_of_another_kind_reads_as_missing() {
    let f = Fixture::new(10_000);
    f.put_setting(DataKey::Paused, 1u32);
    assert!(!f.inside(|env| RewardsContract::is_paused(env)));
    f.put_setting(DataKey::RefundGracePeriod, true);
    assert_eq!(f.inside(|env| RewardsContract::get_refund_grace_period(env)), GRACE);
}

#[test]
fn a_new_quest_is_announced() {
    let f = Fixture::new(0);
    let name = String::from_str(&f.env, "Rust");
    f.inside(|env| emit_quest_created(env, 12, &f.owner, &name));
    let data = (12u32, &f.owner, &name).into_val(&f.env);
    assert!(f.published(std::vec![(f.topic("quest_created"), data)]));
}

#[test]
fn contracts_and_accounts_are_told_apart() {
    let f = Fixture::bare();
    assert!(is_contract_address(&f.rewards));
    assert!(is_contract_address(&f.token));
    assert!(!is_contract_address(&f.account()));
}

#[test]
fn urls_are_recognised() {
    let f = Fixture::bare();
    let url = |chars: &str| is_valid_url(&String::from_str(&f.env, chars));
    assert!(url("http://a"));
    assert!(url("http://"));
    assert!(url("https://example.org/path"));
    assert!(!url(""));
    assert!(!url("http:/"));
    assert!(!url("ftp://example.org"));
    assert!(!url("https:/example.org"));
    assert!(!url("https://example.org/a b"));
    assert!(!url("https://example.org/\n"));
    assert!(!url("http://a\u{b}"));
    assert!(!url("http://a\u{c}"));
    let mut long = std::string::String::from("https://");
    while long.len() < 2048 {
        long.push('a');
    }
    assert!(url(&long));
    long.push('a');
    assert!(!url(&long));
}
