//! The rewards contract: its configuration and what it gives to read.

use soroban_sdk::{Address, BytesN, Env};
use vstd::prelude::*;

use crate::common::{extend_instance_ttl, is_callable, is_paused_by_key};
use crate::errors::RewardsErrorEnum;
use crate::host::{
    address_text, hash_bytes, instance_has, replace_code, require_auth, same_address, world, Value,
};
use crate::keys::{DataKey, IsDataKey, Key};
use crate::ledger::{
    configure, instance_address, instance_amount, instance_count, instance_time, persistent_amount,
    DEFAULT_REFUND_GRACE_PERIOD,
};
use crate::model::{Datum, Step, World};
use crate::rules::{is_settable_grace_period, settable_grace_period};

verus! {

/// The rewards contract: it holds a pool of tokens for each quest and pays
/// rewards out of it.
///
/// The owner of a quest deposits tokens into its pool. When a milestone is
/// completed, the tokens go from the pool to the enrollee.
pub struct RewardsContract;

/// Whether a configured address was found, or the right error given.
pub open spec fn found_address(
    result: Result<Address, RewardsErrorEnum>,
    held: Option<Seq<u8>>,
) -> bool {
    match result {
        Ok(address) => held == Some(address_text(address)),
        Err(error) => held is None && error == RewardsErrorEnum::NotInitialized,
    }
}

/// Whether someone may do what only the administrator may.
pub open spec fn admin_verdict(w: World, who: Seq<u8>) -> Result<(), RewardsErrorEnum> {
    match w.admin() {
        None => Err(RewardsErrorEnum::NotInitialized),
        Some(admin) => if admin == who {
            Ok(())
        } else {
            Err(RewardsErrorEnum::Unauthorized)
        },
    }
}

/// Whether someone may set a refund grace period.
pub open spec fn grace_period_verdict(w: World, who: Seq<u8>, seconds: u64) -> Result<
    (),
    RewardsErrorEnum,
> {
    if w.paused() {
        Err(RewardsErrorEnum::Paused)
    } else if admin_verdict(w, who) is Err {
        admin_verdict(w, who)
    } else if !settable_grace_period(seconds) {
        Err(RewardsErrorEnum::InvalidInput)
    } else {
        Ok(())
    }
}

/// Whether the contract was set up before.
pub open spec fn initialized(w: World) -> bool {
    w.instance.contains_key(Key::TokenAddr.path())
}

impl World {
    /// The world after the contract was set up.
    pub open spec fn initialize(
        self,
        admin: Seq<u8>,
        token: Seq<u8>,
        quest_contract: Seq<u8>,
        milestone_contract: Seq<u8>,
    ) -> World {
        self.configure(Key::Admin, Datum::Account(admin)).configure(
            Key::TokenAddr,
            Datum::Account(token),
        ).configure(Key::QuestContractAddr, Datum::Account(quest_contract)).configure(
            Key::MilestoneContractAddr,
            Datum::Account(milestone_contract),
        ).configure(Key::TotalDistributed, Datum::Amount(0)).configure(
            Key::RefundGracePeriod,
            Datum::Time(DEFAULT_REFUND_GRACE_PERIOD),
        ).configure(Key::Paused, Datum::Flag(false)).extend_instance()
    }
}

/// Whether the contract was set up as it has to be.
pub open spec fn initialize_run(
    before: World,
    after: World,
    result: Result<(), RewardsErrorEnum>,
    admin: Seq<u8>,
    token: Seq<u8>,
    quest_contract: Seq<u8>,
    milestone_contract: Seq<u8>,
) -> bool {
    let authorized = before.note(Step::Authorized { who: admin });
    if initialized(before) {
        &&& result == Err::<(), RewardsErrorEnum>(RewardsErrorEnum::AlreadyInitialized)
        &&& after == authorized
    } else {
        &&& result == Ok::<(), RewardsErrorEnum>(())
        &&& after == authorized.initialize(admin, token, quest_contract, milestone_contract)
    }
}

/// Whether the code was replaced as it has to be.
pub open spec fn upgrade_run(
    before: World,
    after: World,
    result: Result<(), RewardsErrorEnum>,
    admin: Seq<u8>,
    hash: Seq<u8>,
) -> bool {
    let authorized = before.note(Step::Authorized { who: admin });
    &&& result == admin_verdict(before, admin)
    &&& after == (if result is Ok {
        authorized.note(Step::CodeReplaced { hash })
    } else {
        authorized
    })
}

/// Whether the contract was paused or unpaused as it has to be.
pub open spec fn pause_run(
    before: World,
    after: World,
    result: Result<(), RewardsErrorEnum>,
    admin: Seq<u8>,
    paused: bool,
) -> bool {
    let authorized = before.note(Step::Authorized { who: admin });
    &&& result == admin_verdict(before, admin)
    &&& after == (if result is Ok {
        authorized.configure(Key::Paused, Datum::Flag(paused)).extend_instance()
    } else {
        authorized
    })
}

/// Whether the refund grace period was set as it has to be.
pub open spec fn grace_period_run(
    before: World,
    after: World,
    result: Result<(), RewardsErrorEnum>,
    admin: Seq<u8>,
    seconds: u64,
) -> bool {
    let authorized = before.note(Step::Authorized { who: admin });
    &&& result == grace_period_verdict(before, admin, seconds)
    &&& after == (if result is Ok {
        authorized.configure(Key::RefundGracePeriod, Datum::Time(seconds)).extend_instance()
    } else {
        authorized
    })
}

/// Checks that someone is the administrator.
fn check_admin(env: &Env, who: &Address) -> (verdict: Result<(), RewardsErrorEnum>)
    ensures
        verdict == admin_verdict(world(*env), address_text(*who)),
{
    match instance_address(env, &DataKey::Admin) {
        Some(admin) => {
            if same_address(&admin, who) {
                Ok(())
            } else {
                Err(RewardsErrorEnum::Unauthorized)
            }
        },
        None => Err(RewardsErrorEnum::NotInitialized),
    }
}

/// The token that the contract pays, if it can be called, and otherwise why not.
pub open spec fn token_verdict(w: World) -> Result<Seq<u8>, RewardsErrorEnum> {
    match w.token() {
        None => Err(RewardsErrorEnum::NotInitialized),
        Some(token) => if w.can_call(token) {
            Ok(token)
        } else {
            Err(RewardsErrorEnum::InvalidToken)
        },
    }
}

/// Finds the token that the contract pays.
pub(crate) fn find_token(env: &Env) -> (found: Result<Address, RewardsErrorEnum>)
    ensures
        token_verdict(world(*env)) == (match found {
            Ok(address) => Ok::<Seq<u8>, RewardsErrorEnum>(address_text(address)),
            Err(error) => Err(error),
        }),
{
    match RewardsContract::get_token(env) {
        Ok(token) => {
            if is_callable(&token, &env.current_contract_address()) {
                Ok(token)
            } else {
                Err(RewardsErrorEnum::InvalidToken)
            }
        },
        Err(error) => Err(error),
    }
}

/// Pauses or unpauses the contract, at the word of the administrator.
fn set_paused(env: &mut Env, admin: &Address, paused: bool) -> (result: Result<
    (),
    RewardsErrorEnum,
>)
    ensures
        pause_run(world(*old(env)), world(*final(env)), result, address_text(*admin), paused),
{
    require_auth(env, admin);
    if let Err(error) = check_admin(env, admin) {
        return Err(error);
    }
    configure(env, &DataKey::Paused, &Value::Flag(paused));
    extend_instance_ttl(env);
    Ok(())
}

impl RewardsContract {
    /// Sets the contract up, once: who administers it, which token it pays, and
    /// which contracts it asks about quests and about milestones.
    pub fn initialize(
        env: &mut Env,
        admin: Address,
        token_addr: Address,
        quest_contract_addr: Address,
        milestone_contract_addr: Address,
    ) -> (result: Result<(), RewardsErrorEnum>)
        ensures
            initialize_run(
                world(*old(env)),
                world(*final(env)),
                result,
                address_text(admin),
                address_text(token_addr),
                address_text(quest_contract_addr),
                address_text(milestone_contract_addr),
            ),
    {
        require_auth(env, &admin);
        if instance_has(env, &DataKey::TokenAddr.to_key(env)) {
            return Err(RewardsErrorEnum::AlreadyInitialized);
        }
        configure(env, &DataKey::Admin, &Value::Account(&admin));
        configure(env, &DataKey::TokenAddr, &Value::Account(&token_addr));
        configure(env, &DataKey::QuestContractAddr, &Value::Account(&quest_contract_addr));
        configure(env, &DataKey::MilestoneContractAddr, &Value::Account(&milestone_contract_addr));
        configure(env, &DataKey::TotalDistributed, &Value::Amount(0));
        configure(env, &DataKey::RefundGracePeriod, &Value::Time(DEFAULT_REFUND_GRACE_PERIOD));
        configure(env, &DataKey::Paused, &Value::Flag(false));
        extend_instance_ttl(env);
        Ok(())
    }

    /// The address of the administrator.
    pub fn get_admin(env: &Env) -> (admin: Result<Address, RewardsErrorEnum>)
        ensures
            found_address(admin, world(*env).admin()),
    {
        match instance_address(env, &DataKey::Admin) {
            Some(address) => Ok(address),
            None => Err(RewardsErrorEnum::NotInitialized),
        }
    }

    /// Replaces the code of the contract. Administrator only.
    pub fn upgrade(env: &mut Env, admin: Address, new_wasm_hash: BytesN<32>) -> (result: Result<
        (),
        RewardsErrorEnum,
    >)
        ensures
            upgrade_run(
                world(*old(env)),
                world(*final(env)),
                result,
                address_text(admin),
                hash_bytes(new_wasm_hash),
            ),
    {
        require_auth(env, &admin);
        let stored = match Self::get_admin(env) {
            Ok(address) => address,
            Err(error) => return Err(error),
        };
        if !same_address(&stored, &admin) {
            return Err(RewardsErrorEnum::Unauthorized);
        }
        replace_code(env, new_wasm_hash);
        Ok(())
    }

    /// The tokens in the pool of a quest.
    pub fn get_pool_balance(env: &Env, quest_id: u32) -> (balance: i128)
        ensures
            balance == world(*env).pool(quest_id),
    {
        persistent_amount(env, &DataKey::QuestPool(quest_id))
    }

    /// All that a user has earned, over all quests.
    pub fn get_user_earnings(env: &Env, user: Address) -> (earnings: i128)
        ensures
            earnings == world(*env).earnings(address_text(user)),
    {
        persistent_amount(env, &DataKey::UserEarnings(user))
    }

    /// All that a user has earned, over all quests.
    pub fn get_user_total(env: &Env, user: Address) -> (earnings: i128)
        ensures
            earnings == world(*env).earnings(address_text(user)),
    {
        Self::get_user_earnings(env, user)
    }

    /// All that was distributed.
    pub fn get_total_distributed(env: &Env) -> (total: i128)
        ensures
            total == world(*env).total_distributed(),
    {
        instance_amount(env, &DataKey::TotalDistributed)
    }

    /// Sets the refund grace period: the time, in seconds, from the archiving of
    /// a quest to its refund. Administrator only, and not while the contract is
    /// paused.
    pub fn set_refund_grace_period(env: &mut Env, admin: Address, grace_period_seconds: u64) -> (result:
        Result<(), RewardsErrorEnum>)
        ensures
            grace_period_run(
                world(*old(env)),
                world(*final(env)),
                result,
                address_text(admin),
                grace_period_seconds,
            ),
    {
        require_auth(env, &admin);
        if Self::is_paused(env) {
            return Err(RewardsErrorEnum::Paused);
        }
        if let Err(error) = check_admin(env, &admin) {
            return Err(error);
        }
        if !is_settable_grace_period(grace_period_seconds) {
            return Err(RewardsErrorEnum::InvalidInput);
        }
        configure(env, &DataKey::RefundGracePeriod, &Value::Time(grace_period_seconds));
        extend_instance_ttl(env);
        Ok(())
    }

    /// The refund grace period, in seconds.
    pub fn get_refund_grace_period(env: &Env) -> (seconds: u64)
        ensures
            seconds == world(*env).grace_period(),
    {
        instance_time(env, &DataKey::RefundGracePeriod, DEFAULT_REFUND_GRACE_PERIOD)
    }

    /// Pauses the contract. Administrator only.
    pub fn pause(env: &mut Env, admin: Address) -> (result: Result<(), RewardsErrorEnum>)
        ensures
            pause_run(world(*old(env)), world(*final(env)), result, address_text(admin), true),
    {
        set_paused(env, &admin, true)
    }

    /// Unpauses the contract. Administrator only.
    pub fn unpause(env: &mut Env, admin: Address) -> (result: Result<(), RewardsErrorEnum>)
        ensures
            pause_run(world(*old(env)), world(*final(env)), result, address_text(admin), false),
    {
        set_paused(env, &admin, false)
    }

    /// Whether the contract is paused.
    pub fn is_paused(env: &Env) -> (paused: bool)
        ensures
            paused == world(*env).paused(),
    {
        is_paused_by_key(env, &DataKey::Paused)
    }

    /// The address of the reward token.
    pub fn get_token(env: &Env) -> (token: Result<Address, RewardsErrorEnum>)
        ensures
            found_address(token, world(*env).token()),
    {
        match instance_address(env, &DataKey::TokenAddr) {
            Some(address) => Ok(address),
            None => Err(RewardsErrorEnum::NotInitialized),
        }
    }

    /// The number of quests funded at least once, all that was funded (less
    /// what was refunded), and all that was distributed.
    pub fn get_platform_stats(env: &Env) -> (stats: (u32, i128, i128))
        ensures
            stats == (
                world(*env).quest_count(),
                world(*env).total_funded(),
                world(*env).total_distributed(),
            ),
    {
        (
            instance_count(env, &DataKey::QuestCount),
            instance_amount(env, &DataKey::TotalFunded),
            instance_amount(env, &DataKey::TotalDistributed),
        )
    }
}

} // verus!
