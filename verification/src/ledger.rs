//! What the entries of the rewards contract mean, and typed access to them.
//!
//! An entry that is missing reads as a default, and so does one that holds a
//! value of another kind than its key stands for.

use soroban_sdk::{Address, Env};
use vstd::prelude::*;

use crate::common::{BUMP, THRESHOLD};
use crate::host::{
    as_address, as_amount, as_count, as_time, host_value, instance_get, instance_set, option_text,
    persistent_extend, persistent_get, persistent_has, persistent_set, world, Value,
};
use crate::keys::{DataKey, IsDataKey, Key};
use crate::model::{Datum, Step, World};

verus! {

/// The refund grace period that holds until another one is set: seven days.
pub const DEFAULT_REFUND_GRACE_PERIOD: u64 = 604_800;

/// The address in a store under a key.
pub open spec fn address_in(store: Map<Seq<Datum>, Datum>, key: Key) -> Option<Seq<u8>> {
    if store.contains_key(key.path()) {
        if let Datum::Account(held) = store[key.path()] {
            Some(held)
        } else {
            None
        }
    } else {
        None
    }
}

/// The amount in a store under a key; 0 where there is none.
pub open spec fn amount_in(store: Map<Seq<Datum>, Datum>, key: Key) -> i128 {
    if store.contains_key(key.path()) {
        if let Datum::Amount(held) = store[key.path()] {
            held
        } else {
            0
        }
    } else {
        0
    }
}

/// The number in a store under a key; 0 where there is none.
pub open spec fn count_in(store: Map<Seq<Datum>, Datum>, key: Key) -> u32 {
    if store.contains_key(key.path()) {
        if let Datum::Count(held) = store[key.path()] {
            held
        } else {
            0
        }
    } else {
        0
    }
}

/// The time in a store under a key; the given one where there is none.
pub open spec fn time_in(store: Map<Seq<Datum>, Datum>, key: Key, otherwise: u64) -> u64 {
    if store.contains_key(key.path()) {
        if let Datum::Time(held) = store[key.path()] {
            held
        } else {
            otherwise
        }
    } else {
        otherwise
    }
}

/// Whether a store holds the flag `true` under a path.
pub open spec fn flag_in(store: Map<Seq<Datum>, Datum>, path: Seq<Datum>) -> bool {
    store.contains_key(path) && store[path] == Datum::Flag(true)
}

impl World {
    /// Whether the contract is paused.
    pub open spec fn paused(self) -> bool {
        flag_in(self.instance, Key::Paused.path())
    }

    /// The administrator.
    pub open spec fn admin(self) -> Option<Seq<u8>> {
        address_in(self.instance, Key::Admin)
    }

    /// The reward token.
    pub open spec fn token(self) -> Option<Seq<u8>> {
        address_in(self.instance, Key::TokenAddr)
    }

    /// The quest contract.
    pub open spec fn quest_contract(self) -> Option<Seq<u8>> {
        address_in(self.instance, Key::QuestContractAddr)
    }

    /// The milestone contract.
    pub open spec fn milestone_contract(self) -> Option<Seq<u8>> {
        address_in(self.instance, Key::MilestoneContractAddr)
    }

    /// All that was distributed.
    pub open spec fn total_distributed(self) -> i128 {
        amount_in(self.instance, Key::TotalDistributed)
    }

    /// All that was funded, less what was refunded.
    pub open spec fn total_funded(self) -> i128 {
        amount_in(self.instance, Key::TotalFunded)
    }

    /// The number of quests funded at least once.
    pub open spec fn quest_count(self) -> u32 {
        count_in(self.instance, Key::QuestCount)
    }

    /// The refund grace period, in seconds.
    pub open spec fn grace_period(self) -> u64 {
        time_in(self.instance, Key::RefundGracePeriod, DEFAULT_REFUND_GRACE_PERIOD)
    }

    /// Who controls the pool of a quest.
    pub open spec fn authority(self, quest_id: u32) -> Option<Seq<u8>> {
        address_in(self.persistent, Key::QuestAuthority(quest_id))
    }

    /// The tokens in the pool of a quest.
    pub open spec fn pool(self, quest_id: u32) -> i128 {
        amount_in(self.persistent, Key::QuestPool(quest_id))
    }

    /// All that a user has earned.
    pub open spec fn earnings(self, user: Seq<u8>) -> i128 {
        amount_in(self.persistent, Key::UserEarnings(user))
    }

    /// All that was distributed for a quest.
    pub open spec fn distributed(self, quest_id: u32) -> i128 {
        amount_in(self.persistent, Key::QuestDistributed(quest_id))
    }

    /// All that was refunded for a quest.
    pub open spec fn refunded(self, quest_id: u32) -> i128 {
        amount_in(self.persistent, Key::QuestRefunded(quest_id))
    }

    /// Whether a payout is on record for a quest, a milestone and an enrollee.
    pub open spec fn paid(self, quest_id: u32, milestone_id: u32, enrollee: Seq<u8>) -> bool {
        self.persistent.contains_key(Key::PayoutRecord(quest_id, milestone_id, enrollee).path())
    }

    /// The world after a persistent entry was written and its lifetime extended.
    pub open spec fn keep(self, key: Key, value: Datum) -> World {
        self.set_persistent(key.path(), value).note(
            Step::PersistentExtended { key: key.path(), threshold: THRESHOLD, extend_to: BUMP },
        )
    }

    /// The world after an instance entry was written.
    pub open spec fn configure(self, key: Key, value: Datum) -> World {
        self.set_instance(key.path(), value)
    }

    /// The world after the lifetime of the instance was extended.
    pub open spec fn extend_instance(self) -> World {
        self.note(Step::InstanceExtended { threshold: THRESHOLD, extend_to: BUMP })
    }
}

/// Reads an address from the instance store.
pub(crate) fn instance_address(env: &Env, key: &DataKey) -> (found: Option<Address>)
    ensures
        option_text(found) == address_in(world(*env).instance, key@),
{
    match instance_get(env, &key.to_key(env)) {
        Some(value) => as_address(env, &value),
        None => None,
    }
}

/// Reads an amount from the instance store.
pub(crate) fn instance_amount(env: &Env, key: &DataKey) -> (amount: i128)
    ensures
        amount == amount_in(world(*env).instance, key@),
{
    match instance_get(env, &key.to_key(env)) {
        Some(value) => as_amount(env, &value).unwrap_or(0),
        None => 0,
    }
}

/// Reads a number from the instance store.
pub(crate) fn instance_count(env: &Env, key: &DataKey) -> (count: u32)
    ensures
        count == count_in(world(*env).instance, key@),
{
    match instance_get(env, &key.to_key(env)) {
        Some(value) => as_count(env, &value).unwrap_or(0),
        None => 0,
    }
}

/// Reads a time from the instance store.
pub(crate) fn instance_time(env: &Env, key: &DataKey, otherwise: u64) -> (time: u64)
    ensures
        time == time_in(world(*env).instance, key@, otherwise),
{
    match instance_get(env, &key.to_key(env)) {
        Some(value) => as_time(env, &value).unwrap_or(otherwise),
        None => otherwise,
    }
}

/// Writes an entry of the instance store.
pub(crate) fn configure(env: &mut Env, key: &DataKey, value: &Value)
    requires
        !(value is Symbol),
    ensures
        world(*final(env)) == world(*old(env)).configure(key@, value@),
{
    let path = key.to_key(env);
    let made = host_value(env, value);
    instance_set(env, &path, &made)
}

/// Reads an address from the persistent store.
pub(crate) fn persistent_address(env: &Env, key: &DataKey) -> (found: Option<Address>)
    ensures
        option_text(found) == address_in(world(*env).persistent, key@),
{
    match persistent_get(env, &key.to_key(env)) {
        Some(value) => as_address(env, &value),
        None => None,
    }
}

/// Reads an amount from the persistent store.
pub(crate) fn persistent_amount(env: &Env, key: &DataKey) -> (amount: i128)
    ensures
        amount == amount_in(world(*env).persistent, key@),
{
    match persistent_get(env, &key.to_key(env)) {
        Some(value) => as_amount(env, &value).unwrap_or(0),
        None => 0,
    }
}

/// Whether the persistent store has an entry.
pub(crate) fn is_kept(env: &Env, key: &DataKey) -> (found: bool)
    ensures
        found == world(*env).persistent.contains_key(key@.path()),
{
    persistent_has(env, &key.to_key(env))
}

/// Writes an entry of the persistent store and extends its lifetime.
pub(crate) fn keep(env: &mut Env, key: &DataKey, value: &Value)
    requires
        !(value is Symbol),
    ensures
        world(*final(env)) == world(*old(env)).keep(key@, value@),
{
    let path = key.to_key(env);
    let made = host_value(env, value);
    persistent_set(env, &path, &made);
    persistent_extend(env, &path, THRESHOLD, BUMP)
}

} // verus!
