//! The keys under which the contract keeps its entries.

use soroban_sdk::{Address, Env, Val};
use vstd::prelude::*;

use crate::host::{address_text, host_value, list_items, new_list, push_value, Value};
use crate::model::{key_path, symbol_text, Datum};

verus! {

/// Types that can be used as storage keys.
pub trait IsDataKey {
    /// The key as the ledger holds it: a list of the values that make it up,
    /// each a symbol, a number or an address.
    spec fn path(&self) -> Seq<Datum>;

    /// Makes the key.
    fn to_key(&self, env: &Env) -> (key: soroban_sdk::Vec<Val>)
        ensures
            list_items(key) == self.path(),
            key_path(list_items(key)),
    ;
}

/// The keys of the rewards contract.
#[derive(Clone)]
pub enum DataKey {
    TokenAddr,
    QuestContractAddr,
    MilestoneContractAddr,
    /// Who funded, and so controls, the pool of a quest.
    QuestAuthority(u32),
    /// The tokens allocated to a quest.
    QuestPool(u32),
    /// All that a user has earned.
    UserEarnings(Address),
    /// All that was ever distributed.
    TotalDistributed,
    /// All that was ever funded, less what was refunded.
    TotalFunded,
    /// The number of quests funded at least once.
    QuestCount,
    /// All that was distributed for a quest.
    QuestDistributed(u32),
    /// All that was refunded for a quest.
    QuestRefunded(u32),
    /// The payout made for a quest, a milestone and an enrollee.
    PayoutRecord(u32, u32, Address),
    /// The refund grace period, in seconds.
    RefundGracePeriod,
    /// Who may change the configuration.
    Admin,
    /// Whether the contract is paused.
    Paused,
}

/// A [`DataKey`] with its address by text.
pub enum Key {
    TokenAddr,
    QuestContractAddr,
    MilestoneContractAddr,
    QuestAuthority(u32),
    QuestPool(u32),
    UserEarnings(Seq<u8>),
    TotalDistributed,
    TotalFunded,
    QuestCount,
    QuestDistributed(u32),
    QuestRefunded(u32),
    PayoutRecord(u32, u32, Seq<u8>),
    RefundGracePeriod,
    Admin,
    Paused,
}

impl Key {
    /// The name of the key.
    pub open spec fn name(self) -> Seq<char> {
        match self {
            Key::TokenAddr => "TokenAddr"@,
            Key::QuestContractAddr => "QuestContractAddr"@,
            Key::MilestoneContractAddr => "MilestoneContractAddr"@,
            Key::QuestAuthority(_) => "QuestAuthority"@,
            Key::QuestPool(_) => "QuestPool"@,
            Key::UserEarnings(_) => "UserEarnings"@,
            Key::TotalDistributed => "TotalDistributed"@,
            Key::TotalFunded => "TotalFunded"@,
            Key::QuestCount => "QuestCount"@,
            Key::QuestDistributed(_) => "QuestDistributed"@,
            Key::QuestRefunded(_) => "QuestRefunded"@,
            Key::PayoutRecord(_, _, _) => "PayoutRecord"@,
            Key::RefundGracePeriod => "RefundGracePeriod"@,
            Key::Admin => "Admin"@,
            Key::Paused => "Paused"@,
        }
    }

    /// What follows the name.
    pub open spec fn arguments(self) -> Seq<Datum> {
        match self {
            Key::QuestAuthority(quest_id) => seq![Datum::Count(quest_id)],
            Key::QuestPool(quest_id) => seq![Datum::Count(quest_id)],
            Key::UserEarnings(user) => seq![Datum::Account(user)],
            Key::QuestDistributed(quest_id) => seq![Datum::Count(quest_id)],
            Key::QuestRefunded(quest_id) => seq![Datum::Count(quest_id)],
            Key::PayoutRecord(quest_id, milestone_id, enrollee) => seq![
                Datum::Count(quest_id),
                Datum::Count(milestone_id),
                Datum::Account(enrollee),
            ],
            _ => seq![],
        }
    }

    /// The key as the ledger holds it.
    pub open spec fn path(self) -> Seq<Datum> {
        seq![Datum::Symbol(self.name())] + self.arguments()
    }
}

impl View for DataKey {
    type V = Key;

    open spec fn view(&self) -> Key {
        match *self {
            DataKey::TokenAddr => Key::TokenAddr,
            DataKey::QuestContractAddr => Key::QuestContractAddr,
            DataKey::MilestoneContractAddr => Key::MilestoneContractAddr,
            DataKey::QuestAuthority(quest_id) => Key::QuestAuthority(quest_id),
            DataKey::QuestPool(quest_id) => Key::QuestPool(quest_id),
            DataKey::UserEarnings(user) => Key::UserEarnings(address_text(user)),
            DataKey::TotalDistributed => Key::TotalDistributed,
            DataKey::TotalFunded => Key::TotalFunded,
            DataKey::QuestCount => Key::QuestCount,
            DataKey::QuestDistributed(quest_id) => Key::QuestDistributed(quest_id),
            DataKey::QuestRefunded(quest_id) => Key::QuestRefunded(quest_id),
            DataKey::PayoutRecord(quest_id, milestone_id, enrollee) => Key::PayoutRecord(
                quest_id,
                milestone_id,
                address_text(enrollee),
            ),
            DataKey::RefundGracePeriod => Key::RefundGracePeriod,
            DataKey::Admin => Key::Admin,
            DataKey::Paused => Key::Paused,
        }
    }
}

impl DataKey {
    /// The name of the key.
    fn name(&self) -> (name: &'static str)
        ensures
            name@ == self@.name(),
            symbol_text(name@),
    {
        proof {
            lemma_key_name_is_symbol(self@);
        }
        match self {
            DataKey::TokenAddr => "TokenAddr",
            DataKey::QuestContractAddr => "QuestContractAddr",
            DataKey::MilestoneContractAddr => "MilestoneContractAddr",
            DataKey::QuestAuthority(_) => "QuestAuthority",
            DataKey::QuestPool(_) => "QuestPool",
            DataKey::UserEarnings(_) => "UserEarnings",
            DataKey::TotalDistributed => "TotalDistributed",
            DataKey::TotalFunded => "TotalFunded",
            DataKey::QuestCount => "QuestCount",
            DataKey::QuestDistributed(_) => "QuestDistributed",
            DataKey::QuestRefunded(_) => "QuestRefunded",
            DataKey::PayoutRecord(_, _, _) => "PayoutRecord",
            DataKey::RefundGracePeriod => "RefundGracePeriod",
            DataKey::Admin => "Admin",
            DataKey::Paused => "Paused",
        }
    }
}

impl IsDataKey for DataKey {
    open spec fn path(&self) -> Seq<Datum> {
        self@.path()
    }

    fn to_key(&self, env: &Env) -> (key: soroban_sdk::Vec<Val>) {
        let mut key = new_list(env);
        push_value(&mut key, host_value(env, &Value::Symbol(self.name())));
        match self {
            DataKey::QuestAuthority(quest_id)
            | DataKey::QuestPool(quest_id)
            | DataKey::QuestDistributed(quest_id)
            | DataKey::QuestRefunded(quest_id) => {
                push_value(&mut key, host_value(env, &Value::Count(*quest_id)));
            },
            DataKey::UserEarnings(user) => {
                push_value(&mut key, host_value(env, &Value::Account(user)));
            },
            DataKey::PayoutRecord(quest_id, milestone_id, enrollee) => {
                push_value(&mut key, host_value(env, &Value::Count(*quest_id)));
                push_value(&mut key, host_value(env, &Value::Count(*milestone_id)));
                push_value(&mut key, host_value(env, &Value::Account(enrollee)));
            },
            _ => {},
        }
        proof {
            assert(list_items(key) =~= self@.path());
        }
        key
    }
}

/// The host takes the name of every key for a symbol.
pub proof fn lemma_key_name_is_symbol(key: Key)
    ensures
        symbol_text(key.name()),
{
    reveal_strlit("TokenAddr");
    reveal_strlit("QuestContractAddr");
    reveal_strlit("MilestoneContractAddr");
    reveal_strlit("QuestAuthority");
    reveal_strlit("QuestPool");
    reveal_strlit("UserEarnings");
    reveal_strlit("TotalDistributed");
    reveal_strlit("TotalFunded");
    reveal_strlit("QuestCount");
    reveal_strlit("QuestDistributed");
    reveal_strlit("QuestRefunded");
    reveal_strlit("PayoutRecord");
    reveal_strlit("RefundGracePeriod");
    reveal_strlit("Admin");
    reveal_strlit("Paused");
}

/// The length and the first character of a name tell it from all others.
proof fn lemma_key_names()
    ensures
        forall|key: Key| #[trigger]
            key.name().len() == (match key {
                Key::TokenAddr | Key::QuestPool(_) => 9int,
                Key::QuestContractAddr | Key::RefundGracePeriod => 17,
                Key::MilestoneContractAddr => 21,
                Key::QuestAuthority(_) => 14,
                Key::UserEarnings(_) | Key::PayoutRecord(_, _, _) => 12,
                Key::TotalDistributed | Key::QuestDistributed(_) => 16,
                Key::TotalFunded => 11,
                Key::QuestCount => 10,
                Key::QuestRefunded(_) => 13,
                Key::Admin => 5,
                Key::Paused => 6,
            }),
        forall|key: Key| (#[trigger] key.name())[0] == (match key {
            Key::TokenAddr | Key::TotalDistributed | Key::TotalFunded => 'T',
            Key::MilestoneContractAddr => 'M',
            Key::UserEarnings(_) => 'U',
            Key::PayoutRecord(_, _, _) | Key::Paused => 'P',
            Key::RefundGracePeriod => 'R',
            Key::Admin => 'A',
            _ => 'Q',
        }),
{
    reveal_strlit("TokenAddr");
    reveal_strlit("QuestContractAddr");
    reveal_strlit("MilestoneContractAddr");
    reveal_strlit("QuestAuthority");
    reveal_strlit("QuestPool");
    reveal_strlit("UserEarnings");
    reveal_strlit("TotalDistributed");
    reveal_strlit("TotalFunded");
    reveal_strlit("QuestCount");
    reveal_strlit("QuestDistributed");
    reveal_strlit("QuestRefunded");
    reveal_strlit("PayoutRecord");
    reveal_strlit("RefundGracePeriod");
    reveal_strlit("Admin");
    reveal_strlit("Paused");
}

/// Two keys that the ledger holds alike are the same key.
pub broadcast proof fn lemma_path_injective(a: Key, b: Key)
    ensures
        (#[trigger] a.path() == #[trigger] b.path()) ==> a == b,
{
    if a.path() == b.path() {
        lemma_key_names();
        assert(a.path()[0] == Datum::Symbol(a.name()));
        assert(b.path()[0] == Datum::Symbol(b.name()));
        assert(a.arguments() =~= a.path().subrange(1, a.path().len() as int));
        assert(b.arguments() =~= b.path().subrange(1, b.path().len() as int));
        assert(a.name() == b.name());
        assert(a.name().len() == b.name().len());
        assert(a.name()[0] == b.name()[0]);
        assert(a.arguments() == b.arguments());
        assert(a.arguments().len() == b.arguments().len());
        match a {
            Key::QuestAuthority(_)
            | Key::QuestPool(_)
            | Key::UserEarnings(_)
            | Key::QuestDistributed(_)
            | Key::QuestRefunded(_) => {
                assert(a.arguments()[0] == b.arguments()[0]);
            },
            Key::PayoutRecord(_, _, _) => {
                assert(a.arguments()[0] == b.arguments()[0]);
                assert(a.arguments()[1] == b.arguments()[1]);
                assert(a.arguments()[2] == b.arguments()[2]);
            },
            _ => {},
        }
    }
}

} // verus!
