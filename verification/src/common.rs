//! What the contracts of the platform share: limits, error codes, the records
//! that they exchange, and the events that they publish.

use soroban_sdk::{Address, Env, Val};
use vstd::prelude::*;

use crate::host::{
    address_text, as_flag, bytes_of, data_of, host_value, instance_entries, instance_extend,
    instance_get, list_items, new_list, persistent_entries, persistent_extend, persistent_get,
    publish, push_value, same_address, text_bytes, text_items, world, Value,
};
use crate::keys::IsDataKey;
use crate::ledger::flag_in;
use crate::model::{symbol_text, Datum, Step, World};

verus! {

/// Target lifetime of the entries, in ledgers: about 30 days.
pub const BUMP: u32 = 518_400;

/// Remaining lifetime, in ledgers, at which an entry is extended to [`BUMP`]:
/// about 7 days.
pub const THRESHOLD: u32 = 120_960;

/// Upper bound on any single reward amount, in raw token units.
pub const MAX_REWARD_AMOUNT: i128 = 1_000_000_000_000_000;

/// Bounds of the quest fields.
pub const MIN_QUEST_NAME_LEN: u32 = 1;

pub const MAX_QUEST_NAME_LEN: u32 = 64;

pub const MIN_QUEST_DESCRIPTION_LEN: u32 = 1;

pub const MAX_QUEST_DESCRIPTION_LEN: u32 = 2000;

/// The requested entity does not exist.
pub const ERR_NOT_FOUND: u32 = 1;

/// The caller is not authorized to perform this action.
pub const ERR_UNAUTHORIZED: u32 = 2;

/// One or more inputs failed validation.
pub const ERR_INVALID_INPUT: u32 = 3;

/// The contract is administratively paused.
pub const ERR_PAUSED: u32 = 400;

/// The description of an error code.
pub open spec fn error_text(code: u32) -> Seq<char> {
    if code == ERR_NOT_FOUND {
        "entity not found"@
    } else if code == ERR_UNAUTHORIZED {
        "unauthorized"@
    } else if code == ERR_INVALID_INPUT {
        "invalid input"@
    } else if code == ERR_PAUSED {
        "contract is paused"@
    } else {
        "unknown error"@
    }
}

/// A description, for people, of one of the shared error codes.
pub fn error_info(code: u32) -> (info: &'static str)
    ensures
        info@ == error_text(code),
{
    if code == ERR_NOT_FOUND {
        "entity not found"
    } else if code == ERR_UNAUTHORIZED {
        "unauthorized"
    } else if code == ERR_INVALID_INPUT {
        "invalid input"
    } else if code == ERR_PAUSED {
        "contract is paused"
    } else {
        "unknown error"
    }
}

/// Who can see a quest.
#[derive(Clone, Copy, Debug, PartialEq, Eq, Structural)]
pub enum Visibility {
    Public,
    Private,
}

impl Visibility {
    /// The visibility that a number on the ledger stands for.
    pub open spec fn of_code(code: u32) -> Option<Visibility> {
        if code == 0 {
            Some(Visibility::Public)
        } else if code == 1 {
            Some(Visibility::Private)
        } else {
            None
        }
    }

    /// Reads the number that stands for a visibility.
    pub fn from_code(code: u32) -> (visibility: Option<Visibility>)
        ensures
            visibility == Visibility::of_code(code),
    {
        if code == 0 {
            Some(Visibility::Public)
        } else if code == 1 {
            Some(Visibility::Private)
        } else {
            None
        }
    }
}

/// Where a quest stands.
#[derive(Clone, Copy, Debug, PartialEq, Eq, Structural)]
pub enum QuestStatus {
    Active,
    Archived,
    Cancelled,
}

impl QuestStatus {
    /// The status that a number on the ledger stands for.
    pub open spec fn of_code(code: u32) -> Option<QuestStatus> {
        if code == 0 {
            Some(QuestStatus::Active)
        } else if code == 1 {
            Some(QuestStatus::Archived)
        } else if code == 2 {
            Some(QuestStatus::Cancelled)
        } else {
            None
        }
    }

    /// Reads the number that stands for a status.
    pub fn from_code(code: u32) -> (status: Option<QuestStatus>)
        ensures
            status == QuestStatus::of_code(code),
    {
        if code == 0 {
            Some(QuestStatus::Active)
        } else if code == 1 {
            Some(QuestStatus::Archived)
        } else if code == 2 {
            Some(QuestStatus::Cancelled)
        } else {
            None
        }
    }
}

/// Where a user stands.
#[derive(Clone, Copy, Debug, PartialEq, Eq, Structural)]
pub enum UserStatus {
    Active,
    Suspended,
    Inactive,
}

impl UserStatus {
    /// The status that a number on the ledger stands for.
    pub open spec fn of_code(code: u32) -> Option<UserStatus> {
        if code == 0 {
            Some(UserStatus::Active)
        } else if code == 1 {
            Some(UserStatus::Suspended)
        } else if code == 2 {
            Some(UserStatus::Inactive)
        } else {
            None
        }
    }

    /// Reads the number that stands for a status.
    pub fn from_code(code: u32) -> (status: Option<UserStatus>)
        ensures
            status == UserStatus::of_code(code),
    {
        if code == 0 {
            Some(UserStatus::Active)
        } else if code == 1 {
            Some(UserStatus::Suspended)
        } else if code == 2 {
            Some(UserStatus::Inactive)
        } else {
            None
        }
    }
}

/// A quest.
#[derive(Clone, Debug, PartialEq)]
pub struct QuestInfo {
    pub id: u32,
    pub owner: Address,
    pub name: soroban_sdk::String,
    pub description: soroban_sdk::String,
    pub category: soroban_sdk::String,
    pub tags: soroban_sdk::Vec<soroban_sdk::String>,
    pub token_addr: Address,
    pub created_at: u64,
    pub visibility: Visibility,
    pub status: QuestStatus,
    pub deadline: u64,
    pub archived_at: u64,
    pub max_enrollees: Option<u32>,
    pub verified: bool,
    pub version: u32,
}

/// The fields of a quest at one version, kept for history.
#[derive(Clone, Debug, PartialEq)]
pub struct QuestVersion {
    pub version: u32,
    pub name: soroban_sdk::String,
    pub description: soroban_sdk::String,
    pub category: soroban_sdk::String,
    pub tags: soroban_sdk::Vec<soroban_sdk::String>,
    pub visibility: Visibility,
    pub max_enrollees: Option<u32>,
    pub updated_at: u64,
}

/// What a [`QuestInfo`] holds.
pub struct Quest {
    pub id: u32,
    pub owner: Seq<u8>,
    pub name: Seq<u8>,
    pub description: Seq<u8>,
    pub category: Seq<u8>,
    pub tags: Seq<Datum>,
    pub token_addr: Seq<u8>,
    pub created_at: u64,
    pub visibility: Visibility,
    pub status: QuestStatus,
    pub deadline: u64,
    pub archived_at: u64,
    pub max_enrollees: Option<u32>,
    pub verified: bool,
    pub version: u32,
}

impl View for QuestInfo {
    type V = Quest;

    open spec fn view(&self) -> Quest {
        Quest {
            id: self.id,
            owner: address_text(self.owner),
            name: text_bytes(self.name),
            description: text_bytes(self.description),
            category: text_bytes(self.category),
            tags: text_items(self.tags),
            token_addr: address_text(self.token_addr),
            created_at: self.created_at,
            visibility: self.visibility,
            status: self.status,
            deadline: self.deadline,
            archived_at: self.archived_at,
            max_enrollees: self.max_enrollees,
            verified: self.verified,
            version: self.version,
        }
    }
}

/// Whether a byte is a digit of the base 32 alphabet.
pub open spec fn is_base32(byte: u8) -> bool {
    'A' as u8 <= byte <= 'Z' as u8 || '2' as u8 <= byte <= '7' as u8
}

/// Whether a text has the form of a contract address: 56 base 32 digits, the
/// first of them a `C`.
pub open spec fn contract_address_text(text: Seq<u8>) -> bool {
    &&& text.len() == 56
    &&& text[0] == 'C' as u8
    &&& forall|i: int| 0 <= i < text.len() ==> is_base32(#[trigger] text[i])
}

/// Whether a text has the form of a contract address. The checksum is not
/// looked at.
pub fn is_contract_address_text(text: &Vec<u8>) -> (valid: bool)
    ensures
        valid == contract_address_text(text@),
{
    if text.len() != 56 {
        return false;
    }
    if text[0] != 'C' as u8 {
        return false;
    }
    let mut i: usize = 1;
    while i < 56
        invariant
            1 <= i <= 56,
            text@.len() == 56,
            text@[0] == 'C' as u8,
            forall|j: int| 0 <= j < i ==> is_base32(#[trigger] text@[j]),
        decreases 56 - i,
    {
        let c: u8 = text[i];
        if !(('A' as u8) <= c && c <= ('Z' as u8) || ('2' as u8) <= c && c <= ('7' as u8)) {
            return false;
        }
        i += 1;
    }
    true
}

/// Whether an address is that of a contract and not of an account.
///
/// Only the text form is looked at: its length, its prefix and its alphabet.
/// Neither the checksum is verified nor whether a contract is deployed there.
pub fn is_contract_address(addr: &Address) -> (valid: bool)
    ensures
        valid == contract_address_text(address_text(*addr)),
{
    let text = addr.to_string();
    if text.len() != 56 {
        return false;
    }
    is_contract_address_text(&bytes_of(&text))
}

/// Whether a contract can call another: the address has the form of a contract
/// address, and is not its own.
pub open spec fn callable(contract: Seq<u8>, own: Seq<u8>) -> bool {
    contract_address_text(contract) && contract != own
}

/// Whether a contract can call another.
pub(crate) fn is_callable(contract: &Address, own: &Address) -> (yes: bool)
    ensures
        yes == callable(address_text(*contract), address_text(*own)),
{
    is_contract_address(contract) && !same_address(contract, own)
}

/// Whether a byte is white space: a blank, or one of tab, line feed, vertical
/// tab, form feed and carriage return.
pub open spec fn is_white(byte: u8) -> bool {
    byte == ' ' as u8 || '\t' as u8 <= byte <= '\r' as u8
}

/// `http://`
pub open spec fn http_prefix() -> Seq<u8> {
    seq!['h' as u8, 't' as u8, 't' as u8, 'p' as u8, ':' as u8, '/' as u8, '/' as u8]
}

/// `https://`
pub open spec fn https_prefix() -> Seq<u8> {
    seq!['h' as u8, 't' as u8, 't' as u8, 'p' as u8, 's' as u8, ':' as u8, '/' as u8, '/' as u8]
}

/// Whether a text is taken for a URL: at most 2048 bytes without white space
/// that start with `http://` or `https://`.
pub open spec fn url_text(text: Seq<u8>) -> bool {
    &&& text.len() <= 2048
    &&& forall|i: int| 0 <= i < text.len() ==> !is_white(#[trigger] text[i])
    &&& http_prefix().is_prefix_of(text) || https_prefix().is_prefix_of(text)
}

/// Whether a text starts with a prefix.
fn starts_with(text: &Vec<u8>, prefix: &[u8]) -> (found: bool)
    ensures
        found == prefix@.is_prefix_of(text@),
{
    if text.len() < prefix.len() {
        return false;
    }
    let mut i: usize = 0;
    while i < prefix.len()
        invariant
            i <= prefix@.len() <= text@.len(),
            forall|j: int| 0 <= j < i ==> prefix@[j] == text@[j],
        decreases prefix@.len() - i,
    {
        if text[i] != prefix[i] {
            proof {
                assert(text@.subrange(0, prefix@.len() as int)[i as int] != prefix@[i as int]);
            }
            return false;
        }
        i += 1;
    }
    proof {
        assert(prefix@ =~= text@.subrange(0, prefix@.len() as int));
    }
    true
}

/// Whether a text is taken for a URL.
pub fn is_valid_url_text(text: &Vec<u8>) -> (valid: bool)
    ensures
        valid == url_text(text@),
{
    if text.len() > 2048 {
        return false;
    }
    let mut i: usize = 0;
    while i < text.len()
        invariant
            i <= text@.len(),
            forall|j: int| 0 <= j < i ==> !is_white(#[trigger] text@[j]),
        decreases text@.len() - i,
    {
        let b: u8 = text[i];
        if b == ' ' as u8 || ('\t' as u8 <= b && b <= '\r' as u8) {
            return false;
        }
        i += 1;
    }
    let http: [u8; 7] = [
        'h' as u8,
        't' as u8,
        't' as u8,
        'p' as u8,
        ':' as u8,
        '/' as u8,
        '/' as u8,
    ];
    let https: [u8; 8] = [
        'h' as u8,
        't' as u8,
        't' as u8,
        'p' as u8,
        's' as u8,
        ':' as u8,
        '/' as u8,
        '/' as u8,
    ];
    proof {
        assert(http@ =~= http_prefix());
        assert(https@ =~= https_prefix());
    }
    starts_with(text, &http) || starts_with(text, &https)
}

/// Whether a string is taken for a URL.
pub fn is_valid_url(s: &soroban_sdk::String) -> (valid: bool)
    ensures
        valid == url_text(text_bytes(*s)),
{
    if s.len() > 2048 {
        return false;
    }
    is_valid_url_text(&bytes_of(s))
}

/// Makes a list of plain values.
pub(crate) fn make_list(env: &Env, values: &[Value]) -> (list: soroban_sdk::Vec<Val>)
    requires
        values@.len() < u32::MAX,
        forall|i: int|
            0 <= i < values@.len() ==> ((#[trigger] values@[i]) matches Value::Symbol(symbol)
                ==> symbol_text(symbol@)),
    ensures
        list_items(list) == values@.map_values(|value: Value| value@),
{
    let mut list = new_list(env);
    let mut i: usize = 0;
    while i < values.len()
        invariant
            i <= values@.len() < u32::MAX,
            forall|j: int|
                0 <= j < values@.len() ==> ((#[trigger] values@[j]) matches Value::Symbol(symbol)
                    ==> symbol_text(symbol@)),
            list_items(list) == values@.take(i as int).map_values(|value: Value| value@),
        decreases values@.len() - i,
    {
        push_value(&mut list, host_value(env, &values[i]));
        proof {
            assert(values@.take(i + 1) =~= values@.take(i as int).push(values@[i as int]));
            assert(list_items(list) =~= values@.take(i + 1).map_values(|value: Value| value@));
        }
        i += 1;
    }
    proof {
        assert(values@.take(i as int) =~= values@);
    }
    list
}

/// Publishes an event with one topic.
pub(crate) fn emit(env: &mut Env, topic: &str, data: soroban_sdk::Vec<Val>)
    requires
        symbol_text(topic@),
    ensures
        world(*final(env)) == world(*old(env)).publish(topic@, list_items(data)),
{
    let topics = make_list(env, &[Value::Symbol(topic)]);
    proof {
        assert(list_items(topics) =~= seq![Datum::Symbol(topic@)]);
    }
    publish(env, topics, data)
}

/// The host takes the names of the events for symbols.
pub proof fn lemma_event_names()
    ensures
        symbol_text("cross_contract_call"@),
        symbol_text("cross_contract_return"@),
        symbol_text("quest_created"@),
        symbol_text("reward_funded"@),
        symbol_text("reward_distributed"@),
        symbol_text("reward_authority_assigned"@),
        symbol_text("reward_refunded"@),
{
    reveal_strlit("cross_contract_call");
    reveal_strlit("cross_contract_return");
    reveal_strlit("quest_created");
    reveal_strlit("reward_funded");
    reveal_strlit("reward_distributed");
    reveal_strlit("reward_authority_assigned");
    reveal_strlit("reward_refunded");
}

impl World {
    /// Whether the contract can call another.
    pub open spec fn can_call(self, contract: Seq<u8>) -> bool {
        callable(contract, self.own)
    }

    /// The world after a call of another contract was announced.
    pub open spec fn announce_call(
        self,
        target: Seq<u8>,
        method: Seq<char>,
        params: Seq<u8>,
    ) -> World {
        self.publish(
            "cross_contract_call"@,
            seq![
                Datum::Account(self.own),
                Datum::Account(target),
                Datum::Symbol(method),
                Datum::Text(params),
            ],
        )
    }

    /// The world after the return from another contract was announced.
    pub open spec fn announce_return(
        self,
        target: Seq<u8>,
        method: Seq<char>,
        success: bool,
        result: Seq<u8>,
    ) -> World {
        self.publish(
            "cross_contract_return"@,
            seq![
                Datum::Account(self.own),
                Datum::Account(target),
                Datum::Symbol(method),
                Datum::Flag(success),
                Datum::Text(result),
            ],
        )
    }

    /// The world after a new quest was announced.
    pub open spec fn announce_quest(self, quest_id: u32, owner: Seq<u8>, name: Seq<u8>) -> World {
        self.publish(
            "quest_created"@,
            seq![Datum::Count(quest_id), Datum::Account(owner), Datum::Text(name)],
        )
    }

    /// The world after the funding of a quest was announced.
    pub open spec fn announce_funding(
        self,
        quest_id: u32,
        funder: Seq<u8>,
        amount: i128,
    ) -> World {
        self.publish(
            "reward_funded"@,
            seq![Datum::Count(quest_id), Datum::Account(funder), Datum::Amount(amount)],
        )
    }

    /// The world after a payout was announced.
    pub open spec fn announce_payout(
        self,
        quest_id: u32,
        milestone_id: u32,
        enrollee: Seq<u8>,
        amount: i128,
    ) -> World {
        self.publish(
            "reward_distributed"@,
            seq![
                Datum::Count(quest_id),
                Datum::Count(milestone_id),
                Datum::Account(enrollee),
                Datum::Amount(amount),
            ],
        )
    }
}

/// Extends the lifetime of the contract instance.
pub fn extend_instance_ttl(env: &mut Env)
    ensures
        world(*final(env)) == world(*old(env)).extend_instance(),
{
    instance_extend(env, THRESHOLD, BUMP)
}

/// Extends the lifetime of a persistent entry. The host fails where there is no
/// such entry.
pub fn extend_persistent_ttl<K: IsDataKey>(env: &mut Env, key: &K)
    requires
        persistent_entries(*old(env)).contains_key(key.path()),
    ensures
        world(*final(env)) == world(*old(env)).note(
            Step::PersistentExtended { key: key.path(), threshold: THRESHOLD, extend_to: BUMP },
        ),
{
    let path = key.to_key(env);
    persistent_extend(env, &path, THRESHOLD, BUMP)
}

/// Publishes that another contract is about to be called.
/// Topics: (cross_contract_call,)
/// Data: (caller_contract, target_contract, method_symbol, params)
pub fn log_cross_call(env: &mut Env, target: &Address, method: &str, params: &soroban_sdk::String)
    requires
        symbol_text(method@),
    ensures
        world(*final(env)) == world(*old(env)).announce_call(
            address_text(*target),
            method@,
            text_bytes(*params),
        ),
{
    let own = env.current_contract_address();
    let data = make_list(
        env,
        &[
            Value::Account(&own),
            Value::Account(target),
            Value::Symbol(method),
            Value::Text(params),
        ],
    );
    proof {
        lemma_event_names();
        assert(list_items(data) =~= seq![
            Datum::Account(address_text(own)),
            Datum::Account(address_text(*target)),
            Datum::Symbol(method@),
            Datum::Text(text_bytes(*params)),
        ]);
    }
    emit(env, "cross_contract_call", data)
}

/// Publishes how the call of another contract ended.
/// Topics: (cross_contract_return,)
/// Data: (caller_contract, target_contract, method_symbol, success, result)
pub fn log_cross_return(
    env: &mut Env,
    target: &Address,
    method: &str,
    success: bool,
    result: &soroban_sdk::String,
)
    requires
        symbol_text(method@),
    ensures
        world(*final(env)) == world(*old(env)).announce_return(
            address_text(*target),
            method@,
            success,
            text_bytes(*result),
        ),
{
    let own = env.current_contract_address();
    let data = make_list(
        env,
        &[
            Value::Account(&own),
            Value::Account(target),
            Value::Symbol(method),
            Value::Flag(success),
            Value::Text(result),
        ],
    );
    proof {
        lemma_event_names();
        assert(list_items(data) =~= seq![
            Datum::Account(address_text(own)),
            Datum::Account(address_text(*target)),
            Datum::Symbol(method@),
            Datum::Flag(success),
            Datum::Text(text_bytes(*result)),
        ]);
    }
    emit(env, "cross_contract_return", data)
}

/// Publishes that a quest was created.
/// Topics: (quest_created,)
/// Data: (quest_id, owner, name)
pub fn emit_quest_created(
    env: &mut Env,
    quest_id: u32,
    owner: &Address,
    name: &soroban_sdk::String,
)
    ensures
        world(*final(env)) == world(*old(env)).announce_quest(
            quest_id,
            address_text(*owner),
            text_bytes(*name),
        ),
{
    let data = make_list(
        env,
        &[Value::Count(quest_id), Value::Account(owner), Value::Text(name)],
    );
    proof {
        lemma_event_names();
        assert(list_items(data) =~= seq![
            Datum::Count(quest_id),
            Datum::Account(address_text(*owner)),
            Datum::Text(text_bytes(*name)),
        ]);
    }
    emit(env, "quest_created", data)
}

/// Publishes that a quest was funded.
/// Topics: (reward_funded,)
/// Data: (quest_id, funder, amount)
pub fn emit_reward_funded(env: &mut Env, quest_id: u32, funder: &Address, amount: i128)
    ensures
        world(*final(env)) == world(*old(env)).announce_funding(
            quest_id,
            address_text(*funder),
            amount,
        ),
{
    let data = make_list(
        env,
        &[Value::Count(quest_id), Value::Account(funder), Value::Amount(amount)],
    );
    proof {
        lemma_event_names();
        assert(list_items(data) =~= seq![
            Datum::Count(quest_id),
            Datum::Account(address_text(*funder)),
            Datum::Amount(amount),
        ]);
    }
    emit(env, "reward_funded", data)
}

/// Publishes that a reward was paid out.
/// Topics: (reward_distributed,)
/// Data: (quest_id, milestone_id, enrollee, amount)
pub fn emit_reward_distributed(
    env: &mut Env,
    quest_id: u32,
    milestone_id: u32,
    enrollee: &Address,
    amount: i128,
)
    ensures
        world(*final(env)) == world(*old(env)).announce_payout(
            quest_id,
            milestone_id,
            address_text(*enrollee),
            amount,
        ),
{
    let data = make_list(
        env,
        &[
            Value::Count(quest_id),
            Value::Count(milestone_id),
            Value::Account(enrollee),
            Value::Amount(amount),
        ],
    );
    proof {
        lemma_event_names();
        assert(list_items(data) =~= seq![
            Datum::Count(quest_id),
            Datum::Count(milestone_id),
            Datum::Account(address_text(*enrollee)),
            Datum::Amount(amount),
        ]);
    }
    emit(env, "reward_distributed", data)
}

/// Whether the instance store holds the flag `true` under a key.
pub fn is_paused_by_key<K: IsDataKey>(env: &Env, key: &K) -> (paused: bool)
    ensures
        paused == flag_in(world(*env).instance, key.path()),
{
    match get_instance(env, key) {
        Some(value) => as_flag(env, &value).unwrap_or(false),
        None => false,
    }
}

/// Reads an entry of the instance store.
pub fn get_instance<K: IsDataKey>(env: &Env, key: &K) -> (found: Option<Val>)
    ensures
        found is Some <==> instance_entries(*env).contains_key(key.path()),
        found is Some ==> data_of(found->0) == instance_entries(*env)[key.path()],
{
    instance_get(env, &key.to_key(env))
}

/// Reads an entry of the persistent store.
pub fn get_persistent<K: IsDataKey>(env: &Env, key: &K) -> (found: Option<Val>)
    ensures
        found is Some <==> persistent_entries(*env).contains_key(key.path()),
        found is Some ==> data_of(found->0) == persistent_entries(*env)[key.path()],
{
    persistent_get(env, &key.to_key(env))
}

} // verus!
