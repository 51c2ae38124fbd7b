//! How the quest contract hands out a quest: a record with one field for each
//! field of [`QuestInfo`].

use soroban_sdk::{Address, Env, Val};
use vstd::prelude::*;

use crate::common::{Quest, QuestInfo, QuestStatus, Visibility};
use crate::host::{
    address_text, as_address, as_count, as_flag, as_text, as_texts, as_time, data_of, field,
    is_void, text_bytes, text_items,
};
use crate::model::{symbol_text, Datum};

verus! {

/// The number in a field of a record.
pub open spec fn count_field(record: Datum, name: Seq<char>) -> Option<u32> {
    match record.field(name) {
        Some(Datum::Count(held)) => Some(held),
        _ => None,
    }
}

/// The time in a field of a record.
pub open spec fn time_field(record: Datum, name: Seq<char>) -> Option<u64> {
    match record.field(name) {
        Some(Datum::Time(held)) => Some(held),
        _ => None,
    }
}

/// The flag in a field of a record.
pub open spec fn flag_field(record: Datum, name: Seq<char>) -> Option<bool> {
    match record.field(name) {
        Some(Datum::Flag(held)) => Some(held),
        _ => None,
    }
}

/// The address in a field of a record.
pub open spec fn address_field(record: Datum, name: Seq<char>) -> Option<Seq<u8>> {
    match record.field(name) {
        Some(Datum::Account(held)) => Some(held),
        _ => None,
    }
}

/// The string in a field of a record.
pub open spec fn text_field(record: Datum, name: Seq<char>) -> Option<Seq<u8>> {
    match record.field(name) {
        Some(Datum::Text(held)) => Some(held),
        _ => None,
    }
}

/// The list in a field of a record.
pub open spec fn list_field(record: Datum, name: Seq<char>) -> Option<Seq<Datum>> {
    match record.field(name) {
        Some(Datum::List(held)) => Some(held),
        _ => None,
    }
}

/// The number in a field of a record that may be left out or void.
pub open spec fn optional_field(record: Datum, name: Seq<char>) -> Option<Option<u32>> {
    match record.field(name) {
        None => Some(None),
        Some(Datum::Void) => Some(None),
        Some(Datum::Count(held)) => Some(Some(held)),
        _ => None,
    }
}

/// The visibility in a field of a record.
pub open spec fn visibility_field(record: Datum, name: Seq<char>) -> Option<Visibility> {
    match count_field(record, name) {
        Some(code) => Visibility::of_code(code),
        None => None,
    }
}

/// The status in a field of a record.
pub open spec fn status_field(record: Datum, name: Seq<char>) -> Option<QuestStatus> {
    match count_field(record, name) {
        Some(code) => QuestStatus::of_code(code),
        None => None,
    }
}

/// Whether a record has every field of a quest, each of its kind.
pub open spec fn holds_quest(record: Datum) -> bool {
    &&& count_field(record, "id"@) is Some
    &&& address_field(record, "owner"@) is Some
    &&& text_field(record, "name"@) is Some
    &&& text_field(record, "description"@) is Some
    &&& text_field(record, "category"@) is Some
    &&& list_field(record, "tags"@) is Some
    &&& address_field(record, "token_addr"@) is Some
    &&& time_field(record, "created_at"@) is Some
    &&& visibility_field(record, "visibility"@) is Some
    &&& status_field(record, "status"@) is Some
    &&& time_field(record, "deadline"@) is Some
    &&& time_field(record, "archived_at"@) is Some
    &&& optional_field(record, "max_enrollees"@) is Some
    &&& flag_field(record, "verified"@) is Some
    &&& count_field(record, "version"@) is Some
}

/// The quest that a record holds.
pub open spec fn quest_of(record: Datum) -> Option<Quest> {
    if holds_quest(record) {
        Some(
            Quest {
                id: count_field(record, "id"@)->0,
                owner: address_field(record, "owner"@)->0,
                name: text_field(record, "name"@)->0,
                description: text_field(record, "description"@)->0,
                category: text_field(record, "category"@)->0,
                tags: list_field(record, "tags"@)->0,
                token_addr: address_field(record, "token_addr"@)->0,
                created_at: time_field(record, "created_at"@)->0,
                visibility: visibility_field(record, "visibility"@)->0,
                status: status_field(record, "status"@)->0,
                deadline: time_field(record, "deadline"@)->0,
                archived_at: time_field(record, "archived_at"@)->0,
                max_enrollees: optional_field(record, "max_enrollees"@)->0,
                verified: flag_field(record, "verified"@)->0,
                version: count_field(record, "version"@)->0,
            },
        )
    } else {
        None
    }
}

/// The quest in the reply to a request for it.
pub open spec fn quest_in(reply: Option<Datum>) -> Option<Quest> {
    match reply {
        Some(record) => quest_of(record),
        None => None,
    }
}

/// The host takes the names of the fields for symbols.
proof fn lemma_field_names()
    ensures
        symbol_text("id"@),
        symbol_text("owner"@),
        symbol_text("name"@),
        symbol_text("description"@),
        symbol_text("category"@),
        symbol_text("tags"@),
        symbol_text("token_addr"@),
        symbol_text("created_at"@),
        symbol_text("visibility"@),
        symbol_text("status"@),
        symbol_text("deadline"@),
        symbol_text("archived_at"@),
        symbol_text("max_enrollees"@),
        symbol_text("verified"@),
        symbol_text("version"@),
{
    reveal_strlit("id");
    reveal_strlit("owner");
    reveal_strlit("name");
    reveal_strlit("description");
    reveal_strlit("category");
    reveal_strlit("tags");
    reveal_strlit("token_addr");
    reveal_strlit("created_at");
    reveal_strlit("visibility");
    reveal_strlit("status");
    reveal_strlit("deadline");
    reveal_strlit("archived_at");
    reveal_strlit("max_enrollees");
    reveal_strlit("verified");
    reveal_strlit("version");
}

fn read_count(env: &Env, record: &Val, name: &str) -> (held: Option<u32>)
    requires
        symbol_text(name@),
    ensures
        held == count_field(data_of(*record), name@),
{
    match field(env, record, name) {
        Some(value) => as_count(env, &value),
        None => None,
    }
}

fn read_time(env: &Env, record: &Val, name: &str) -> (held: Option<u64>)
    requires
        symbol_text(name@),
    ensures
        held == time_field(data_of(*record), name@),
{
    match field(env, record, name) {
        Some(value) => as_time(env, &value),
        None => None,
    }
}

fn read_flag(env: &Env, record: &Val, name: &str) -> (held: Option<bool>)
    requires
        symbol_text(name@),
    ensures
        held == flag_field(data_of(*record), name@),
{
    match field(env, record, name) {
        Some(value) => as_flag(env, &value),
        None => None,
    }
}

fn read_address(env: &Env, record: &Val, name: &str) -> (held: Option<Address>)
    requires
        symbol_text(name@),
    ensures
        held is Some <==> address_field(data_of(*record), name@) is Some,
        held is Some ==> address_field(data_of(*record), name@) == Some(address_text(held->0)),
{
    match field(env, record, name) {
        Some(value) => as_address(env, &value),
        None => None,
    }
}

fn read_text(env: &Env, record: &Val, name: &str) -> (held: Option<soroban_sdk::String>)
    requires
        symbol_text(name@),
    ensures
        held is Some <==> text_field(data_of(*record), name@) is Some,
        held is Some ==> text_field(data_of(*record), name@) == Some(text_bytes(held->0)),
{
    match field(env, record, name) {
        Some(value) => as_text(env, &value),
        None => None,
    }
}

fn read_texts(env: &Env, record: &Val, name: &str) -> (held: Option<
    soroban_sdk::Vec<soroban_sdk::String>,
>)
    requires
        symbol_text(name@),
    ensures
        held is Some <==> list_field(data_of(*record), name@) is Some,
        held is Some ==> list_field(data_of(*record), name@) == Some(text_items(held->0)),
{
    match field(env, record, name) {
        Some(value) => as_texts(env, &value),
        None => None,
    }
}

fn read_optional(env: &Env, record: &Val, name: &str) -> (held: Option<Option<u32>>)
    requires
        symbol_text(name@),
    ensures
        held == optional_field(data_of(*record), name@),
{
    match field(env, record, name) {
        Some(value) => {
            if is_void(&value) {
                Some(None)
            } else {
                match as_count(env, &value) {
                    Some(count) => Some(Some(count)),
                    None => None,
                }
            }
        },
        None => Some(None),
    }
}

fn read_visibility(env: &Env, record: &Val, name: &str) -> (held: Option<Visibility>)
    requires
        symbol_text(name@),
    ensures
        held == visibility_field(data_of(*record), name@),
{
    match read_count(env, record, name) {
        Some(code) => Visibility::from_code(code),
        None => None,
    }
}

fn read_status(env: &Env, record: &Val, name: &str) -> (held: Option<QuestStatus>)
    requires
        symbol_text(name@),
    ensures
        held == status_field(data_of(*record), name@),
{
    match read_count(env, record, name) {
        Some(code) => QuestStatus::from_code(code),
        None => None,
    }
}

/// Reads the quest that a record holds.
pub fn read_quest(env: &Env, record: &Val) -> (quest: Option<QuestInfo>)
    ensures
        quest is Some <==> quest_of(data_of(*record)) is Some,
        quest is Some ==> quest_of(data_of(*record)) == Some(quest->0@),
{
    proof {
        lemma_field_names();
    }
    let id = read_count(env, record, "id")?;
    let owner = read_address(env, record, "owner")?;
    let name = read_text(env, record, "name")?;
    let description = read_text(env, record, "description")?;
    let category = read_text(env, record, "category")?;
    let tags = read_texts(env, record, "tags")?;
    let token_addr = read_address(env, record, "token_addr")?;
    let created_at = read_time(env, record, "created_at")?;
    let visibility = read_visibility(env, record, "visibility")?;
    let status = read_status(env, record, "status")?;
    let deadline = read_time(env, record, "deadline")?;
    let archived_at = read_time(env, record, "archived_at")?;
    let max_enrollees = read_optional(env, record, "max_enrollees")?;
    let verified = read_flag(env, record, "verified")?;
    let version = read_count(env, record, "version")?;
    Some(
        QuestInfo {
            id,
            owner,
            name,
            description,
            category,
            tags,
            token_addr,
            created_at,
            visibility,
            status,
            deadline,
            archived_at,
            max_enrollees,
            verified,
            version,
        },
    )
}

} // verus!
