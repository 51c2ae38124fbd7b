//! What the words of the contracts come down to: entries by their keys, records
//! by their fields, texts by their bytes, and the rules by their numbers.

use soroban_sdk::{Address, Env};
use vstd::prelude::*;

use crate::common::{
    contract_address_text, error_text, http_prefix, https_prefix, url_text, Quest, QuestInfo,
    QuestStatus, UserStatus, Visibility,
};
use crate::contract::{admin_verdict, found_address, initialized};
use crate::errors::RewardsErrorEnum;
use crate::host::{
    address_text, instance_entries, own_address, persistent_entries, steps, text_bytes, text_items,
    world,
};
use crate::keys::{DataKey, Key};
use crate::ledger::flag_in;
use crate::model::{function_text, key_path, symbol_text, Datum, Step, World};
use crate::quest::quest_in;
use crate::rules::{
    archiving_verdict, claim_of, closed, closing_verdict, expiry_verdict, fits,
    funded_after_refund, funding_fits, owed, payable, payout_fits, refund_choice, refund_fits,
    refund_window_of, refundable_of, reward_agrees, settable_grace_period, standing_of,
    within_grace,
};

verus! {

// ---------------------------------------------------------------------------
// Entries
// ---------------------------------------------------------------------------

/// What a store holds under a path, if anything.
pub open spec fn held_under(store: Map<Seq<Datum>, Datum>, path: Seq<Datum>) -> Option<Datum> {
    if store.contains_key(path) {
        Some(store[path])
    } else {
        None
    }
}

/// Every key is a list that starts with its name, followed by the ids and the
/// address that it is about.
pub proof fn law_key_paths(q: u32, m: u32, user: Seq<u8>)
    ensures
        Key::TokenAddr.path() == seq![Datum::Symbol("TokenAddr"@)],
        Key::QuestContractAddr.path() == seq![Datum::Symbol("QuestContractAddr"@)],
        Key::MilestoneContractAddr.path() == seq![Datum::Symbol("MilestoneContractAddr"@)],
        Key::TotalDistributed.path() == seq![Datum::Symbol("TotalDistributed"@)],
        Key::TotalFunded.path() == seq![Datum::Symbol("TotalFunded"@)],
        Key::QuestCount.path() == seq![Datum::Symbol("QuestCount"@)],
        Key::RefundGracePeriod.path() == seq![Datum::Symbol("RefundGracePeriod"@)],
        Key::Admin.path() == seq![Datum::Symbol("Admin"@)],
        Key::Paused.path() == seq![Datum::Symbol("Paused"@)],
        Key::QuestAuthority(q).path() == seq![Datum::Symbol("QuestAuthority"@), Datum::Count(q)],
        Key::QuestPool(q).path() == seq![Datum::Symbol("QuestPool"@), Datum::Count(q)],
        Key::QuestDistributed(q).path() == seq![
            Datum::Symbol("QuestDistributed"@),
            Datum::Count(q),
        ],
        Key::QuestRefunded(q).path() == seq![Datum::Symbol("QuestRefunded"@), Datum::Count(q)],
        Key::UserEarnings(user).path() == seq![
            Datum::Symbol("UserEarnings"@),
            Datum::Account(user),
        ],
        Key::PayoutRecord(q, m, user).path() == seq![
            Datum::Symbol("PayoutRecord"@),
            Datum::Count(q),
            Datum::Count(m),
            Datum::Account(user),
        ],
{
}

/// The settings and the counters of the platform are the entries of the instance
/// store under their names. A missing counter is 0, and a missing grace period
/// is seven days.
pub proof fn law_settings_by_name(w: World, who: Seq<u8>)
    ensures
        w.paused() <==> held_under(w.instance, seq![Datum::Symbol("Paused"@)]) == Some(
            Datum::Flag(true),
        ),
        w.admin() == Some(who) <==> held_under(w.instance, seq![Datum::Symbol("Admin"@)]) == Some(
            Datum::Account(who),
        ),
        w.token() == Some(who) <==> held_under(w.instance, seq![Datum::Symbol("TokenAddr"@)])
            == Some(Datum::Account(who)),
        w.quest_contract() == Some(who) <==> held_under(
            w.instance,
            seq![Datum::Symbol("QuestContractAddr"@)],
        ) == Some(Datum::Account(who)),
        w.milestone_contract() == Some(who) <==> held_under(
            w.instance,
            seq![Datum::Symbol("MilestoneContractAddr"@)],
        ) == Some(Datum::Account(who)),
        initialized(w) <==> held_under(w.instance, seq![Datum::Symbol("TokenAddr"@)]) is Some,
        w.total_distributed() == (match held_under(
            w.instance,
            seq![Datum::Symbol("TotalDistributed"@)],
        ) {
            Some(Datum::Amount(held)) => held,
            _ => 0i128,
        }),
        w.total_funded() == (match held_under(w.instance, seq![Datum::Symbol("TotalFunded"@)]) {
            Some(Datum::Amount(held)) => held,
            _ => 0i128,
        }),
        w.quest_count() == (match held_under(w.instance, seq![Datum::Symbol("QuestCount"@)]) {
            Some(Datum::Count(held)) => held,
            _ => 0u32,
        }),
        w.grace_period() == (match held_under(
            w.instance,
            seq![Datum::Symbol("RefundGracePeriod"@)],
        ) {
            Some(Datum::Time(held)) => held,
            _ => 604_800u64,
        }),
{
    law_key_paths(0, 0, who);
}

/// What is kept of quests, users and payouts are the entries of the persistent
/// store under the name of each and the ids and the address that it is about. A
/// missing amount is 0.
pub proof fn law_records_by_name(w: World, q: u32, m: u32, user: Seq<u8>)
    ensures
        w.authority(q) == Some(user) <==> held_under(
            w.persistent,
            seq![Datum::Symbol("QuestAuthority"@), Datum::Count(q)],
        ) == Some(Datum::Account(user)),
        w.pool(q) == (match held_under(
            w.persistent,
            seq![Datum::Symbol("QuestPool"@), Datum::Count(q)],
        ) {
            Some(Datum::Amount(held)) => held,
            _ => 0i128,
        }),
        w.distributed(q) == (match held_under(
            w.persistent,
            seq![Datum::Symbol("QuestDistributed"@), Datum::Count(q)],
        ) {
            Some(Datum::Amount(held)) => held,
            _ => 0i128,
        }),
        w.refunded(q) == (match held_under(
            w.persistent,
            seq![Datum::Symbol("QuestRefunded"@), Datum::Count(q)],
        ) {
            Some(Datum::Amount(held)) => held,
            _ => 0i128,
        }),
        w.earnings(user) == (match held_under(
            w.persistent,
            seq![Datum::Symbol("UserEarnings"@), Datum::Account(user)],
        ) {
            Some(Datum::Amount(held)) => held,
            _ => 0i128,
        }),
        w.paid(q, m, user) <==> held_under(
            w.persistent,
            seq![
                Datum::Symbol("PayoutRecord"@),
                Datum::Count(q),
                Datum::Count(m),
                Datum::Account(user),
            ],
        ) is Some,
{
    law_key_paths(q, m, user);
}

/// A flag is on exactly where the store holds `true`.
pub proof fn law_flag_is_true(store: Map<Seq<Datum>, Datum>, path: Seq<Datum>)
    ensures
        flag_in(store, path) <==> held_under(store, path) == Some(Datum::Flag(true)),
{
}

/// A configured address is handed out as it is held, and only a missing one is
/// an error: that the contract was not set up.
pub proof fn law_found_address(
    result: Result<Address, RewardsErrorEnum>,
    held: Option<Seq<u8>>,
)
    requires
        found_address(result, held),
    ensures
        result is Ok <==> held is Some,
        result is Ok ==> address_text(result->Ok_0) == held->0,
        result is Err ==> result->Err_0 == RewardsErrorEnum::NotInitialized,
{
}

/// Only the administrator may do what only the administrator may.
pub proof fn law_admin_verdict(w: World, who: Seq<u8>)
    ensures
        admin_verdict(w, who) is Ok <==> w.admin() == Some(who),
        w.admin() is None <==> admin_verdict(w, who) == Err::<(), RewardsErrorEnum>(
            RewardsErrorEnum::NotInitialized,
        ),
        (w.admin() is Some && w.admin()->0 != who) <==> admin_verdict(w, who) == Err::<
            (),
            RewardsErrorEnum,
        >(RewardsErrorEnum::Unauthorized),
{
}

/// A handle shows the stores, the steps and the address that it holds.
pub proof fn law_world_of_handle(env: Env)
    ensures
        world(env).instance == instance_entries(env),
        world(env).persistent == persistent_entries(env),
        world(env).steps == steps(env),
        world(env).own == own_address(env),
{
}

/// A key stands for itself, with its address by text.
pub proof fn law_keys_by_text(q: u32, m: u32, user: Address)
    ensures
        DataKey::TokenAddr@ == Key::TokenAddr,
        DataKey::QuestContractAddr@ == Key::QuestContractAddr,
        DataKey::MilestoneContractAddr@ == Key::MilestoneContractAddr,
        DataKey::TotalDistributed@ == Key::TotalDistributed,
        DataKey::TotalFunded@ == Key::TotalFunded,
        DataKey::QuestCount@ == Key::QuestCount,
        DataKey::RefundGracePeriod@ == Key::RefundGracePeriod,
        DataKey::Admin@ == Key::Admin,
        DataKey::Paused@ == Key::Paused,
        DataKey::QuestAuthority(q)@ == Key::QuestAuthority(q),
        DataKey::QuestPool(q)@ == Key::QuestPool(q),
        DataKey::QuestDistributed(q)@ == Key::QuestDistributed(q),
        DataKey::QuestRefunded(q)@ == Key::QuestRefunded(q),
        DataKey::UserEarnings(user)@ == Key::UserEarnings(address_text(user)),
        DataKey::PayoutRecord(q, m, user)@ == Key::PayoutRecord(q, m, address_text(user)),
{
}

// ---------------------------------------------------------------------------
// Records and events
// ---------------------------------------------------------------------------

/// A record with distinct keys holds under a symbol what stands beside it.
pub proof fn law_field_of_record(entries: Seq<(Datum, Datum)>, index: int, name: Seq<char>)
    requires
        0 <= index < entries.len(),
        entries[index].0 == Datum::Symbol(name),
        forall|i: int, j: int|
            0 <= i < j < entries.len() ==> (#[trigger] entries[i]).0 != (#[trigger] entries[j]).0,
    ensures
        Datum::Table(entries).field(name) == Some(entries[index].1),
{
}

/// A record holds nothing under a symbol that it does not name.
pub proof fn law_no_field_of_record(entries: Seq<(Datum, Datum)>, name: Seq<char>)
    requires
        forall|i: int| 0 <= i < entries.len() ==> (#[trigger] entries[i]).0 != Datum::Symbol(name),
    ensures
        Datum::Table(entries).field(name) is None,
{
}

/// A reply gives a quest exactly where it is a record whose fields are those of
/// the quest, each under its own name. Only the largest number of enrollees may
/// be left out or void.
pub proof fn law_quest_by_fields(record: Datum, quest: Quest)
    ensures
        quest_in(None) is None,
        quest_in(Some(record)) == Some(quest) <==> {
            &&& record.field("id"@) == Some(Datum::Count(quest.id))
            &&& record.field("owner"@) == Some(Datum::Account(quest.owner))
            &&& record.field("name"@) == Some(Datum::Text(quest.name))
            &&& record.field("description"@) == Some(Datum::Text(quest.description))
            &&& record.field("category"@) == Some(Datum::Text(quest.category))
            &&& record.field("tags"@) == Some(Datum::List(quest.tags))
            &&& record.field("token_addr"@) == Some(Datum::Account(quest.token_addr))
            &&& record.field("created_at"@) == Some(Datum::Time(quest.created_at))
            &&& record.field("visibility"@) == Some(
                Datum::Count(
                    match quest.visibility {
                        Visibility::Public => 0u32,
                        Visibility::Private => 1,
                    },
                ),
            )
            &&& record.field("status"@) == Some(
                Datum::Count(
                    match quest.status {
                        QuestStatus::Active => 0u32,
                        QuestStatus::Archived => 1,
                        QuestStatus::Cancelled => 2,
                    },
                ),
            )
            &&& record.field("deadline"@) == Some(Datum::Time(quest.deadline))
            &&& record.field("archived_at"@) == Some(Datum::Time(quest.archived_at))
            &&& match quest.max_enrollees {
                Some(most) => record.field("max_enrollees"@) == Some(Datum::Count(most)),
                None => {
                    ||| record.field("max_enrollees"@) is None
                    ||| record.field("max_enrollees"@) == Some(Datum::Void)
                },
            }
            &&& record.field("verified"@) == Some(Datum::Flag(quest.verified))
            &&& record.field("version"@) == Some(Datum::Count(quest.version))
        },
{
}

/// Every field of a quest is seen as what it holds.
pub proof fn law_quest_view(quest: QuestInfo)
    ensures
        quest@.id == quest.id,
        quest@.owner == address_text(quest.owner),
        quest@.name == text_bytes(quest.name),
        quest@.description == text_bytes(quest.description),
        quest@.category == text_bytes(quest.category),
        quest@.tags == text_items(quest.tags),
        quest@.token_addr == address_text(quest.token_addr),
        quest@.created_at == quest.created_at,
        quest@.visibility == quest.visibility,
        quest@.status == quest.status,
        quest@.deadline == quest.deadline,
        quest@.archived_at == quest.archived_at,
        quest@.max_enrollees == quest.max_enrollees,
        quest@.verified == quest.verified,
        quest@.version == quest.version,
{
}

/// The numbers on the ledger stand for the variants in their order, and no other
/// number stands for any.
pub proof fn law_codes_of_variants(code: u32)
    ensures
        Visibility::of_code(code) == Some(Visibility::Public) <==> code == 0,
        Visibility::of_code(code) == Some(Visibility::Private) <==> code == 1,
        Visibility::of_code(code) is None <==> code > 1,
        QuestStatus::of_code(code) == Some(QuestStatus::Active) <==> code == 0,
        QuestStatus::of_code(code) == Some(QuestStatus::Archived) <==> code == 1,
        QuestStatus::of_code(code) == Some(QuestStatus::Cancelled) <==> code == 2,
        QuestStatus::of_code(code) is None <==> code > 2,
        UserStatus::of_code(code) == Some(UserStatus::Active) <==> code == 0,
        UserStatus::of_code(code) == Some(UserStatus::Suspended) <==> code == 1,
        UserStatus::of_code(code) == Some(UserStatus::Inactive) <==> code == 2,
        UserStatus::of_code(code) is None <==> code > 2,
{
}

/// The events that announce a call of another contract name the contract itself,
/// the one called, the function, and what goes in or comes out.
pub proof fn law_call_events(
    w: World,
    target: Seq<u8>,
    method: Seq<char>,
    success: bool,
    text: Seq<u8>,
)
    ensures
        w.announce_call(target, method, text) == w.note(
            Step::Published {
                topics: seq![Datum::Symbol("cross_contract_call"@)],
                data: seq![
                    Datum::Account(w.own),
                    Datum::Account(target),
                    Datum::Symbol(method),
                    Datum::Text(text),
                ],
            },
        ),
        w.announce_return(target, method, success, text) == w.note(
            Step::Published {
                topics: seq![Datum::Symbol("cross_contract_return"@)],
                data: seq![
                    Datum::Account(w.own),
                    Datum::Account(target),
                    Datum::Symbol(method),
                    Datum::Flag(success),
                    Datum::Text(text),
                ],
            },
        ),
{
}

/// The other events hold the ids, the addresses, the name and the amount that
/// they are about.
pub proof fn law_events(w: World, q: u32, m: u32, who: Seq<u8>, name: Seq<u8>, amount: i128)
    ensures
        w.announce_quest(q, who, name) == w.note(
            Step::Published {
                topics: seq![Datum::Symbol("quest_created"@)],
                data: seq![Datum::Count(q), Datum::Account(who), Datum::Text(name)],
            },
        ),
        w.announce_funding(q, who, amount) == w.note(
            Step::Published {
                topics: seq![Datum::Symbol("reward_funded"@)],
                data: seq![Datum::Count(q), Datum::Account(who), Datum::Amount(amount)],
            },
        ),
        w.announce_payout(q, m, who, amount) == w.note(
            Step::Published {
                topics: seq![Datum::Symbol("reward_distributed"@)],
                data: seq![
                    Datum::Count(q),
                    Datum::Count(m),
                    Datum::Account(who),
                    Datum::Amount(amount),
                ],
            },
        ),
        w.announce_refund(q, who, amount) == w.note(
            Step::Published {
                topics: seq![Datum::Symbol("reward_refunded"@)],
                data: seq![Datum::Count(q), Datum::Account(who), Datum::Amount(amount)],
            },
        ),
{
}

/// A lifetime is extended to about thirty days once it falls below about seven.
pub proof fn law_lifetimes(w: World, key: Key, value: Datum)
    ensures
        w.extend_instance() == w.note(
            Step::InstanceExtended { threshold: 120_960, extend_to: 518_400 },
        ),
        w.keep(key, value) == (World {
            persistent: w.persistent.insert(key.path(), value),
            steps: w.steps.push(Step::PersistentSet { key: key.path(), value }).push(
                Step::PersistentExtended {
                    key: key.path(),
                    threshold: 120_960,
                    extend_to: 518_400,
                },
            ),
            ..w
        }),
{
}

// ---------------------------------------------------------------------------
// Texts
// ---------------------------------------------------------------------------

/// The four shared codes have a description each, and all others the same.
pub proof fn law_error_texts(code: u32)
    ensures
        error_text(1) == "entity not found"@,
        error_text(2) == "unauthorized"@,
        error_text(3) == "invalid input"@,
        error_text(400) == "contract is paused"@,
        code != 1 && code != 2 && code != 3 && code != 400 ==> error_text(code)
            == "unknown error"@,
{
}

/// A contract address is 56 bytes long, starts with `C` (67), and has only `A`
/// to `Z` (65 to 90) and `2` to `7` (50 to 55) in it.
pub proof fn law_contract_addresses(text: Seq<u8>)
    ensures
        contract_address_text(text) <==> {
            &&& text.len() == 56
            &&& text[0] == 67
            &&& forall|i: int|
                0 <= i < 56 ==> 65 <= #[trigger] text[i] <= 90 || 50 <= text[i] <= 55
        },
{
}

/// A contract can call every other contract, and nothing else.
pub proof fn law_callable(w: World, contract: Seq<u8>)
    ensures
        w.can_call(contract) <==> contract_address_text(contract) && contract != w.own,
{
}

/// Whether bytes start with the characters of a text.
pub open spec fn starts_as(text: Seq<u8>, chars: Seq<char>) -> bool {
    &&& chars.len() <= text.len()
    &&& forall|i: int| 0 <= i < chars.len() ==> text[i] == #[trigger] chars[i] as u8
}

/// A URL is at most 2048 bytes long, starts with `http://` or `https://`, and
/// has none of the six white space bytes in it.
pub proof fn law_urls(text: Seq<u8>)
    ensures
        url_text(text) <==> {
            &&& text.len() <= 2048
            &&& starts_as(text, "http://"@) || starts_as(text, "https://"@)
            &&& forall|i: int|
                0 <= i < text.len() ==> #[trigger] text[i] != 32 && !(9 <= text[i] <= 13)
        },
{
    reveal_strlit("http://");
    reveal_strlit("https://");
    let http = "http://"@;
    let https = "https://"@;
    assert(starts_as(text, http) <==> http_prefix().is_prefix_of(text)) by {
        let prefix = http_prefix();
        assert(prefix.len() == http.len());
        assert(forall|i: int| 0 <= i < http.len() ==> prefix[i] == #[trigger] http[i] as u8);
        if starts_as(text, http) {
            assert forall|i: int| 0 <= i < prefix.len() implies prefix[i] == text[i] by {
                assert(text[i] == http[i] as u8);
            }
            assert(prefix =~= text.subrange(0, prefix.len() as int));
        }
        if prefix.is_prefix_of(text) {
            assert(forall|i: int| 0 <= i < prefix.len() ==> text[i] == prefix[i]);
        }
    }
    assert(starts_as(text, https) <==> https_prefix().is_prefix_of(text)) by {
        let prefix = https_prefix();
        assert(prefix.len() == https.len());
        assert(forall|i: int| 0 <= i < https.len() ==> prefix[i] == #[trigger] https[i] as u8);
        if starts_as(text, https) {
            assert forall|i: int| 0 <= i < prefix.len() implies prefix[i] == text[i] by {
                assert(text[i] == https[i] as u8);
            }
            assert(prefix =~= text.subrange(0, prefix.len() as int));
        }
        if prefix.is_prefix_of(text) {
            assert(forall|i: int| 0 <= i < prefix.len() ==> text[i] == prefix[i]);
        }
    }
}

/// A symbol has at most 32 characters: letters, digits and underscores. One that
/// names a function does not start with two underscores.
pub proof fn law_symbols(text: Seq<char>)
    ensures
        symbol_text(text) <==> {
            &&& text.len() <= 32
            &&& forall|i: int|
                0 <= i < text.len() ==> {
                    ||| 'a' <= #[trigger] text[i] <= 'z'
                    ||| 'A' <= text[i] <= 'Z'
                    ||| '0' <= text[i] <= '9'
                    ||| text[i] == '_'
                }
        },
        function_text(text) <==> symbol_text(text) && !(text.len() >= 2 && text[0] == '_'
            && text[1] == '_'),
{
}

/// The path of every key can stand in the persistent store.
pub proof fn law_key_paths_are_keys(key: Key)
    ensures
        key_path(key.path()),
{
}

// ---------------------------------------------------------------------------
// Rules
// ---------------------------------------------------------------------------

/// An amount can be moved at once where it is from 1 to 10^15, and a grace
/// period can be set where it is from one day to one year.
pub proof fn law_bounds(amount: i128, seconds: u64)
    ensures
        payable(amount) <==> 1 <= amount <= 1_000_000_000_000_000,
        settable_grace_period(seconds) <==> 86_400 <= seconds <= 31_536_000,
{
}

/// The counters can take what stays within their ranges, and nothing else.
pub proof fn law_sums_fit(
    a: i128,
    b: i128,
    c: i128,
    count: u32,
    first: bool,
    amount: i128,
)
    ensures
        funding_fits(a, b, count, first, amount) <==> {
            &&& i128::MIN <= a + amount <= i128::MAX
            &&& i128::MIN <= b + amount <= i128::MAX
            &&& !first || count + 1 <= u32::MAX
        },
        payout_fits(a, b, c, amount) <==> {
            &&& i128::MIN <= a + amount <= i128::MAX
            &&& i128::MIN <= b + amount <= i128::MAX
            &&& i128::MIN <= c + amount <= i128::MAX
        },
        refund_fits(a, b, amount) <==> {
            &&& i128::MIN <= a - amount <= i128::MAX
            &&& i128::MIN <= b + amount <= i128::MAX
        },
{
}

/// An amount agrees with what was promised unless something was promised and it
/// is something else; and what can be claimed is what was promised, where that
/// can be paid.
pub proof fn law_promised_rewards(promised: Option<i128>, amount: i128)
    ensures
        reward_agrees(promised, amount) <==> !(promised is Some && promised->0 > 0 && promised->0
            != amount),
        claim_of(promised) == Ok::<i128, RewardsErrorEnum>(amount) <==> promised == Some(amount)
            && 1 <= amount <= 1_000_000_000_000_000,
        claim_of(promised) == Err::<i128, RewardsErrorEnum>(RewardsErrorEnum::NotFound)
            <==> promised is None,
        claim_of(promised) == Err::<i128, RewardsErrorEnum>(RewardsErrorEnum::InvalidAmount)
            <==> promised is Some && !(1 <= promised->0 <= 1_000_000_000_000_000),
{
}

/// Active and inactive users may claim, suspended ones may not.
pub proof fn law_standings(code: u32)
    ensures
        standing_of(code) is Ok <==> code == 0 || code == 2,
        standing_of(code) == Err::<(), RewardsErrorEnum>(RewardsErrorEnum::UserSuspended)
            <==> code == 1,
        standing_of(code) == Err::<(), RewardsErrorEnum>(RewardsErrorEnum::QuestLookupFailed)
            <==> code > 2,
{
}

/// What can be refunded, and what is reserved beyond what was distributed, make
/// up the pool. All that is wanted can be refunded where it is no more.
pub proof fn law_refundable_amounts(
    pool: i128,
    reserved: i128,
    distributed: i128,
    left: i128,
    wanted: i128,
)
    ensures
        refundable_of(pool, reserved, distributed) == Ok::<i128, RewardsErrorEnum>(left) <==> {
            &&& reserved - distributed >= i128::MIN
            &&& reserved - distributed <= i128::MAX
            &&& left == (if reserved <= distributed {
                pool as int
            } else {
                pool - reserved + distributed
            })
        },
        refundable_of(pool, reserved, distributed) is Err ==> refundable_of(
            pool,
            reserved,
            distributed,
        )->Err_0 == RewardsErrorEnum::ArithmeticOverflow,
        refund_choice(left, Some(wanted)) == Ok::<i128, RewardsErrorEnum>(wanted) <==> wanted
            <= left,
        refund_choice(left, Some(wanted)) == Err::<i128, RewardsErrorEnum>(
            RewardsErrorEnum::InsufficientPool,
        ) <==> wanted > left,
        refund_choice(left, None) is Ok,
        left >= 0 ==> refund_choice(left, None)->Ok_0 == left,
        left < 0 ==> refund_choice(left, None)->Ok_0 == 0,
{
}

/// The total funded goes down by a refund, and stops at 0.
pub proof fn law_total_after_refund(total: i128, amount: i128)
    requires
        0 <= amount,
    ensures
        0 <= funded_after_refund(total, amount),
        amount <= total ==> funded_after_refund(total, amount) + amount == total,
        amount > total ==> funded_after_refund(total, amount) == 0,
{
}

/// What the rules are made of: a number fits where an amount can hold it, a
/// refund is too early before the grace period has run out, a quest is closed
/// once it is not active, and what is owed is what is reserved beyond what was
/// distributed.
pub proof fn law_parts_of_rules(
    number: int,
    since: u64,
    grace: u64,
    now: u64,
    status: QuestStatus,
    reserved: i128,
    distributed: i128,
)
    ensures
        fits(number) <==> i128::MIN <= number <= i128::MAX,
        within_grace(since, grace, now) <==> now < since + grace,
        closed(status) <==> !(status is Active),
        owed(reserved, distributed) >= 0,
        reserved >= distributed ==> owed(reserved, distributed) + distributed == reserved,
        reserved < distributed ==> owed(reserved, distributed) == 0,
{
}

/// When a quest can be refunded: an amount, once it is cancelled or the grace
/// period after its archiving has run out; all that is unused, once the grace
/// period after its archiving has run out; all that is left of an expired quest,
/// once the grace period after its deadline has run out.
pub proof fn law_refund_times(
    status: QuestStatus,
    archived_at: u64,
    deadline: u64,
    grace: u64,
    now: u64,
)
    ensures
        closing_verdict(status, archived_at, grace, now) is Ok <==> {
            ||| status is Cancelled
            ||| status is Archived && now >= archived_at + grace
        },
        closing_verdict(status, archived_at, grace, now) == Err::<(), RewardsErrorEnum>(
            RewardsErrorEnum::QuestNotArchived,
        ) <==> status is Active,
        closing_verdict(status, archived_at, grace, now) == Err::<(), RewardsErrorEnum>(
            RewardsErrorEnum::RefundWindowNotOpen,
        ) <==> status is Archived && now < archived_at + grace,
        archiving_verdict(status, archived_at, grace, now) is Ok <==> status is Archived && now
            >= archived_at + grace,
        archiving_verdict(status, archived_at, grace, now) == Err::<(), RewardsErrorEnum>(
            RewardsErrorEnum::QuestNotArchived,
        ) <==> !(status is Archived),
        archiving_verdict(status, archived_at, grace, now) == Err::<(), RewardsErrorEnum>(
            RewardsErrorEnum::RefundWindowNotOpen,
        ) <==> status is Archived && now < archived_at + grace,
        expiry_verdict(deadline, grace, now) is Ok <==> deadline != 0 && now > deadline && now
            >= deadline + grace,
        expiry_verdict(deadline, grace, now) == Err::<(), RewardsErrorEnum>(
            RewardsErrorEnum::QuestNotExpired,
        ) <==> deadline == 0 || now <= deadline,
        expiry_verdict(deadline, grace, now) == Err::<(), RewardsErrorEnum>(
            RewardsErrorEnum::RefundWindowNotOpen,
        ) <==> deadline != 0 && deadline < now < deadline + grace,
{
}

/// The refund window of an archived quest runs from the end of the grace period
/// to the end of time, and any other quest has none.
pub proof fn law_refund_windows(status: QuestStatus, archived_at: u64, grace: u64)
    ensures
        !(status is Archived) ==> refund_window_of(status, archived_at, grace) == (0u64, 0u64),
        status is Archived ==> refund_window_of(status, archived_at, grace).1 == u64::MAX,
        status is Archived && archived_at + grace <= u64::MAX ==> refund_window_of(
            status,
            archived_at,
            grace,
        ).0 == archived_at + grace,
        status is Archived && archived_at + grace > u64::MAX ==> refund_window_of(
            status,
            archived_at,
            grace,
        ).0 == u64::MAX,
{
}

} // verus!
