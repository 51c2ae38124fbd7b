//! The boundary to the Soroban host: everything that is taken on trust.
//!
//! The types of `soroban_sdk` are opaque here. What they hold is given by the
//! names below, and each function states, over those names, what one function
//! of the SDK does.
//!
//! Three things hold of all of them. The handle to the host belongs to the
//! invocation of the contract that is running, and no other handle to the same
//! host writes to its stores or makes requests meanwhile (the host itself
//! forbids that a called contract calls back). A value of the host is only used
//! with the host that made it. And where the host cannot do what it is asked to
//! (a callee that fails, a missing authorisation, an entry whose lifetime has
//! run out, an exhausted budget), it ends the whole invocation and takes back
//! all of its effects: the function then does not return.

use soroban_sdk::token::TokenClient;
use soroban_sdk::{Address, BytesN, Env, IntoVal, InvokeError, Symbol, TryFromVal, Val};
use vstd::prelude::*;

use crate::model::{function_text, key_path, symbol_text, Datum, Step, World};

verus! {

// ---------------------------------------------------------------------------
// Types of the SDK
// ---------------------------------------------------------------------------

/// The handle to the host.
#[verifier::external_type_specification]
#[verifier::external_body]
pub struct ExEnv(soroban_sdk::Env);

/// An address of an account or of a contract.
#[verifier::external_type_specification]
#[verifier::external_body]
pub struct ExAddress(soroban_sdk::Address);

/// A value of any kind.
#[verifier::external_type_specification]
#[verifier::external_body]
pub struct ExVal(soroban_sdk::Val);

/// A string of bytes.
#[verifier::external_type_specification]
#[verifier::external_body]
pub struct ExText(soroban_sdk::String);

/// A list.
#[verifier::external_type_specification]
#[verifier::external_body]
#[verifier::reject_recursive_types(T)]
pub struct ExList<T>(soroban_sdk::Vec<T>);

/// A fixed number of bytes.
#[verifier::external_type_specification]
#[verifier::external_body]
pub struct ExBytes<const N: usize>(soroban_sdk::BytesN<N>);

// ---------------------------------------------------------------------------
// What they hold
// ---------------------------------------------------------------------------

/// The entries of the contract's instance store whose keys are lists.
pub uninterp spec fn instance_entries(env: soroban_sdk::Env) -> Map<Seq<Datum>, Datum>;

/// The live entries of the contract's persistent store whose keys are lists.
pub uninterp spec fn persistent_entries(env: soroban_sdk::Env) -> Map<Seq<Datum>, Datum>;

/// What has been asked of the host through this handle, oldest first.
pub uninterp spec fn steps(env: soroban_sdk::Env) -> Seq<Step>;

/// The text form of the address of the contract that is running.
pub uninterp spec fn own_address(env: soroban_sdk::Env) -> Seq<u8>;

/// The Stellar text form of an address.
pub uninterp spec fn address_text(address: soroban_sdk::Address) -> Seq<u8>;

/// The bytes of a string.
pub uninterp spec fn text_bytes(text: soroban_sdk::String) -> Seq<u8>;

/// What a value holds.
pub uninterp spec fn data_of(value: soroban_sdk::Val) -> Datum;

/// The items of a list of values.
pub uninterp spec fn list_items(list: soroban_sdk::Vec<soroban_sdk::Val>) -> Seq<Datum>;

/// The items of a list of numbers. The host does not check what kind the items
/// of a list from outside are of, so they need not all be numbers.
pub uninterp spec fn number_items(list: soroban_sdk::Vec<u32>) -> Seq<Datum>;

/// The items of a list of strings. They need not all be strings.
pub uninterp spec fn text_items(list: soroban_sdk::Vec<soroban_sdk::String>) -> Seq<Datum>;

/// The bytes of a hash.
pub uninterp spec fn hash_bytes(hash: soroban_sdk::BytesN<32>) -> Seq<u8>;

/// The ledger as a handle shows it.
pub open spec fn world(env: Env) -> World {
    World {
        instance: instance_entries(env),
        persistent: persistent_entries(env),
        steps: steps(env),
        own: own_address(env),
    }
}

/// The text form of an address that may be missing.
pub open spec fn option_text(address: Option<Address>) -> Option<Seq<u8>> {
    match address {
        Some(address) => Some(address_text(address)),
        None => None,
    }
}

/// A plain value that can be handed to the host.
pub enum Value<'a> {
    Flag(bool),
    Count(u32),
    Time(u64),
    Amount(i128),
    Symbol(&'a str),
    Text(&'a soroban_sdk::String),
    Account(&'a Address),
}

impl<'a> View for Value<'a> {
    type V = Datum;

    open spec fn view(&self) -> Datum {
        match *self {
            Value::Flag(flag) => Datum::Flag(flag),
            Value::Count(count) => Datum::Count(count),
            Value::Time(time) => Datum::Time(time),
            Value::Amount(amount) => Datum::Amount(amount),
            Value::Symbol(symbol) => Datum::Symbol(symbol@),
            Value::Text(text) => Datum::Text(text_bytes(*text)),
            Value::Account(address) => Datum::Account(address_text(*address)),
        }
    }
}

// ---------------------------------------------------------------------------
// Values
// ---------------------------------------------------------------------------

/// `IntoVal::into_val` of `bool`: the value made holds the flag.
#[verifier::external_body]
fn flag_value(env: &Env, flag: bool) -> (made: Val)
    ensures
        data_of(made) == Datum::Flag(flag),
{
    flag.into_val(env)
}

/// `IntoVal::into_val` of `u32`: the value made holds the number.
#[verifier::external_body]
fn count_value(env: &Env, count: u32) -> (made: Val)
    ensures
        data_of(made) == Datum::Count(count),
{
    count.into_val(env)
}

/// `IntoVal::into_val` of `u64`: the value made holds the number.
#[verifier::external_body]
fn time_value(env: &Env, time: u64) -> (made: Val)
    ensures
        data_of(made) == Datum::Time(time),
{
    time.into_val(env)
}

/// `IntoVal::into_val` of `i128`: the value made holds the number.
#[verifier::external_body]
fn amount_value(env: &Env, amount: i128) -> (made: Val)
    ensures
        data_of(made) == Datum::Amount(amount),
{
    amount.into_val(env)
}

/// `Symbol::new`, as a value: it holds the text as a symbol. A text that is no
/// symbol would make `Symbol::new` panic.
#[verifier::external_body]
fn symbol_value(env: &Env, symbol: &str) -> (made: Val)
    requires
        symbol_text(symbol@),
    ensures
        data_of(made) == Datum::Symbol(symbol@),
{
    Symbol::new(env, symbol).to_val()
}

/// `String::to_val`: the value made holds the bytes of the string.
#[verifier::external_body]
fn text_value(text: &soroban_sdk::String) -> (made: Val)
    ensures
        data_of(made) == Datum::Text(text_bytes(*text)),
{
    text.to_val()
}

/// `Address::to_val`: the value made holds the address.
#[verifier::external_body]
fn account_value(address: &Address) -> (made: Val)
    ensures
        data_of(made) == Datum::Account(address_text(*address)),
{
    address.to_val()
}

/// Makes a value of the host that holds a plain value.
pub(crate) fn host_value(env: &Env, value: &Value) -> (made: Val)
    requires
        value matches Value::Symbol(symbol) ==> symbol_text(symbol@),
    ensures
        data_of(made) == value@,
{
    match value {
        Value::Flag(flag) => flag_value(env, *flag),
        Value::Count(count) => count_value(env, *count),
        Value::Time(time) => time_value(env, *time),
        Value::Amount(amount) => amount_value(env, *amount),
        Value::Symbol(symbol) => symbol_value(env, symbol),
        Value::Text(text) => text_value(text),
        Value::Account(address) => account_value(address),
    }
}

/// `bool::try_from_val`: gives the flag where the value is one.
#[verifier::external_body]
pub(crate) fn as_flag(env: &Env, value: &Val) -> (flag: Option<bool>)
    ensures
        flag == (if let Datum::Flag(held) = data_of(*value) { Some(held) } else { None }),
{
    bool::try_from_val(env, value).ok()
}

/// `u32::try_from_val`: gives the number where the value is a `u32`.
#[verifier::external_body]
pub(crate) fn as_count(env: &Env, value: &Val) -> (count: Option<u32>)
    ensures
        count == (if let Datum::Count(held) = data_of(*value) { Some(held) } else { None }),
{
    u32::try_from_val(env, value).ok()
}

/// `u64::try_from_val`: gives the number where the value is a `u64`.
#[verifier::external_body]
pub(crate) fn as_time(env: &Env, value: &Val) -> (time: Option<u64>)
    ensures
        time == (if let Datum::Time(held) = data_of(*value) { Some(held) } else { None }),
{
    u64::try_from_val(env, value).ok()
}

/// `i128::try_from_val`: gives the number where the value is an `i128`.
#[verifier::external_body]
pub(crate) fn as_amount(env: &Env, value: &Val) -> (amount: Option<i128>)
    ensures
        amount == (if let Datum::Amount(held) = data_of(*value) { Some(held) } else { None }),
{
    i128::try_from_val(env, value).ok()
}

/// `Address::try_from_val`: gives the address where the value is one.
#[verifier::external_body]
pub(crate) fn as_address(env: &Env, value: &Val) -> (address: Option<Address>)
    ensures
        address is Some <==> data_of(*value) is Account,
        address is Some ==> data_of(*value) == Datum::Account(address_text(address->0)),
{
    Address::try_from_val(env, value).ok()
}

/// `String::try_from_val`: gives the string where the value is one.
#[verifier::external_body]
pub(crate) fn as_text(env: &Env, value: &Val) -> (text: Option<soroban_sdk::String>)
    ensures
        text is Some <==> data_of(*value) is Text,
        text is Some ==> data_of(*value) == Datum::Text(text_bytes(text->0)),
{
    soroban_sdk::String::try_from_val(env, value).ok()
}

/// `Vec::<String>::try_from_val`: gives the list where the value is one,
/// whatever its items are.
#[verifier::external_body]
pub(crate) fn as_texts(env: &Env, value: &Val) -> (texts: Option<
    soroban_sdk::Vec<soroban_sdk::String>,
>)
    ensures
        texts is Some <==> data_of(*value) is List,
        texts is Some ==> data_of(*value) == Datum::List(text_items(texts->0)),
{
    soroban_sdk::Vec::try_from_val(env, value).ok()
}

/// `Val::is_void`.
#[verifier::external_body]
pub(crate) fn is_void(value: &Val) -> (void: bool)
    ensures
        void == (data_of(*value) == Datum::Void),
{
    value.is_void()
}

/// `Map::<Symbol, Val>::try_from_val` and `Map::get`: the value that a record
/// holds under a symbol; `None` where the value is no record or holds none. A
/// map of the host has at most one entry for a key.
#[verifier::external_body]
pub(crate) fn field(env: &Env, record: &Val, name: &str) -> (found: Option<Val>)
    requires
        symbol_text(name@),
    ensures
        found is Some <==> data_of(*record).field(name@) is Some,
        found is Some ==> data_of(*record).field(name@) == Some(data_of(found->0)),
{
    let record = soroban_sdk::Map::<Symbol, Val>::try_from_val(env, record).ok()?;
    record.get(Symbol::new(env, name))
}

/// `String::from_str`: a string of the host with the bytes of a text.
#[verifier::external_body]
pub(crate) fn new_text(env: &Env, chars: &str) -> (text: soroban_sdk::String)
    ensures
        text_bytes(text) == vstd::utf8::encode_utf8(chars@),
{
    soroban_sdk::String::from_str(env, chars)
}

/// `String::copy_into_slice`, into a buffer of the length that `String::len`
/// gives: the bytes of the string.
#[verifier::external_body]
pub(crate) fn bytes_of(text: &soroban_sdk::String) -> (bytes: Vec<u8>)
    ensures
        bytes@ == text_bytes(*text),
{
    let mut bytes: Vec<u8> = vec![0; text.len() as usize];
    text.copy_into_slice(&mut bytes);
    bytes
}

/// `String::len`: the number of bytes.
pub assume_specification[ soroban_sdk::String::len ](text: &soroban_sdk::String) -> (length: u32)
    ensures
        length == text_bytes(*text).len(),
;

// ---------------------------------------------------------------------------
// Addresses
// ---------------------------------------------------------------------------

/// `PartialEq::eq` of `Address`: two addresses are equal exactly where their
/// text forms are, since the text form is an encoding of the whole address.
#[verifier::external_body]
pub(crate) fn same_address(a: &Address, b: &Address) -> (same: bool)
    ensures
        same == (address_text(*a) == address_text(*b)),
{
    a == b
}

/// `Clone::clone` of `Address`: the copy is the same address.
pub assume_specification[ <Address as Clone>::clone ](address: &Address) -> (copy: Address)
    ensures
        address_text(copy) == address_text(*address),
;

/// `Clone::clone` of `String`: the copy is the same string.
pub assume_specification[ <soroban_sdk::String as Clone>::clone ](text: &soroban_sdk::String) -> (copy:
    soroban_sdk::String)
    ensures
        text_bytes(copy) == text_bytes(*text),
;

/// `Clone::clone` of `Vec`: the copy is the same handle to the same list of the
/// same host.
pub assume_specification<T>[ <soroban_sdk::Vec<T> as Clone>::clone ](list: &soroban_sdk::Vec<T>) -> (copy:
    soroban_sdk::Vec<T>)
    ensures
        copy == *list,
;

/// `Address::to_string`: the text form of the address.
pub assume_specification[ Address::to_string ](address: &Address) -> (text: soroban_sdk::String)
    ensures
        text_bytes(text) == address_text(*address),
;

/// `Env::current_contract_address`: the address of the contract that is
/// running.
pub assume_specification[ Env::current_contract_address ](env: &Env) -> (own: Address)
    ensures
        address_text(own) == own_address(*env),
;

// ---------------------------------------------------------------------------
// Lists
// ---------------------------------------------------------------------------

/// `Vec::<Val>::new`: an empty list.
#[verifier::external_body]
pub(crate) fn new_list(env: &Env) -> (list: soroban_sdk::Vec<Val>)
    ensures
        list_items(list) == Seq::<Datum>::empty(),
{
    soroban_sdk::Vec::new(env)
}

/// `Vec::<Val>::push_back`: adds one item at the end. The host counts the items
/// of a list in a `u32`.
#[verifier::external_body]
pub(crate) fn push_value(list: &mut soroban_sdk::Vec<Val>, value: Val)
    requires
        list_items(*old(list)).len() < u32::MAX,
    ensures
        list_items(*final(list)) == list_items(*old(list)).push(data_of(value)),
{
    list.push_back(value)
}

/// `Vec::<Val>::get`: the item at an index, if there is one.
#[verifier::external_body]
pub(crate) fn value_at(list: &soroban_sdk::Vec<Val>, index: u32) -> (item: Option<Val>)
    ensures
        item is Some <==> index < list_items(*list).len(),
        item is Some ==> data_of(item->0) == list_items(*list)[index as int],
{
    list.get(index)
}

/// `Vec::<u32>::new`: an empty list.
#[verifier::external_body]
pub(crate) fn new_numbers(env: &Env) -> (list: soroban_sdk::Vec<u32>)
    ensures
        number_items(list) == Seq::<Datum>::empty(),
{
    soroban_sdk::Vec::new(env)
}

/// `Vec::<u32>::push_back`: adds one number at the end.
#[verifier::external_body]
pub(crate) fn push_number(list: &mut soroban_sdk::Vec<u32>, number: u32)
    requires
        number_items(*old(list)).len() < u32::MAX,
    ensures
        number_items(*final(list)) == number_items(*old(list)).push(Datum::Count(number)),
{
    list.push_back(number)
}

/// `Vec::<u32>::contains`: whether the number is an item of the list.
#[verifier::external_body]
pub(crate) fn has_number(list: &soroban_sdk::Vec<u32>, number: u32) -> (found: bool)
    ensures
        found == number_items(*list).contains(Datum::Count(number)),
{
    list.contains(number)
}

/// `Vec::<u32>::len`: the number of items.
#[verifier::external_body]
pub(crate) fn numbers_len(list: &soroban_sdk::Vec<u32>) -> (length: u32)
    ensures
        length == number_items(*list).len(),
{
    list.len()
}

/// `Vec::<u32>::try_get`: the item at an index; `None` past the end and where
/// the item is no `u32`.
#[verifier::external_body]
pub(crate) fn number_at(list: &soroban_sdk::Vec<u32>, index: u32) -> (number: Option<u32>)
    ensures
        number == (if index < number_items(*list).len() {
            if let Datum::Count(held) = number_items(*list)[index as int] {
                Some(held)
            } else {
                None
            }
        } else {
            None
        }),
{
    list.try_get(index).ok().flatten()
}

// ---------------------------------------------------------------------------
// Stores
// ---------------------------------------------------------------------------

/// `Instance::has`: whether the instance store has an entry.
#[verifier::external_body]
pub(crate) fn instance_has(env: &Env, key: &soroban_sdk::Vec<Val>) -> (found: bool)
    ensures
        found == instance_entries(*env).contains_key(list_items(*key)),
{
    env.storage().instance().has(key)
}

/// `Instance::get`: the entry of the instance store, if there is one, as a
/// value of whatever kind it is.
#[verifier::external_body]
pub(crate) fn instance_get(env: &Env, key: &soroban_sdk::Vec<Val>) -> (found: Option<Val>)
    ensures
        found is Some <==> instance_entries(*env).contains_key(list_items(*key)),
        found is Some ==> data_of(found->0) == instance_entries(*env)[list_items(*key)],
{
    env.storage().instance().get(key)
}

/// `Instance::set`: writes one entry of the instance store and nothing else.
#[verifier::external_body]
pub(crate) fn instance_set(env: &mut Env, key: &soroban_sdk::Vec<Val>, value: &Val)
    ensures
        world(*final(env)) == world(*old(env)).set_instance(list_items(*key), data_of(*value)),
{
    env.storage().instance().set(key, value)
}

/// `Instance::extend_ttl`: extends the lifetime of the contract instance and of
/// its code; the stores keep their entries. A threshold above the target makes
/// the host fail.
#[verifier::external_body]
pub(crate) fn instance_extend(env: &mut Env, threshold: u32, extend_to: u32)
    requires
        threshold <= extend_to,
    ensures
        world(*final(env)) == world(*old(env)).note(
            Step::InstanceExtended { threshold, extend_to },
        ),
{
    env.storage().instance().extend_ttl(threshold, extend_to)
}

/// `Persistent::has`: whether the persistent store has an entry. The host fails
/// on a key with a muxed address in it.
#[verifier::external_body]
pub(crate) fn persistent_has(env: &Env, key: &soroban_sdk::Vec<Val>) -> (found: bool)
    requires
        key_path(list_items(*key)),
    ensures
        found == persistent_entries(*env).contains_key(list_items(*key)),
{
    env.storage().persistent().has(key)
}

/// `Persistent::get`: the entry of the persistent store, if there is one, as a
/// value of whatever kind it is. The host fails on a key with a muxed address in
/// it.
#[verifier::external_body]
pub(crate) fn persistent_get(env: &Env, key: &soroban_sdk::Vec<Val>) -> (found: Option<Val>)
    requires
        key_path(list_items(*key)),
    ensures
        found is Some <==> persistent_entries(*env).contains_key(list_items(*key)),
        found is Some ==> data_of(found->0) == persistent_entries(*env)[list_items(*key)],
{
    env.storage().persistent().get(key)
}

/// `Persistent::set`: writes one entry of the persistent store and nothing
/// else. The host fails on a key with a muxed address in it.
#[verifier::external_body]
pub(crate) fn persistent_set(env: &mut Env, key: &soroban_sdk::Vec<Val>, value: &Val)
    requires
        key_path(list_items(*key)),
    ensures
        world(*final(env)) == world(*old(env)).set_persistent(list_items(*key), data_of(*value)),
{
    env.storage().persistent().set(key, value)
}

/// `Persistent::extend_ttl`: extends the lifetime of one entry; the stores keep
/// their entries. The host fails where there is no such entry or where the
/// threshold is above the target.
#[verifier::external_body]
pub(crate) fn persistent_extend(
    env: &mut Env,
    key: &soroban_sdk::Vec<Val>,
    threshold: u32,
    extend_to: u32,
)
    requires
        key_path(list_items(*key)),
        persistent_entries(*old(env)).contains_key(list_items(*key)),
        threshold <= extend_to,
    ensures
        world(*final(env)) == world(*old(env)).note(
            Step::PersistentExtended { key: list_items(*key), threshold, extend_to },
        ),
{
    env.storage().persistent().extend_ttl(key, threshold, extend_to)
}

// ---------------------------------------------------------------------------
// Requests
// ---------------------------------------------------------------------------

/// `Address::require_auth`: returns only where the host confirms that the
/// address authorised this invocation.
#[verifier::external_body]
pub(crate) fn require_auth(env: &mut Env, who: &Address)
    ensures
        world(*final(env)) == world(*old(env)).note(
            Step::Authorized { who: address_text(*who) },
        ),
{
    who.require_auth()
}

/// `Ledger::timestamp`: the closing time of the ledger, in seconds. Nothing is
/// said of which time that is.
#[verifier::external_body]
pub(crate) fn ledger_time(env: &mut Env) -> (now: u64)
    ensures
        steps(*final(env)) == steps(*old(env)).push(Step::ClockRead { now }),
        instance_entries(*final(env)) == instance_entries(*old(env)),
        persistent_entries(*final(env)) == persistent_entries(*old(env)),
        own_address(*final(env)) == own_address(*old(env)),
{
    env.ledger().timestamp()
}

/// `Events::publish`: publishes one event of the contract.
#[verifier::external_body]
#[allow(deprecated)]
pub(crate) fn publish(env: &mut Env, topics: soroban_sdk::Vec<Val>, data: soroban_sdk::Vec<Val>)
    requires
        forall|i: int|
            0 <= i < list_items(topics).len() ==> (#[trigger] list_items(topics)[i]) is Symbol,
    ensures
        world(*final(env)) == world(*old(env)).note(
            Step::Published { topics: list_items(topics), data: list_items(data) },
        ),
{
    env.events().publish(topics, data)
}

/// `Env::try_invoke_contract`: calls a function of another contract and gives
/// its reply, or `None` where the call failed. Nothing is said of what the
/// other contract replies. It cannot write to the stores of this one. The host
/// fails, and gives no reply, where the address is not that of a contract.
#[verifier::external_body]
pub(crate) fn try_call(
    env: &mut Env,
    contract: &Address,
    function: &str,
    args: soroban_sdk::Vec<Val>,
) -> (reply: Option<Val>)
    requires
        world(*old(env)).can_call(address_text(*contract)),
        function_text(function@),
    ensures
        world(*final(env)) == world(*old(env)).call(
            address_text(*contract),
            function@,
            list_items(args),
            (if reply is Some { Some(data_of(reply->0)) } else { None }),
        ),
{
    let function = Symbol::new(env, function);
    match env.try_invoke_contract::<Val, InvokeError>(contract, &function, args) {
        Ok(Ok(reply)) => Some(reply),
        Ok(Err(_)) | Err(_) => None,
    }
}

/// `Env::invoke_contract`, for a reply that is a flag. It returns only where
/// the call succeeds and the reply is of that kind. It never does for an
/// address that is not that of a contract, for the contract that is running,
/// and for a name that the host keeps to itself.
#[verifier::external_body]
pub(crate) fn call_for_flag(
    env: &mut Env,
    contract: &Address,
    function: &str,
    args: soroban_sdk::Vec<Val>,
) -> (reply: bool)
    requires
        world(*old(env)).can_call(address_text(*contract)),
        function_text(function@),
    ensures
        world(*final(env)) == world(*old(env)).call(
            address_text(*contract),
            function@,
            list_items(args),
            Some(Datum::Flag(reply)),
        ),
{
    env.invoke_contract(contract, &Symbol::new(env, function), args)
}

/// `Env::invoke_contract`, for a reply that is a `u32`. It returns only where
/// the call succeeds and the reply is of that kind. It never does for an
/// address that is not that of a contract, for the contract that is running,
/// and for a name that the host keeps to itself.
#[verifier::external_body]
pub(crate) fn call_for_count(
    env: &mut Env,
    contract: &Address,
    function: &str,
    args: soroban_sdk::Vec<Val>,
) -> (reply: u32)
    requires
        world(*old(env)).can_call(address_text(*contract)),
        function_text(function@),
    ensures
        world(*final(env)) == world(*old(env)).call(
            address_text(*contract),
            function@,
            list_items(args),
            Some(Datum::Count(reply)),
        ),
{
    env.invoke_contract(contract, &Symbol::new(env, function), args)
}

/// `Env::invoke_contract`, for a reply that is an `i128`. It returns only where
/// the call succeeds and the reply is of that kind. It never does for an
/// address that is not that of a contract, for the contract that is running,
/// and for a name that the host keeps to itself.
#[verifier::external_body]
pub(crate) fn call_for_amount(
    env: &mut Env,
    contract: &Address,
    function: &str,
    args: soroban_sdk::Vec<Val>,
) -> (reply: i128)
    requires
        world(*old(env)).can_call(address_text(*contract)),
        function_text(function@),
    ensures
        world(*final(env)) == world(*old(env)).call(
            address_text(*contract),
            function@,
            list_items(args),
            Some(Datum::Amount(reply)),
        ),
{
    env.invoke_contract(contract, &Symbol::new(env, function), args)
}

/// `TokenClient::try_symbol`: whether the token contract answers when it is
/// asked for its symbol. Nothing is said of whether it does. The host fails
/// where the address is not that of a contract.
#[verifier::external_body]
pub(crate) fn token_answers(env: &mut Env, token: &Address) -> (answered: bool)
    requires
        world(*old(env)).can_call(address_text(*token)),
    ensures
        world(*final(env)) == world(*old(env)).note(
            Step::TokenProbed { token: address_text(*token), answered },
        ),
{
    TokenClient::new(env, token).try_symbol().is_ok()
}

/// `TokenClient::transfer`: has the token contract move an amount from one
/// address to another. It returns only where the token contract did so, which
/// no token does for a negative amount. It never does for an address that is
/// not that of a contract, and for the contract that is running.
#[verifier::external_body]
pub(crate) fn token_transfer(
    env: &mut Env,
    token: &Address,
    from: &Address,
    to: &Address,
    amount: i128,
)
    requires
        world(*old(env)).can_call(address_text(*token)),
        amount >= 0,
    ensures
        world(*final(env)) == world(*old(env)).note(
            Step::Transferred {
                token: address_text(*token),
                from: address_text(*from),
                to: address_text(*to),
                amount,
            },
        ),
{
    TokenClient::new(env, token).transfer(from, to, &amount)
}

/// `Deployer::update_current_contract_wasm`: replaces the code of the contract
/// that is running by uploaded code with this hash, once the invocation has
/// ended well.
#[verifier::external_body]
#[allow(deprecated)]
pub(crate) fn replace_code(env: &mut Env, hash: BytesN<32>)
    ensures
        world(*final(env)) == world(*old(env)).note(
            Step::CodeReplaced { hash: hash_bytes(hash) },
        ),
{
    env.deployer().update_current_contract_wasm(hash)
}

} // verus!
