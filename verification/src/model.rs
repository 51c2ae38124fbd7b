//! The mathematical model of the ledger that a contract runs on.
//!
//! Every contract in this crate is stated over a [`World`]: what the contract
//! has in its two stores, and the list of everything that it has asked of the
//! host so far, answers included.
//!
//! The worlds of a contract are those at the call of a function and at its
//! return. Where a function of the contract returns an error, the host then
//! takes back everything that the invocation did.

use vstd::prelude::*;

verus! {

/// What a value of the host holds.
pub enum Datum {
    Void,
    Flag(bool),
    Count(u32),
    Time(u64),
    Amount(i128),
    /// A symbol, by its characters.
    Symbol(Seq<char>),
    /// A string, by its bytes.
    Text(Seq<u8>),
    /// An address, by its Stellar text form.
    Account(Seq<u8>),
    List(Seq<Datum>),
    /// A map of the host, by its entries in the order of their keys. No two
    /// entries have the same key.
    Table(Seq<(Datum, Datum)>),
    /// A value of any other kind, by its serialised form.
    Other(Seq<u8>),
}

impl Datum {
    /// The value that a record holds under a symbol, if it is a record and
    /// holds one.
    pub open spec fn field(self, name: Seq<char>) -> Option<Datum> {
        match self {
            Datum::Table(entries) => if exists|i: int|
                0 <= i < entries.len() && (#[trigger] entries[i]).0 == Datum::Symbol(name) {
                let i = choose|i: int|
                    0 <= i < entries.len() && (#[trigger] entries[i]).0 == Datum::Symbol(name);
                Some(entries[i].1)
            } else {
                None
            },
            _ => None,
        }
    }
}

/// One thing that the contract has asked of the host, with the host's answer.
pub enum Step {
    /// The host confirmed that this address authorised the invocation.
    Authorized { who: Seq<u8> },
    /// Another contract was called. The reply is `None` where the call failed.
    Called {
        contract: Seq<u8>,
        function: Seq<char>,
        args: Seq<Datum>,
        reply: Option<Datum>,
    },
    /// A token contract was asked for its symbol.
    TokenProbed { token: Seq<u8>, answered: bool },
    /// A token contract moved an amount.
    Transferred { token: Seq<u8>, from: Seq<u8>, to: Seq<u8>, amount: i128 },
    /// An event was published.
    Published { topics: Seq<Datum>, data: Seq<Datum> },
    /// An entry of the instance store was written.
    InstanceSet { key: Seq<Datum>, value: Datum },
    /// An entry of the persistent store was written.
    PersistentSet { key: Seq<Datum>, value: Datum },
    /// The lifetime of the contract instance was extended.
    InstanceExtended { threshold: u32, extend_to: u32 },
    /// The lifetime of a persistent entry was extended.
    PersistentExtended { key: Seq<Datum>, threshold: u32, extend_to: u32 },
    /// The ledger's clock was read.
    ClockRead { now: u64 },
    /// The code of the contract was replaced.
    CodeReplaced { hash: Seq<u8> },
}

/// The ledger as the contract sees it.
#[verifier::ext_equal]
pub struct World {
    /// The instance store.
    pub instance: Map<Seq<Datum>, Datum>,
    /// The persistent store.
    pub persistent: Map<Seq<Datum>, Datum>,
    /// What the contract has asked of the host, oldest first.
    pub steps: Seq<Step>,
    /// The address of the contract.
    pub own: Seq<u8>,
}

/// Whether the host takes this text for a symbol.
pub open spec fn symbol_text(text: Seq<char>) -> bool {
    &&& text.len() <= 32
    &&& forall|i: int| 0 <= i < text.len() ==> symbol_char(#[trigger] text[i])
}

/// Whether a symbol can hold this character.
pub open spec fn symbol_char(c: char) -> bool {
    ||| 'a' <= c <= 'z'
    ||| 'A' <= c <= 'Z'
    ||| '0' <= c <= '9'
    ||| c == '_'
}

/// Whether the host takes this text for the name of a function that another
/// contract can call: the names with two leading underscores are its own.
pub open spec fn function_text(text: Seq<char>) -> bool {
    &&& symbol_text(text)
    &&& !(text.len() >= 2 && text[0] == '_' && text[1] == '_')
}

/// Whether a value is one of those that the keys are made of. The host does not
/// take every value in a key.
pub open spec fn key_item(datum: Datum) -> bool {
    datum is Symbol || datum is Count || datum is Account
}

/// Whether the values of a key are those that the keys are made of.
pub open spec fn key_path(path: Seq<Datum>) -> bool {
    forall|i: int| 0 <= i < path.len() ==> key_item(#[trigger] path[i])
}

impl World {
    /// The world after one more step that leaves both stores alone.
    pub open spec fn note(self, step: Step) -> World {
        World { steps: self.steps.push(step), ..self }
    }

    /// The world after a write to the instance store.
    pub open spec fn set_instance(self, key: Seq<Datum>, value: Datum) -> World {
        World {
            instance: self.instance.insert(key, value),
            steps: self.steps.push(Step::InstanceSet { key, value }),
            ..self
        }
    }

    /// The world after a write to the persistent store.
    pub open spec fn set_persistent(self, key: Seq<Datum>, value: Datum) -> World {
        World {
            persistent: self.persistent.insert(key, value),
            steps: self.steps.push(Step::PersistentSet { key, value }),
            ..self
        }
    }

    /// The world after a call of another contract.
    pub open spec fn call(
        self,
        contract: Seq<u8>,
        function: Seq<char>,
        args: Seq<Datum>,
        reply: Option<Datum>,
    ) -> World {
        self.note(Step::Called { contract, function, args, reply })
    }

    /// The world after an event with one topic.
    pub open spec fn publish(self, topic: Seq<char>, data: Seq<Datum>) -> World {
        self.note(Step::Published { topics: seq![Datum::Symbol(topic)], data })
    }
}

} // verus!
