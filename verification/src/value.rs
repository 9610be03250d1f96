//! The parsed JSON-like tree that a decode reads.

use crate::double::Double;
use crate::text::same_text;
use vstd::prelude::*;

verus! {

/// The key of an object member. A host may hand out keys that are not
/// strings; they are all `Symbol` here.
#[derive(Debug, PartialEq)]
pub enum Key {
    Name(String),
    Symbol,
}

/// One member of an object.
#[derive(Debug, PartialEq)]
pub struct Member {
    pub key: Key,
    pub value: Value,
}

/// A parsed value. The members of an object are kept in the order in which
/// the object enumerates its keys.
#[derive(Debug, PartialEq)]
pub enum Value {
    Null,
    Bool(bool),
    Number(Double),
    Text(String),
    Array(Vec<Value>),
    Object(Vec<Member>),
}

/// Whether the member's key is the string `name`.
pub open spec fn is_named(member: Member, name: Seq<char>) -> bool {
    member.key matches Key::Name(key) && key@ == name
}

/// The value of the first member whose key is the string `name`.
pub open spec fn first_named(members: Seq<Member>, name: Seq<char>) -> Option<Value>
    decreases members.len(),
{
    if members.len() == 0 {
        None
    } else if is_named(members[0], name) {
        Some(members[0].value)
    } else {
        first_named(members.drop_first(), name)
    }
}

impl Value {
    /// The members of an object; nothing else has members.
    pub open spec fn members(self) -> Seq<Member> {
        match self {
            Value::Object(members) => members@,
            _ => Seq::empty(),
        }
    }

    /// The value stored under `name`, if the value is an object with such a
    /// member.
    pub open spec fn field(self, name: Seq<char>) -> Option<Value> {
        first_named(self.members(), name)
    }

    /// The characters of a string value.
    pub open spec fn text(self) -> Option<Seq<char>> {
        match self {
            Value::Text(text) => Some(text@),
            _ => None,
        }
    }

    /// The number of a numeric value.
    pub open spec fn number(self) -> Option<Double> {
        match self {
            Value::Number(number) => Some(number),
            _ => None,
        }
    }

    /// The characters of the string stored under `name`.
    pub open spec fn text_field(self, name: Seq<char>) -> Option<Seq<char>> {
        match self.field(name) {
            Some(value) => value.text(),
            None => None,
        }
    }

    /// The number stored under `name`.
    pub open spec fn number_field(self, name: Seq<char>) -> Option<Double> {
        match self.field(name) {
            Some(value) => value.number(),
            None => None,
        }
    }

    /// Looks a field up by name. Only an object has fields; where two members
    /// share the name, the first one is found.
    pub fn get(&self, name: &str) -> (r: Option<&Value>)
        ensures
            match r {
                Some(value) => self.field(name@) == Some(*value),
                None => self.field(name@) is None,
            },
    {
        match self {
            Value::Object(members) => {
                let mut at: usize = 0;
                assert(members@.subrange(0, members@.len() as int) =~= members@);
                while at < members.len()
                    invariant
                        at <= members@.len(),
                        self.members() == members@,
                        first_named(members@, name@) == first_named(
                            members@.subrange(at as int, members@.len() as int),
                            name@,
                        ),
                    decreases members@.len() - at,
                {
                    let ghost rest = members@.subrange(at as int, members@.len() as int);
                    assert(rest[0] == members@[at as int]);
                    assert(rest.drop_first() =~= members@.subrange(
                        at + 1,
                        members@.len() as int,
                    ));
                    let member = &members[at];
                    let found = match &member.key {
                        Key::Name(key) => same_text(key.as_str(), name),
                        Key::Symbol => false,
                    };
                    assert(found == is_named(rest[0], name@));
                    if found {
                        return Some(&member.value);
                    }
                    at = at + 1;
                }
                None
            },
            _ => None,
        }
    }

    /// The string of a string value.
    pub fn as_text(&self) -> (r: Option<&String>)
        ensures
            match r {
                Some(text) => self.text() == Some(text@),
                None => self.text() is None,
            },
    {
        match self {
            Value::Text(text) => Some(text),
            _ => None,
        }
    }

    /// The number of a numeric value.
    pub fn as_number(&self) -> (r: Option<Double>)
        ensures
            r == self.number(),
    {
        match self {
            Value::Number(number) => Some(*number),
            _ => None,
        }
    }
}

} // verus!
