//! The value model: every datum that travels between a client and the server.

use crate::decimal::decimal_text;
use crate::ext::{RedisValueInenerToStr, RedisValueInner};
use vstd::prelude::*;

verus! {

/// The integer type carried by `RedisValue::Int`.
pub type RedisInt = i64;

/// A list of integers.
pub type RedisArray = Vec<RedisInt>;

/// Server-internal commands. They steer the session and never reach a client.
#[derive(PartialEq, Eq, Hash, Debug)]
pub enum RedisCommand {
    /// Flush the queued transaction.
    EXEC,
}

/// Any object passing through a client or the server.
#[derive(PartialEq, Eq, Hash, Debug)]
pub enum RedisValue {
    SimpleString(String),
    BulkString(String),
    Array(Vec<RedisValue>),
    Int(RedisInt),
    NullBulkString,
    ErrorMsg(Vec<u8>),
    /// Server private.
    Command(RedisCommand),
}

/// The mathematical content of a `RedisValue`.
pub enum Datum {
    Simple(Seq<char>),
    Bulk(Seq<char>),
    Array(Seq<Datum>),
    Int(int),
    Null,
    Error(Seq<u8>),
    Exec,
}

/// The content of each of `items`, in order.
pub open spec fn views(items: Seq<RedisValue>) -> Seq<Datum> {
    Seq::new(items.len(), |i: int| items[i]@)
}

/// The content of an array is the content of its items.
pub proof fn lemma_array_view(items: Vec<RedisValue>)
    ensures
        RedisValue::Array(items)@ == Datum::Array(views(items@)),
{
    assert(RedisValue::Array(items)@->Array_0 =~= views(items@));
}

impl View for RedisValue {
    type V = Datum;

    open spec fn view(&self) -> Datum
        decreases self,
    {
        match self {
            RedisValue::SimpleString(s) => Datum::Simple(s@),
            RedisValue::BulkString(s) => Datum::Bulk(s@),
            RedisValue::Array(items) => Datum::Array(
                Seq::new(
                    items.len() as nat,
                    |i: int|
                        if 0 <= i < items.len() {
                            items[i]@
                        } else {
                            Datum::Null
                        },
                ),
            ),
            RedisValue::Int(n) => Datum::Int(*n as int),
            RedisValue::NullBulkString => Datum::Null,
            RedisValue::ErrorMsg(bytes) => Datum::Error(bytes@),
            RedisValue::Command(_) => Datum::Exec,
        }
    }
}

impl Clone for RedisCommand {
    fn clone(&self) -> (copy: Self)
        ensures
            copy == *self,
    {
        RedisCommand::EXEC
    }
}

impl Clone for RedisValue {
    fn clone(&self) -> (copy: Self)
        ensures
            copy@ == self@,
        decreases self,
    {
        match self {
            RedisValue::SimpleString(s) => RedisValue::SimpleString(s.clone()),
            RedisValue::BulkString(s) => RedisValue::BulkString(s.clone()),
            RedisValue::Array(items) => {
                let mut copies: Vec<RedisValue> = Vec::new();
                let mut i: usize = 0;
                while i < items.len()
                    invariant
                        *self == RedisValue::Array(*items),
                        i <= items.len(),
                        copies.len() == i,
                        forall|j: int| 0 <= j < i ==> copies[j]@ == items[j]@,
                    decreases items.len() - i,
                {
                    assert(decreases_to!(*self => self->Array_0));
                    copies.push(items[i].clone());
                    i += 1;
                }
                let copy = RedisValue::Array(copies);
                assert(copy@->Array_0 =~= self@->Array_0);
                copy
            },
            RedisValue::Int(n) => RedisValue::Int(*n),
            RedisValue::NullBulkString => RedisValue::NullBulkString,
            RedisValue::ErrorMsg(bytes) => RedisValue::ErrorMsg(bytes.clone()),
            RedisValue::Command(c) => RedisValue::Command(c.clone()),
        }
    }
}

/// The text that a value is keyed by: a string itself, an integer in decimal.
pub open spec fn key_text(d: Datum) -> Seq<char> {
    match d {
        Datum::Simple(text) => text,
        Datum::Bulk(text) => text,
        Datum::Int(n) => decimal_text(n),
        _ => Seq::empty(),
    }
}

/// Whether a value can serve as a key: it is a string or an integer.
pub open spec fn is_key(d: Datum) -> bool {
    d is Simple || d is Bulk || d is Int
}

impl RedisValue {
    /// The text that the value is keyed by.
    pub fn keyize(&self) -> (key: String)
        requires
            is_key(self@),
        ensures
            key@ == key_text(self@),
    {
        match self.unpack_for_str() {
            Some(payload) => payload.to_text(),
            None => String::new(),
        }
    }

    /// Unpacks only variants that hold string types.
    pub fn unpack_str_variant(&self) -> (text: Option<&str>)
        ensures
            text is Some <==> (self@ is Simple || self@ is Bulk),
            text matches Some(t) ==> t@ == key_text(self@),
    {
        match self {
            RedisValue::SimpleString(s) => Some(s.as_str()),
            RedisValue::BulkString(s) => Some(s.as_str()),
            _ => None,
        }
    }

    /// Unpacks only variants that hold int types.
    pub fn unpack_int_variant(&self) -> (number: Option<RedisInt>)
        ensures
            number is Some <==> self@ is Int,
            number matches Some(n) ==> self@ == Datum::Int(n as int),
    {
        match self {
            RedisValue::Int(n) => Some(*n),
            _ => None,
        }
    }

    /// The payload of a string or an integer.
    pub fn unpack(&self) -> (inner: Option<&dyn RedisValueInner>)
        requires
            is_key(self@),
        ensures
            inner matches Some(payload) && payload.text() == key_text(self@),
    {
        match self {
            RedisValue::SimpleString(s) => Some(s),
            RedisValue::BulkString(s) => Some(s),
            RedisValue::Int(n) => Some(n),
            _ => None,
        }
    }

    /// The payload of a string or an integer, as something that can be
    /// written out as text; `None` for every other value.
    pub fn unpack_for_str(&self) -> (inner: Option<&dyn RedisValueInenerToStr>)
        ensures
            inner is Some <==> is_key(self@),
            inner matches Some(payload) ==> payload.written() == key_text(self@),
    {
        match self {
            RedisValue::SimpleString(s) => Some(s),
            RedisValue::BulkString(s) => Some(s),
            RedisValue::Int(n) => Some(n),
            _ => None,
        }
    }
}

} // verus!
