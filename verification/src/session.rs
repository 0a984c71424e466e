//! A connection's session: running commands against the store, one client's
//! keys apart from another's.

use crate::command::{
    command_of, command_verb, extract_cmd, is_word, matches_word, message, message_of, verb,
    verb_of, word_px, CommandError, Verb,
};
use crate::decimal::{parse_u64, parse_unsigned};
use crate::resp::{can_send, parse_bytes, parse_msg, RediSer};
use crate::store::{
    after_increment, after_insert, after_purge, after_read, increment_result, read_result,
    ttl_view, Contents, Database, StoredEntry,
};
use crate::transaction::{Phase, Transaction};
use crate::trusted::{buffer_bytes, buffer_to_vec};
use crate::value::{
    is_key, key_text, lemma_array_view, views, Datum, RedisCommand, RedisValue,
};
use crate::wire::{decode, encode, sendable, RespError};
use bytes::BytesMut;
use vstd::prelude::*;
use vstd::slice::slice_to_vec;
use vstd::utf8::encode_utf8;

verus! {

/// The reply to a command that succeeded.
pub const OK: &'static str = "OK";

/// The reply to `EXEC` when nothing is queued.
pub const EMPTY_ARR: &'static str = "0";

/// The reply to a command that was queued.
pub const QUEUED: &'static str = "QUEUED";

/// The reply to `PING`.
pub const PONG: &'static str = "PONG";

/// The reply to `INCR` on what is no counter.
pub const NOT_A_COUNTER: &'static str = "(error) value is not an integer or out of range";

/// The reply to `EXEC` when no transaction was begun.
pub const NO_TRANSACTION: &'static str = "Exec called with empty queue...";

/// A simple string reply.
pub open spec fn simple(text: &str) -> Datum {
    Datum::Simple(text@)
}

/// An error reply.
pub open spec fn failure(text: &str) -> Datum {
    Datum::Error(encode_utf8(text@))
}

/// Whether `d` is a string.
pub open spec fn is_text(d: Datum) -> bool {
    d is Simple || d is Bulk
}

/// The time to live that the arguments of `SET` ask for.
///
/// The third argument names the option, the fourth gives its value. Only
/// `PX`, a number of milliseconds, is known; any other option, or `PX`
/// without a value, asks for none.
pub open spec fn expiry_of(args: Seq<Datum>) -> Result<Option<nat>, CommandError> {
    if args.len() > 3 && is_text(args[2]) && is_word(encode_utf8(key_text(args[2])), word_px()) {
        if is_text(args[3]) {
            match parse_unsigned(encode_utf8(key_text(args[3]))) {
                Some(millis) => Ok(Some(millis as nat)),
                None => Err(CommandError::BadExpiry),
            }
        } else {
            Err(CommandError::BadExpiry)
        }
    } else {
        Ok(None)
    }
}

/// What running a command does to the store of `owner`, and the reply.
///
/// `MULTI` and `EXEC` steer the session and are no commands here.
pub open spec fn apply(m: Contents, owner: usize, v: Verb, args: Seq<Datum>, now: nat) -> (
    Contents,
    Result<Datum, CommandError>,
) {
    match v {
        Verb::PING => (m, Ok(simple(PONG))),
        Verb::ECHO => if args.len() < 1 {
            (m, Err(CommandError::MissingArgument))
        } else {
            (m, Ok(args[0]))
        },
        Verb::SET => if args.len() < 2 {
            (m, Err(CommandError::MissingArgument))
        } else if !is_key(args[0]) {
            (m, Err(CommandError::BadKey))
        } else {
            match expiry_of(args) {
                Err(e) => (m, Err(e)),
                Ok(ttl) => (
                    after_insert(m, (owner, key_text(args[0])), args[1], ttl, now),
                    Ok(simple(OK)),
                ),
            }
        },
        Verb::GET => if args.len() < 1 {
            (m, Err(CommandError::MissingArgument))
        } else if !is_key(args[0]) {
            (m, Err(CommandError::BadKey))
        } else {
            let slot = (owner, key_text(args[0]));
            (
                after_read(m, slot, now),
                Ok(
                    match read_result(m, slot, now) {
                        Some(value) => value,
                        None => Datum::Null,
                    },
                ),
            )
        },
        Verb::INCR => if args.len() < 1 {
            (m, Err(CommandError::MissingArgument))
        } else if !is_key(args[0]) {
            (m, Err(CommandError::BadKey))
        } else {
            let slot = (owner, key_text(args[0]));
            (
                after_increment(m, slot, now),
                Ok(
                    match increment_result(m, slot, now) {
                        Ok(prior) => Datum::Int(prior + 1),
                        Err(_) => failure(NOT_A_COUNTER),
                    },
                ),
            )
        },
        _ => (m, Err(CommandError::UnknownCommand)),
    }
}

/// The reply that stands for an error.
pub open spec fn refusal(e: CommandError) -> Datum {
    Datum::Error(encode_utf8(message_of(e)))
}

/// What running one queued value does to the store of `owner`, and the reply
/// that goes into the transaction's answer: the command's own, or the error.
pub open spec fn run_one(m: Contents, owner: usize, item: Datum, now: nat) -> (Contents, Datum) {
    match command_of(item) {
        Err(e) => (m, refusal(e)),
        Ok((name, args)) => {
            let (after, reply) = apply(m, owner, verb_of(name), args, now);
            (
                after,
                match reply {
                    Ok(datum) => datum,
                    Err(e) => refusal(e),
                },
            )
        },
    }
}

/// What running the queued values in order does to the store of `owner`, and
/// their replies in the same order.
pub open spec fn run_all(m: Contents, owner: usize, items: Seq<Option<Datum>>, now: nat) -> (
    Contents,
    Seq<Datum>,
)
    decreases items.len(),
{
    if items.len() == 0 {
        (m, Seq::empty())
    } else {
        match items[0] {
            None => run_all(m, owner, items.drop_first(), now),
            Some(item) => {
                let (next, reply) = run_one(m, owner, item, now);
                let (last, replies) = run_all(next, owner, items.drop_first(), now);
                (last, seq![reply] + replies)
            },
        }
    }
}

/// The content of each queued value.
pub open spec fn option_views(items: Seq<Option<RedisValue>>) -> Seq<Option<Datum>> {
    Seq::new(
        items.len(),
        |i: int|
            match items[i] {
                None => None,
                Some(value) => Some(value@),
            },
    )
}

/// A session and the store after a value has been handled.
pub struct Outcome {
    /// What the store holds.
    pub contents: Contents,
    /// The phase of the transaction.
    pub phase: Phase,
    /// What is queued.
    pub pending: Seq<Option<Datum>>,
    /// The reply to the client, or why there is none.
    pub reply: Result<Datum, CommandError>,
}

/// Whether `value` carries the command `EXEC`.
pub open spec fn is_exec(value: Datum) -> bool {
    command_of(value) matches Ok((name, _)) && verb_of(name) == Verb::EXEC
}

/// One step of a session: what handling `value` at the time `now` does.
///
/// While queuing, `EXEC` runs what is queued, in order, and answers with the
/// replies in an array; with nothing queued it answers with an error. Either
/// way the session comes to rest. Any other value is queued as it is.
///
/// Otherwise `MULTI` starts queuing, `EXEC` is an error that changes
/// nothing, and any other command is run.
pub open spec fn step(
    owner: usize,
    contents: Contents,
    phase: Phase,
    pending: Seq<Option<Datum>>,
    value: Datum,
    now: nat,
) -> Outcome {
    if phase == Phase::Queuing {
        if !is_exec(value) {
            Outcome {
                contents,
                phase,
                pending: pending.push(Some(value)),
                reply: Ok(simple(QUEUED)),
            }
        } else if pending.len() == 0 {
            Outcome { contents, phase: Phase::Neutral, pending, reply: Ok(failure(EMPTY_ARR)) }
        } else {
            let (after, replies) = run_all(contents, owner, pending, now);
            Outcome {
                contents: after,
                phase: Phase::Neutral,
                pending: Seq::empty(),
                reply: Ok(Datum::Array(replies)),
            }
        }
    } else {
        match command_of(value) {
            Err(e) => Outcome { contents, phase, pending, reply: Err(e) },
            Ok((name, args)) => match verb_of(name) {
                Verb::MULTI => Outcome {
                    contents,
                    phase: Phase::Queuing,
                    pending,
                    reply: Ok(simple(OK)),
                },
                Verb::EXEC => Outcome {
                    contents,
                    phase,
                    pending,
                    reply: Ok(failure(NO_TRANSACTION)),
                },
                v => {
                    let (after, reply) = apply(contents, owner, v, args, now);
                    Outcome { contents: after, phase, pending, reply }
                },
            },
        }
    }
}

/// What a connection does with the outcome of a value: the bytes to send, or
/// `None` where the connection is to be closed.
///
/// A reply is sent as it is encoded. So is the error for a command that the
/// server does not know; after any other error, and rather than send the
/// internal tag, the connection is closed.
pub open spec fn answer(reply: Result<Datum, CommandError>) -> Option<Seq<u8>> {
    match reply {
        Ok(datum) => if sendable(datum) {
            Some(encode(datum))
        } else {
            None
        },
        Err(CommandError::UnknownCommand) => Some(encode(refusal(CommandError::UnknownCommand))),
        Err(_) => None,
    }
}

/// A session and the store after a request has been served, and what the
/// connection is to do.
pub struct Served {
    /// What the store holds.
    pub contents: Contents,
    /// The phase of the transaction.
    pub phase: Phase,
    /// What is queued.
    pub pending: Seq<Option<Datum>>,
    /// The bytes to send, or `None` where the connection is to be closed.
    pub action: Option<Seq<u8>>,
}

/// One turn of a connection: what serving the bytes `request` at the time
/// `now` does.
///
/// Bytes that are no value close the connection and change nothing. Else the
/// value at their head is handled, and its outcome answered.
pub open spec fn serve_step(
    owner: usize,
    contents: Contents,
    phase: Phase,
    pending: Seq<Option<Datum>>,
    request: Seq<u8>,
    now: nat,
) -> Served {
    match decode(request) {
        Err(_) => Served { contents, phase, pending, action: None },
        Ok((value, _)) => {
            let outcome = step(owner, contents, phase, pending, value, now);
            Served {
                contents: outcome.contents,
                phase: outcome.phase,
                pending: outcome.pending,
                action: answer(outcome.reply),
            }
        },
    }
}

/// Whether what a connection was told to do is what the model says.
pub open spec fn acted(action: Option<Vec<u8>>, expected: Option<Seq<u8>>) -> bool {
    match (action, expected) {
        (Some(bytes), Some(wire)) => bytes@ == wire,
        (None, None) => true,
        _ => false,
    }
}

/// Whether what a command returned is what the model says.
pub open spec fn replied(
    reply: Result<RedisValue, CommandError>,
    expected: Result<Datum, CommandError>,
) -> bool {
    match (reply, expected) {
        (Ok(value), Ok(datum)) => value@ == datum,
        (Err(e), Err(f)) => e == f,
        _ => false,
    }
}

/// A simple string reply with the given text.
pub fn simple_reply(text: &str) -> (reply: RedisValue)
    ensures
        reply@ == simple(text),
{
    RedisValue::SimpleString(text.to_owned())
}

/// An error reply with the given text.
pub fn error_reply(text: &str) -> (reply: RedisValue)
    ensures
        reply@ == failure(text),
{
    RedisValue::ErrorMsg(slice_to_vec(text.as_bytes()))
}

/// Reads the time to live that the arguments of `SET` ask for.
pub fn expiry(args: &Vec<RedisValue>) -> (ttl: Result<Option<u64>, CommandError>)
    ensures
        match ttl {
            Ok(t) => expiry_of(views(args@)) == Ok::<Option<nat>, CommandError>(ttl_view(t)),
            Err(e) => expiry_of(views(args@)) == Err::<Option<nat>, CommandError>(e),
        },
{
    if args.len() < 4 {
        return Ok(None);
    }
    match args[2].unpack_str_variant() {
        None => Ok(None),
        Some(option) => {
            if matches_word(option.as_bytes(), &[112u8, 120u8]) {
                match args[3].unpack_str_variant() {
                    None => Err(CommandError::BadExpiry),
                    Some(text) => match parse_u64(text.as_bytes()) {
                        Some(millis) => Ok(Some(millis)),
                        None => Err(CommandError::BadExpiry),
                    },
                }
            } else {
                Ok(None)
            }
        },
    }
}

/// The session of one client. Its keys are its own: no other client sees them.
pub struct RespHandler {
    client_id: usize,
}

impl RespHandler {
    /// The client that the session belongs to.
    pub closed spec fn id(&self) -> usize {
        self.client_id
    }

    /// A session for the client `id`.
    pub fn new(id: usize) -> (handler: Self)
        ensures
            handler.id() == id,
    {
        RespHandler { client_id: id }
    }

    /// The client that the session belongs to.
    pub fn client_id(&self) -> (id: usize)
        ensures
            id == self.id(),
    {
        self.client_id
    }

    /// Writes `value` under `key` at the time `now`, whatever was there before.
    pub fn add_entry(
        &self,
        db: &mut Database,
        key: String,
        value: RedisValue,
        exp: Option<u64>,
        now: u128,
    )
        ensures
            final(db)@ == after_insert(
                old(db)@,
                (self.id(), key@),
                value@,
                ttl_view(exp),
                now as nat,
            ),
    {
        db.insert_at(self.client_id, key, value, exp, now);
    }

    /// Writes `value` under the key that `redval` stands for.
    pub fn insert(
        &self,
        db: &mut Database,
        redval: &RedisValue,
        value: RedisValue,
        exp: Option<u64>,
        now: u128,
    )
        requires
            is_key(redval@),
        ensures
            final(db)@ == after_insert(
                old(db)@,
                (self.id(), key_text(redval@)),
                value@,
                ttl_view(exp),
                now as nat,
            ),
    {
        let key = redval.keyize();
        self.add_entry(db, key, value, exp, now);
    }

    /// Removes what is under `key`, if anything.
    pub fn remove_entry(&self, db: &mut Database, key: &String)
        ensures
            final(db)@ == old(db)@.remove((self.id(), key@)),
    {
        db.remove(self.client_id, key.as_str());
    }

    /// Removes every key of this client from the store, and no other.
    pub fn cleanup(&self, db: &mut Database)
        ensures
            final(db)@ == after_purge(old(db)@, self.id()),
    {
        db.purge(self.client_id);
    }

    /// The entry under the key that `key` stands for, if it has not lapsed
    /// at the time `now`. One that has is removed.
    pub fn get_set(&self, db: &mut Database, key: &RedisValue, now: u128) -> (entry: Option<
        StoredEntry,
    >)
        requires
            is_key(key@),
        ensures
            final(db)@ == after_read(old(db)@, (self.id(), key_text(key@)), now as nat),
            match entry {
                Some(e) => old(db)@.contains_key((self.id(), key_text(key@))) && e@ == old(
                    db,
                )@[(self.id(), key_text(key@))] && e@.live(now as nat),
                None => read_result(old(db)@, (self.id(), key_text(key@)), now as nat) is None,
            },
    {
        let text = key.keyize();
        match db.peek(self.client_id, text.as_str()) {
            None => None,
            Some(entry) => {
                if entry.rtime_valid(now) {
                    Some(entry)
                } else {
                    db.remove(self.client_id, text.as_str());
                    None
                }
            },
        }
    }

    /// The value under the key that `key` stands for, if it has not lapsed
    /// at the time `now`. One that has is removed.
    pub fn get_val(&self, db: &mut Database, key: &RedisValue, now: u128) -> (value: Option<
        RedisValue,
    >)
        requires
            is_key(key@),
        ensures
            final(db)@ == after_read(old(db)@, (self.id(), key_text(key@)), now as nat),
            match value {
                Some(v) => read_result(old(db)@, (self.id(), key_text(key@)), now as nat) == Some(
                    v@,
                ),
                None => read_result(old(db)@, (self.id(), key_text(key@)), now as nat) is None,
            },
    {
        let text = key.keyize();
        db.read_at(self.client_id, text.as_str(), now)
    }

    /// Increments the counter under the key that `key` stands for, and
    /// returns the number that it held before; `None`, and no change, where
    /// it holds no integer or the largest one.
    pub fn incr(&self, db: &mut Database, key: &RedisValue, now: u128) -> (prior: Option<
        RedisValue,
    >)
        requires
            is_key(key@),
        ensures
            final(db)@ == after_increment(old(db)@, (self.id(), key_text(key@)), now as nat),
            match prior {
                Some(v) => increment_result(
                    old(db)@,
                    (self.id(), key_text(key@)),
                    now as nat,
                ) matches Ok(n) && v@ == Datum::Int(n as int),
                None => increment_result(old(db)@, (self.id(), key_text(key@)), now as nat) is Err,
            },
    {
        let text = key.keyize();
        match db.increment_at(self.client_id, text.as_str(), now) {
            Ok(n) => Some(RedisValue::Int(n)),
            Err(_) => None,
        }
    }

    /// Runs a command against the store at the time `now`, and returns the
    /// reply.
    pub fn handle_command(
        &self,
        db: &mut Database,
        command: &str,
        args: Vec<RedisValue>,
        now: u128,
    ) -> (reply: Result<RedisValue, CommandError>)
        ensures
            final(db)@ == apply(
                old(db)@,
                self.id(),
                verb_of(command@),
                views(args@),
                now as nat,
            ).0,
            replied(
                reply,
                apply(old(db)@, self.id(), verb_of(command@), views(args@), now as nat).1,
            ),
    {
        self.run(db, verb(command), &args, now)
    }

    /// Runs the command `v` against the store at the time `now`.
    pub fn run(&self, db: &mut Database, v: Verb, args: &Vec<RedisValue>, now: u128) -> (reply:
        Result<RedisValue, CommandError>)
        ensures
            final(db)@ == apply(old(db)@, self.id(), v, views(args@), now as nat).0,
            replied(reply, apply(old(db)@, self.id(), v, views(args@), now as nat).1),
    {
        match v {
            Verb::PING => Ok(simple_reply(PONG)),
            Verb::ECHO => {
                if args.len() < 1 {
                    return Err(CommandError::MissingArgument);
                }
                Ok(args[0].clone())
            },
            Verb::SET => {
                if args.len() < 2 {
                    return Err(CommandError::MissingArgument);
                }
                let key = match args[0].unpack_for_str() {
                    None => {
                        return Err(CommandError::BadKey);
                    },
                    Some(payload) => payload.to_text(),
                };
                let ttl = match expiry(args) {
                    Err(e) => {
                        return Err(e);
                    },
                    Ok(ttl) => ttl,
                };
                self.add_entry(db, key, args[1].clone(), ttl, now);
                Ok(simple_reply(OK))
            },
            Verb::GET => {
                if args.len() < 1 {
                    return Err(CommandError::MissingArgument);
                }
                if args[0].unpack_for_str().is_none() {
                    return Err(CommandError::BadKey);
                }
                match self.get_val(db, &args[0], now) {
                    Some(value) => Ok(value),
                    None => Ok(RedisValue::NullBulkString),
                }
            },
            Verb::INCR => {
                if args.len() < 1 {
                    return Err(CommandError::MissingArgument);
                }
                let key = match args[0].unpack_for_str() {
                    None => {
                        return Err(CommandError::BadKey);
                    },
                    Some(payload) => payload.to_text(),
                };
                match db.increment_at(self.client_id, key.as_str(), now) {
                    Ok(prior) => Ok(RedisValue::Int(prior + 1)),
                    Err(_) => Ok(error_reply(NOT_A_COUNTER)),
                }
            },
            _ => Err(CommandError::UnknownCommand),
        }
    }

    /// Starts a transaction: from now on commands are queued.
    pub fn handle_multi(&self, transaction: &mut Transaction) -> (reply: RedisValue)
        ensures
            reply@ == simple(OK),
            final(transaction).phase() == Phase::Queuing,
            final(transaction).pending() == old(transaction).pending(),
    {
        transaction.switch_trans();
        simple_reply(OK)
    }

    /// Decides what `EXEC` does.
    ///
    /// With commands queued, the transaction starts to run and the internal
    /// tag is returned: the queue is to be run. With nothing queued the
    /// reply is an error and the transaction comes to rest. Where no
    /// transaction was begun the reply is an error and nothing changes.
    pub fn handle_exec(&self, transaction: &mut Transaction) -> (reply: RedisValue)
        ensures
            final(transaction).pending() == old(transaction).pending(),
            old(transaction).phase() != Phase::Queuing ==> reply@ == failure(NO_TRANSACTION)
                && final(transaction).phase() == old(transaction).phase(),
            old(transaction).phase() == Phase::Queuing && old(transaction).pending().len() == 0
                ==> reply@ == failure(EMPTY_ARR) && final(transaction).phase() == Phase::Neutral,
            old(transaction).phase() == Phase::Queuing && old(transaction).pending().len() > 0
                ==> reply@ == Datum::Exec && final(transaction).phase() == Phase::Executing,
    {
        match transaction.current() {
            Phase::Queuing => {
                if transaction.queued() == 0 {
                    transaction.switch_neutral();
                    error_reply(EMPTY_ARR)
                } else {
                    transaction.switch_exec();
                    RedisValue::Command(RedisCommand::EXEC)
                }
            },
            _ => error_reply(NO_TRANSACTION),
        }
    }

    /// Runs one queued value, and returns what goes into the transaction's
    /// answer for it.
    pub fn run_queued(&self, db: &mut Database, item: RedisValue, now: u128) -> (reply: RedisValue)
        ensures
            final(db)@ == run_one(old(db)@, self.id(), item@, now as nat).0,
            reply@ == run_one(old(db)@, self.id(), item@, now as nat).1,
    {
        match extract_cmd(item) {
            Err(e) => error_reply(message(e)),
            Ok((name, args)) => match self.handle_command(db, name.as_str(), args, now) {
                Ok(reply) => reply,
                Err(e) => error_reply(message(e)),
            },
        }
    }

    /// Runs everything that is queued, in the order in which it came, and
    /// returns the replies in that order.
    pub fn run_queue(&self, transaction: &mut Transaction, db: &mut Database, now: u128) -> (replies:
        Vec<RedisValue>)
        ensures
            final(db)@ == run_all(
                old(db)@,
                self.id(),
                option_views(old(transaction).pending()),
                now as nat,
            ).0,
            views(replies@) == run_all(
                old(db)@,
                self.id(),
                option_views(old(transaction).pending()),
                now as nat,
            ).1,
            final(transaction).pending().len() == 0,
            final(transaction).phase() == old(transaction).phase(),
    {
        let mut replies: Vec<RedisValue> = Vec::new();
        let ghost goal = run_all(
            old(db)@,
            self.id(),
            option_views(old(transaction).pending()),
            now as nat,
        );
        while transaction.queued() > 0
            invariant
                transaction.phase() == old(transaction).phase(),
                goal == ({
                    let (last, rest) = run_all(
                        db@,
                        self.id(),
                        option_views(transaction.pending()),
                        now as nat,
                    );
                    (last, views(replies@) + rest)
                }),
            decreases transaction.pending().len(),
        {
            let ghost before = option_views(transaction.pending());
            let elt = transaction.pop();
            assert(option_views(transaction.pending()) =~= before.drop_first());
            match elt {
                Some(Some(item)) => {
                    let reply = self.run_queued(db, item, now);
                    replies.push(reply);
                },
                _ => {},
            }
        }
        replies
    }

    /// Handles one value that a client sent, at the time `now`, and returns
    /// the reply.
    pub fn handle_value_at(
        &self,
        transaction: &mut Transaction,
        db: &mut Database,
        value: RedisValue,
        now: u128,
    ) -> (reply: Result<RedisValue, CommandError>)
        ensures
            ({
                let outcome = step(
                    self.id(),
                    old(db)@,
                    old(transaction).phase(),
                    option_views(old(transaction).pending()),
                    value@,
                    now as nat,
                );
                &&& final(db)@ == outcome.contents
                &&& final(transaction).phase() == outcome.phase
                &&& option_views(final(transaction).pending()) == outcome.pending
                &&& replied(reply, outcome.reply)
            }),
    {
        let carried = command_verb(&value);
        match transaction.current() {
            Phase::Queuing => {
                match carried {
                    Some(Verb::EXEC) => {
                        let signal = self.handle_exec(transaction);
                        match signal {
                            RedisValue::Command(_) => {
                                let replies = self.run_queue(transaction, db, now);
                                transaction.switch_neutral();
                                proof {
                                    lemma_array_view(replies);
                                }
                                Ok(RedisValue::Array(replies))
                            },
                            other => Ok(other),
                        }
                    },
                    _ => {
                        transaction.push(Some(value));
                        Ok(simple_reply(QUEUED))
                    },
                }
            },
            _ => match extract_cmd(value) {
                Err(e) => Err(e),
                Ok((name, args)) => match verb(name.as_str()) {
                    Verb::MULTI => Ok(self.handle_multi(transaction)),
                    Verb::EXEC => Ok(self.handle_exec(transaction)),
                    v => self.run(db, v, &args, now),
                },
            },
        }
    }

    /// Handles one value that a client sent, at the time on the store's clock.
    pub fn handle_value(
        &self,
        transaction: &mut Transaction,
        db: &mut Database,
        value: RedisValue,
    ) -> (reply: Result<RedisValue, CommandError>)
        ensures
            exists|now: nat|
                {
                    let outcome = #[trigger] step(
                        self.id(),
                        old(db)@,
                        old(transaction).phase(),
                        option_views(old(transaction).pending()),
                        value@,
                        now,
                    );
                    &&& final(db)@ == outcome.contents
                    &&& final(transaction).phase() == outcome.phase
                    &&& option_views(final(transaction).pending()) == outcome.pending
                    &&& replied(reply, outcome.reply)
                },
    {
        let now = db.now();
        self.handle_value_at(transaction, db, value, now)
    }

    /// Decodes what was read from a client: `None` where nothing was read,
    /// which is how a client leaves; else the value at the head of `buffer`.
    pub fn read_value(&self, bytes_read: usize, buffer: BytesMut) -> (value: Result<
        Option<RedisValue>,
        RespError,
    >)
        ensures
            bytes_read == 0 ==> value == Ok::<Option<RedisValue>, RespError>(None),
            bytes_read > 0 ==> (match decode(buffer_bytes(buffer)) {
                Ok((datum, _)) => value matches Ok(Some(v)) && v@ == datum,
                Err(e) => value == Err::<Option<RedisValue>, RespError>(e),
            }),
    {
        if bytes_read == 0 {
            return Ok(None);
        }
        match parse_msg(buffer) {
            Ok((value, _)) => Ok(Some(value)),
            Err(e) => Err(e),
        }
    }

    /// Encodes what is to be written to a client.
    pub fn write_value<T: RediSer>(&self, value: T) -> (bytes: Vec<u8>)
        requires
            value.sendable(),
        ensures
            bytes@ == value.wire(),
    {
        value.serialize()
    }

    /// Turns the outcome of a value into what the connection is to do: the
    /// bytes to send, or `None` where it is to be closed.
    pub fn respond(&self, reply: Result<RedisValue, CommandError>) -> (action: Option<Vec<u8>>)
        ensures
            match reply {
                Ok(value) => acted(action, answer(Ok(value@))),
                Err(e) => acted(action, answer(Err(e))),
            },
    {
        match reply {
            Ok(value) => {
                if can_send(&value) {
                    Some(value.serialize())
                } else {
                    None
                }
            },
            Err(CommandError::UnknownCommand) => Some(
                error_reply(message(CommandError::UnknownCommand)).serialize(),
            ),
            Err(_) => None,
        }
    }

    /// Serves the bytes that a client sent, at the time `now`: decodes the
    /// value at their head, handles it, and encodes the reply.
    pub fn serve_at(
        &self,
        transaction: &mut Transaction,
        db: &mut Database,
        request: &[u8],
        now: u128,
    ) -> (action: Option<Vec<u8>>)
        ensures
            ({
                let served = serve_step(
                    self.id(),
                    old(db)@,
                    old(transaction).phase(),
                    option_views(old(transaction).pending()),
                    request@,
                    now as nat,
                );
                &&& final(db)@ == served.contents
                &&& final(transaction).phase() == served.phase
                &&& option_views(final(transaction).pending()) == served.pending
                &&& acted(action, served.action)
            }),
    {
        match parse_bytes(request) {
            Err(_) => None,
            Ok((value, _)) => {
                let reply = self.handle_value_at(transaction, db, value, now);
                self.respond(reply)
            },
        }
    }

    /// Serves the buffer that a client filled, at the time on the store's clock.
    pub fn serve(&self, transaction: &mut Transaction, db: &mut Database, request: BytesMut) -> (action:
        Option<Vec<u8>>)
        ensures
            exists|now: nat|
                {
                    let served = #[trigger] serve_step(
                        self.id(),
                        old(db)@,
                        old(transaction).phase(),
                        option_views(old(transaction).pending()),
                        buffer_bytes(request),
                        now,
                    );
                    &&& final(db)@ == served.contents
                    &&& final(transaction).phase() == served.phase
                    &&& option_views(final(transaction).pending()) == served.pending
                    &&& acted(action, served.action)
                },
    {
        let bytes = buffer_to_vec(&request);
        let now = db.now();
        self.serve_at(transaction, db, bytes.as_slice(), now)
    }
}

} // verus!
