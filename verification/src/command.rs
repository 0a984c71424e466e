//! Commands: telling a command from the value that carries it.

use crate::value::{lemma_array_view, views, Datum, RedisValue};
use vstd::prelude::*;
use vstd::utf8::encode_utf8;

verus! {

/// Why a value could not be run as a command.
#[derive(Clone, Copy, Debug, PartialEq, Eq)]
pub enum CommandError {
    /// The value is neither a simple string nor an array that starts with a
    /// bulk string.
    Malformed,
    /// The command's name is not one that the server knows.
    UnknownCommand,
    /// The command lacks an argument that it needs.
    MissingArgument,
    /// The key is neither a string nor an integer.
    BadKey,
    /// The expiry is not a number of milliseconds.
    BadExpiry,
}

/// What a client is told of an error.
pub open spec fn message_of(e: CommandError) -> Seq<char> {
    match e {
        CommandError::Malformed => "ERR malformed command"@,
        CommandError::UnknownCommand => "ERR unknown command"@,
        CommandError::MissingArgument => "ERR wrong number of arguments"@,
        CommandError::BadKey => "ERR invalid key"@,
        CommandError::BadExpiry => "ERR invalid expire time"@,
    }
}

/// What a client is told of an error.
pub fn message(e: CommandError) -> (text: &'static str)
    ensures
        text@ == message_of(e),
{
    match e {
        CommandError::Malformed => "ERR malformed command",
        CommandError::UnknownCommand => "ERR unknown command",
        CommandError::MissingArgument => "ERR wrong number of arguments",
        CommandError::BadKey => "ERR invalid key",
        CommandError::BadExpiry => "ERR invalid expire time",
    }
}

/// The commands that the server knows.
#[derive(Clone, Copy, Debug, PartialEq, Eq)]
pub enum Verb {
    MULTI,
    EXEC,
    PING,
    ECHO,
    SET,
    GET,
    INCR,
    /// Any other name.
    Unknown,
}

/// `b` in lower case, if it is an ASCII capital; else `b`.
pub open spec fn lower(b: u8) -> u8 {
    if 65 <= b <= 90 {
        (b + 32) as u8
    } else {
        b
    }
}

/// Whether `name` is `word` but for the case of its ASCII letters.
pub open spec fn is_word(name: Seq<u8>, word: Seq<u8>) -> bool {
    name.len() == word.len() && forall|i: int| 0 <= i < name.len() ==> lower(name[i]) == word[i]
}

/// The bytes of `multi`.
pub open spec fn word_multi() -> Seq<u8> {
    seq![109u8, 117u8, 108u8, 116u8, 105u8]
}

/// The bytes of `exec`.
pub open spec fn word_exec() -> Seq<u8> {
    seq![101u8, 120u8, 101u8, 99u8]
}

/// The bytes of `ping`.
pub open spec fn word_ping() -> Seq<u8> {
    seq![112u8, 105u8, 110u8, 103u8]
}

/// The bytes of `echo`.
pub open spec fn word_echo() -> Seq<u8> {
    seq![101u8, 99u8, 104u8, 111u8]
}

/// The bytes of `set`.
pub open spec fn word_set() -> Seq<u8> {
    seq![115u8, 101u8, 116u8]
}

/// The bytes of `get`.
pub open spec fn word_get() -> Seq<u8> {
    seq![103u8, 101u8, 116u8]
}

/// The bytes of `incr`.
pub open spec fn word_incr() -> Seq<u8> {
    seq![105u8, 110u8, 99u8, 114u8]
}

/// The bytes of `px`.
pub open spec fn word_px() -> Seq<u8> {
    seq![112u8, 120u8]
}

/// The command that `name` names, whatever the case of its letters.
pub open spec fn verb_of(name: Seq<char>) -> Verb {
    let bytes = encode_utf8(name);
    if is_word(bytes, word_multi()) {
        Verb::MULTI
    } else if is_word(bytes, word_exec()) {
        Verb::EXEC
    } else if is_word(bytes, word_ping()) {
        Verb::PING
    } else if is_word(bytes, word_echo()) {
        Verb::ECHO
    } else if is_word(bytes, word_set()) {
        Verb::SET
    } else if is_word(bytes, word_get()) {
        Verb::GET
    } else if is_word(bytes, word_incr()) {
        Verb::INCR
    } else {
        Verb::Unknown
    }
}

/// Whether `name` is `word` but for the case of its ASCII letters.
pub fn matches_word(name: &[u8], word: &[u8]) -> (same: bool)
    ensures
        same == is_word(name@, word@),
{
    if name.len() != word.len() {
        return false;
    }
    let mut i: usize = 0;
    while i < name.len()
        invariant
            name@.len() == word@.len(),
            i <= name@.len(),
            forall|j: int| 0 <= j < i ==> lower(name@[j]) == word@[j],
        decreases name@.len() - i,
    {
        let b = name[i];
        let folded: u8 = if 65 <= b && b <= 90 {
            b + 32
        } else {
            b
        };
        if folded != word[i] {
            return false;
        }
        i += 1;
    }
    true
}

/// Tells which command `name` names.
pub fn verb(name: &str) -> (v: Verb)
    ensures
        v == verb_of(name@),
{
    let bytes = name.as_bytes();
    if matches_word(bytes, &[109u8, 117u8, 108u8, 116u8, 105u8]) {
        Verb::MULTI
    } else if matches_word(bytes, &[101u8, 120u8, 101u8, 99u8]) {
        Verb::EXEC
    } else if matches_word(bytes, &[112u8, 105u8, 110u8, 103u8]) {
        Verb::PING
    } else if matches_word(bytes, &[101u8, 99u8, 104u8, 111u8]) {
        Verb::ECHO
    } else if matches_word(bytes, &[115u8, 101u8, 116u8]) {
        Verb::SET
    } else if matches_word(bytes, &[103u8, 101u8, 116u8]) {
        Verb::GET
    } else if matches_word(bytes, &[105u8, 110u8, 99u8, 114u8]) {
        Verb::INCR
    } else {
        Verb::Unknown
    }
}

/// The command that a value carries: its name and its arguments.
///
/// A simple string is a command without arguments. An array that starts with
/// a bulk string is a command, and what follows are its arguments. Anything
/// else carries no command.
pub open spec fn command_of(d: Datum) -> Result<(Seq<char>, Seq<Datum>), CommandError> {
    match d {
        Datum::Simple(name) => Ok((name, Seq::empty())),
        Datum::Array(items) => if items.len() > 0 && items[0] is Bulk {
            Ok((items[0]->Bulk_0, items.drop_first()))
        } else {
            Err(CommandError::Malformed)
        },
        _ => Err(CommandError::Malformed),
    }
}

/// The text of a bulk string.
pub fn unpack_bulk_str(val: RedisValue) -> (text: Result<String, CommandError>)
    ensures
        match text {
            Ok(s) => val@ == Datum::Bulk(s@),
            Err(e) => !(val@ is Bulk) && e == CommandError::Malformed,
        },
{
    match val {
        RedisValue::BulkString(s) => Ok(s),
        _ => Err(CommandError::Malformed),
    }
}

/// Takes a value apart into the command's name and its arguments.
pub fn extract_cmd(val: RedisValue) -> (cmd: Result<(String, Vec<RedisValue>), CommandError>)
    ensures
        match cmd {
            Ok((name, args)) => command_of(val@) == Ok::<
                (Seq<char>, Seq<Datum>),
                CommandError,
            >((name@, views(args@))),
            Err(e) => command_of(val@) == Err::<(Seq<char>, Seq<Datum>), CommandError>(e),
        },
{
    match val {
        RedisValue::SimpleString(s) => {
            let args: Vec<RedisValue> = Vec::new();
            assert(views(args@) =~= Seq::<Datum>::empty());
            Ok((s, args))
        },
        RedisValue::Array(items) => {
            proof {
                lemma_array_view(items);
            }
            let mut args = items;
            if args.len() == 0 {
                return Err(CommandError::Malformed);
            }
            let first = args.remove(0);
            assert(views(args@) =~= views(items@).drop_first());
            match unpack_bulk_str(first) {
                Ok(name) => Ok((name, args)),
                Err(e) => Err(e),
            }
        },
        _ => Err(CommandError::Malformed),
    }
}

/// Tells which command a value carries, if it carries one, and leaves the
/// value as it is.
pub fn command_verb(value: &RedisValue) -> (v: Option<Verb>)
    ensures
        v == (match command_of(value@) {
            Ok((name, _)) => Some(verb_of(name)),
            Err(_) => None,
        }),
{
    match value {
        RedisValue::SimpleString(s) => Some(verb(s.as_str())),
        RedisValue::Array(items) => {
            proof {
                lemma_array_view(*items);
            }
            if items.len() == 0 {
                None
            } else {
                match &items[0] {
                    RedisValue::BulkString(s) => Some(verb(s.as_str())),
                    _ => None,
                }
            }
        },
        _ => None,
    }
}

} // verus!
