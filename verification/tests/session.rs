use rustis::command::{command_verb, message, verb};
use bytes::BytesMut;
use rustis::session::{error_reply, expiry, simple_reply};
use rustis::{
    extract_cmd, CommandError, Database, Phase, RediSer, RedisCommand, RedisValue, RespHandler,
    Transaction, Verb, EMPTY_ARR, OK, QUEUED,
};

fn bulk(text: &str) -> RedisValue {
    RedisValue::BulkString(text.to_string())
}

fn simple(text: &str) -> RedisValue {
    RedisValue::SimpleString(text.to_string())
}

fn failure(text: &str) -> RedisValue {
    RedisValue::ErrorMsg(text.as_bytes().to_vec())
}

fn command(words: &[&str]) -> RedisValue {
    RedisValue::Array(words.iter().map(|w| bulk(w)).collect())
}

/// Serves `request` as a connection does, and returns the bytes of the reply.
fn exchange(
    handler: &RespHandler,
    tx: &mut Transaction,
    db: &mut Database,
    request: &[u8],
    now: u128,
) -> Vec<u8> {
    handler.serve_at(tx, db, request, now).unwrap()
}

#[test]
fn ping_is_answered_with_pong() {
    let handler = RespHandler::new(0);
    let mut tx = Transaction::init();
    let mut db = Database::new();
    let reply = exchange(&handler, &mut tx, &mut db, b"*1\r\n$4\r\nPING\r\n", 0);
    assert_eq!(reply, b"+PONG\r\n".to_vec());
}

#[test]
fn set_then_get_returns_the_value() {
    let handler = RespHandler::new(0);
    let mut tx = Transaction::init();
    let mut db = Database::new();
    let set = exchange(&handler, &mut tx, &mut db, b"*3\r\n$3\r\nSET\r\n$1\r\nx\r\n$1\r\n5\r\n", 0);
    assert_eq!(set, b"+OK\r\n".to_vec());
    let get = exchange(&handler, &mut tx, &mut db, b"*2\r\n$3\r\nGET\r\n$1\r\nx\r\n", 0);
    assert_eq!(get, b"$1\r\n5\r\n".to_vec());
}

#[test]
fn command_names_are_read_in_any_case() {
    assert_eq!(verb("ping"), Verb::PING);
    assert_eq!(verb("PING"), Verb::PING);
    assert_eq!(verb("PiNg"), Verb::PING);
    assert_eq!(verb("multi"), Verb::MULTI);
    assert_eq!(verb("Exec"), Verb::EXEC);
    assert_eq!(verb("ECHO"), Verb::ECHO);
    assert_eq!(verb("set"), Verb::SET);
    assert_eq!(verb("gEt"), Verb::GET);
    assert_eq!(verb("INCR"), Verb::INCR);
    assert_eq!(verb(""), Verb::Unknown);
    assert_eq!(verb("pin"), Verb::Unknown);
    assert_eq!(verb("pings"), Verb::Unknown);
    assert_eq!(verb("p\u{131}ng"), Verb::Unknown);
    assert_eq!(verb("del"), Verb::Unknown);
}

#[test]
fn command_is_a_simple_string_or_an_array_led_by_a_bulk_string() {
    assert_eq!(extract_cmd(simple("PING")), Ok(("PING".to_string(), vec![])));
    assert_eq!(
        extract_cmd(command(&["SET", "k", "v"])),
        Ok(("SET".to_string(), vec![bulk("k"), bulk("v")]))
    );
    assert_eq!(extract_cmd(command(&["PING"])), Ok(("PING".to_string(), vec![])));
    assert_eq!(extract_cmd(RedisValue::Array(vec![])), Err(CommandError::Malformed));
    assert_eq!(
        extract_cmd(RedisValue::Array(vec![simple("PING")])),
        Err(CommandError::Malformed)
    );
    assert_eq!(
        extract_cmd(RedisValue::Array(vec![RedisValue::Int(1), bulk("x")])),
        Err(CommandError::Malformed)
    );
    assert_eq!(extract_cmd(bulk("PING")), Err(CommandError::Malformed));
    assert_eq!(extract_cmd(RedisValue::Int(1)), Err(CommandError::Malformed));
    assert_eq!(extract_cmd(RedisValue::NullBulkString), Err(CommandError::Malformed));
}

#[test]
fn command_verb_looks_without_taking() {
    let value = command(&["exec"]);
    assert_eq!(command_verb(&value), Some(Verb::EXEC));
    assert_eq!(command_verb(&simple("Multi")), Some(Verb::MULTI));
    assert_eq!(command_verb(&command(&["nothing", "x"])), Some(Verb::Unknown));
    assert_eq!(command_verb(&RedisValue::Int(3)), None);
    assert_eq!(command_verb(&RedisValue::Array(vec![])), None);
    assert_eq!(value, command(&["exec"]));
}

#[test]
fn echo_returns_its_first_argument() {
    let handler = RespHandler::new(0);
    let mut db = Database::new();
    assert_eq!(
        handler.handle_command(&mut db, "echo", vec![bulk("hey"), bulk("you")], 0),
        Ok(bulk("hey"))
    );
    assert_eq!(
        handler.handle_command(&mut db, "echo", vec![RedisValue::Int(4)], 0),
        Ok(RedisValue::Int(4))
    );
    assert_eq!(
        handler.handle_command(&mut db, "echo", vec![], 0),
        Err(CommandError::MissingArgument)
    );
}

#[test]
fn get_of_a_key_that_is_not_there_is_null() {
    let handler = RespHandler::new(0);
    let mut tx = Transaction::init();
    let mut db = Database::new();
    let get = exchange(&handler, &mut tx, &mut db, b"*2\r\n$3\r\nGET\r\n$1\r\nx\r\n", 0);
    assert_eq!(get, b"$-1\r\n".to_vec());
}

#[test]
fn set_with_px_lapses_after_that_many_milliseconds() {
    let handler = RespHandler::new(3);
    let mut db = Database::new();
    let args = vec![bulk("k"), bulk("v"), bulk("pX"), bulk("100")];
    assert_eq!(handler.handle_command(&mut db, "SET", args, 1000), Ok(simple(OK)));
    assert_eq!(handler.handle_command(&mut db, "GET", vec![bulk("k")], 1100), Ok(bulk("v")));
    assert!(db.contains(3, "k"));
    assert_eq!(
        handler.handle_command(&mut db, "GET", vec![bulk("k")], 1101),
        Ok(RedisValue::NullBulkString)
    );
    assert!(!db.contains(3, "k"));
    assert_eq!(
        handler.handle_command(&mut db, "GET", vec![bulk("k")], 1000),
        Ok(RedisValue::NullBulkString)
    );
}

#[test]
fn set_knows_px_only() {
    assert_eq!(expiry(&vec![bulk("k"), bulk("v")]), Ok(None));
    assert_eq!(expiry(&vec![bulk("k"), bulk("v"), bulk("PX")]), Ok(None));
    assert_eq!(expiry(&vec![bulk("k"), bulk("v"), bulk("PX"), bulk("250")]), Ok(Some(250)));
    assert_eq!(expiry(&vec![bulk("k"), bulk("v"), simple("px"), simple("0")]), Ok(Some(0)));
    assert_eq!(expiry(&vec![bulk("k"), bulk("v"), bulk("EX"), bulk("250")]), Ok(None));
    assert_eq!(expiry(&vec![bulk("k"), bulk("v"), RedisValue::Int(1), bulk("250")]), Ok(None));
    assert_eq!(
        expiry(&vec![bulk("k"), bulk("v"), bulk("px"), bulk("soon")]),
        Err(CommandError::BadExpiry)
    );
    assert_eq!(
        expiry(&vec![bulk("k"), bulk("v"), bulk("px"), bulk("-5")]),
        Err(CommandError::BadExpiry)
    );
    assert_eq!(
        expiry(&vec![bulk("k"), bulk("v"), bulk("px"), RedisValue::Int(5)]),
        Err(CommandError::BadExpiry)
    );
    assert_eq!(
        expiry(&vec![bulk("k"), bulk("v"), bulk("px"), bulk("18446744073709551616")]),
        Err(CommandError::BadExpiry)
    );
}

#[test]
fn each_command_error_has_its_input() {
    let handler = RespHandler::new(0);
    let mut tx = Transaction::init();
    let mut db = Database::new();
    assert_eq!(
        handler.handle_value_at(&mut tx, &mut db, RedisValue::Int(1), 0),
        Err(CommandError::Malformed)
    );
    assert_eq!(
        handler.handle_value_at(&mut tx, &mut db, command(&["FLUSHALL"]), 0),
        Err(CommandError::UnknownCommand)
    );
    assert_eq!(
        handler.handle_value_at(&mut tx, &mut db, command(&["SET", "k"]), 0),
        Err(CommandError::MissingArgument)
    );
    assert_eq!(
        handler.handle_value_at(&mut tx, &mut db, command(&["GET"]), 0),
        Err(CommandError::MissingArgument)
    );
    assert_eq!(
        handler.handle_value_at(&mut tx, &mut db, command(&["INCR"]), 0),
        Err(CommandError::MissingArgument)
    );
    let bad_key = RedisValue::Array(vec![bulk("GET"), RedisValue::Array(vec![])]);
    assert_eq!(handler.handle_value_at(&mut tx, &mut db, bad_key, 0), Err(CommandError::BadKey));
    let bad_key = RedisValue::Array(vec![bulk("SET"), RedisValue::NullBulkString, bulk("v")]);
    assert_eq!(handler.handle_value_at(&mut tx, &mut db, bad_key, 0), Err(CommandError::BadKey));
    let bad_key = RedisValue::Array(vec![bulk("INCR"), RedisValue::ErrorMsg(vec![])]);
    assert_eq!(handler.handle_value_at(&mut tx, &mut db, bad_key, 0), Err(CommandError::BadKey));
    assert_eq!(
        handler.handle_value_at(&mut tx, &mut db, command(&["SET", "k", "v", "PX", "x"]), 0),
        Err(CommandError::BadExpiry)
    );
    assert!(!db.contains(0, "k"));
    assert_eq!(tx.current(), Phase::Neutral);
}

#[test]
fn multi_and_exec_are_no_commands_for_the_store() {
    let handler = RespHandler::new(0);
    let mut db = Database::new();
    assert_eq!(
        handler.handle_command(&mut db, "multi", vec![], 0),
        Err(CommandError::UnknownCommand)
    );
    assert_eq!(
        handler.handle_command(&mut db, "exec", vec![], 0),
        Err(CommandError::UnknownCommand)
    );
}

#[test]
fn integer_keys_are_keyed_by_their_decimal_text() {
    let handler = RespHandler::new(0);
    let mut db = Database::new();
    let args = vec![RedisValue::Int(12), bulk("v")];
    assert_eq!(handler.handle_command(&mut db, "set", args, 0), Ok(simple(OK)));
    assert_eq!(handler.handle_command(&mut db, "get", vec![bulk("12")], 0), Ok(bulk("v")));
    assert_eq!(handler.handle_command(&mut db, "get", vec![simple("12")], 0), Ok(bulk("v")));
}

#[test]
fn incr_answers_with_the_new_value() {
    let handler = RespHandler::new(0);
    let mut db = Database::new();
    assert_eq!(handler.handle_command(&mut db, "incr", vec![bulk("n")], 0), Ok(RedisValue::Int(1)));
    assert_eq!(handler.handle_command(&mut db, "incr", vec![bulk("n")], 0), Ok(RedisValue::Int(2)));
    assert_eq!(handler.handle_command(&mut db, "get", vec![bulk("n")], 0), Ok(RedisValue::Int(2)));
    handler.insert(&mut db, &bulk("five"), RedisValue::Int(5), None, 0);
    assert_eq!(
        handler.handle_command(&mut db, "incr", vec![bulk("five")], 0),
        Ok(RedisValue::Int(6))
    );
}

#[test]
fn incr_of_what_is_no_integer_is_a_type_error() {
    let handler = RespHandler::new(0);
    let mut db = Database::new();
    let set = handler.handle_command(&mut db, "set", vec![bulk("s"), bulk("5")], 0);
    assert_eq!(set, Ok(simple(OK)));
    assert_eq!(
        handler.handle_command(&mut db, "incr", vec![bulk("s")], 0),
        Ok(failure("(error) value is not an integer or out of range"))
    );
    assert_eq!(handler.handle_command(&mut db, "get", vec![bulk("s")], 0), Ok(bulk("5")));
    handler.insert(&mut db, &bulk("top"), RedisValue::Int(i64::MAX), None, 0);
    assert_eq!(
        handler.handle_command(&mut db, "incr", vec![bulk("top")], 0),
        Ok(failure("(error) value is not an integer or out of range"))
    );
    assert_eq!(handler.get_val(&mut db, &bulk("top"), 0), Some(RedisValue::Int(i64::MAX)));
}

#[test]
fn handler_methods_work_on_the_handlers_own_keys() {
    let a = RespHandler::new(1);
    let b = RespHandler::new(2);
    assert_eq!(a.client_id(), 1);
    let mut db = Database::new();
    a.add_entry(&mut db, "k".to_string(), bulk("a"), Some(10), 100);
    b.insert(&mut db, &bulk("k"), bulk("b"), None, 100);
    assert_eq!(a.get_val(&mut db, &bulk("k"), 105), Some(bulk("a")));
    assert_eq!(b.get_val(&mut db, &bulk("k"), 105), Some(bulk("b")));
    let entry = a.get_set(&mut db, &bulk("k"), 110).unwrap();
    assert_eq!((entry.org, entry.exp, entry.val), (100, Some(10), bulk("a")));
    assert!(a.get_set(&mut db, &bulk("k"), 111).is_none());
    assert!(!db.contains(1, "k"));
    assert_eq!(a.incr(&mut db, &bulk("n"), 0), Some(RedisValue::Int(0)));
    assert_eq!(a.incr(&mut db, &bulk("n"), 0), Some(RedisValue::Int(1)));
    assert_eq!(b.incr(&mut db, &bulk("k"), 0), None);
    b.remove_entry(&mut db, &"k".to_string());
    assert_eq!(b.get_val(&mut db, &bulk("k"), 105), None);
    assert_eq!(a.get_val(&mut db, &bulk("n"), 0), Some(RedisValue::Int(2)));
}

#[test]
fn two_clients_with_one_key_read_their_own_values() {
    let a = RespHandler::new(1);
    let b = RespHandler::new(2);
    let mut db = Database::new();
    assert_eq!(a.handle_command(&mut db, "set", vec![bulk("k"), bulk("a")], 0), Ok(simple(OK)));
    assert_eq!(b.handle_command(&mut db, "set", vec![bulk("k"), bulk("b")], 0), Ok(simple(OK)));
    assert_eq!(a.handle_command(&mut db, "get", vec![bulk("k")], 0), Ok(bulk("a")));
    assert_eq!(b.handle_command(&mut db, "get", vec![bulk("k")], 0), Ok(bulk("b")));
}

#[test]
fn cleanup_takes_the_keys_of_the_client_that_leaves() {
    let a = RespHandler::new(1);
    let b = RespHandler::new(2);
    let mut db = Database::new();
    for key in ["x", "y", "z"] {
        let args = vec![bulk(key), bulk("a")];
        assert_eq!(a.handle_command(&mut db, "set", args, 0), Ok(simple(OK)));
        let args = vec![bulk(key), bulk("b")];
        assert_eq!(b.handle_command(&mut db, "set", args, 0), Ok(simple(OK)));
    }
    assert_eq!(a.handle_command(&mut db, "incr", vec![bulk("n")], 0), Ok(RedisValue::Int(1)));
    a.cleanup(&mut db);
    for key in ["x", "y", "z", "n"] {
        assert!(!db.contains(1, key));
    }
    for key in ["x", "y", "z"] {
        assert_eq!(b.handle_command(&mut db, "get", vec![bulk(key)], 0), Ok(bulk("b")));
    }
}

#[test]
fn multi_queues_and_exec_runs_in_order() {
    let handler = RespHandler::new(0);
    let mut tx = Transaction::init();
    let mut db = Database::new();
    let multi = handler.handle_value_at(&mut tx, &mut db, command(&["MULTI"]), 0);
    assert_eq!(multi, Ok(simple(OK)));
    assert_eq!(tx.current(), Phase::Queuing);
    let first = handler.handle_value_at(&mut tx, &mut db, command(&["SET", "k", "v"]), 0);
    assert_eq!(first, Ok(simple(QUEUED)));
    let second = handler.handle_value_at(&mut tx, &mut db, command(&["GET", "k"]), 0);
    assert_eq!(second, Ok(simple(QUEUED)));
    assert!(!db.contains(0, "k"));
    assert_eq!(tx.queued(), 2);
    let exec = handler.handle_value_at(&mut tx, &mut db, command(&["EXEC"]), 0);
    assert_eq!(exec, Ok(RedisValue::Array(vec![simple(OK), bulk("v")])));
    assert_eq!(tx.current(), Phase::Neutral);
    assert_eq!(tx.queued(), 0);
    assert!(db.contains(0, "k"));
}

#[test]
fn exec_answers_in_the_order_of_the_queue() {
    let handler = RespHandler::new(0);
    let mut tx = Transaction::init();
    let mut db = Database::new();
    let mut bytes = Vec::new();
    for request in [
        &b"*1\r\n$5\r\nMULTI\r\n"[..],
        &b"*2\r\n$4\r\nINCR\r\n$1\r\nn\r\n"[..],
        &b"*2\r\n$4\r\nINCR\r\n$1\r\nn\r\n"[..],
        &b"*2\r\n$4\r\nECHO\r\n$2\r\nhi\r\n"[..],
        &b"*1\r\n$4\r\nEXEC\r\n"[..],
    ] {
        bytes.extend(exchange(&handler, &mut tx, &mut db, request, 0));
    }
    assert_eq!(
        bytes,
        b"+OK\r\n+QUEUED\r\n+QUEUED\r\n+QUEUED\r\n*3\r\n:1:2$2\r\nhi\r\n".to_vec()
    );
}

#[test]
fn queued_values_are_not_looked_at_until_they_run() {
    let handler = RespHandler::new(0);
    let mut tx = Transaction::init();
    let mut db = Database::new();
    assert_eq!(handler.handle_value_at(&mut tx, &mut db, simple("multi"), 0), Ok(simple(OK)));
    for value in [RedisValue::Int(1), command(&["NOPE"]), command(&["GET"]), command(&["MULTI"])] {
        assert_eq!(handler.handle_value_at(&mut tx, &mut db, value, 0), Ok(simple(QUEUED)));
    }
    assert_eq!(
        handler.handle_value_at(&mut tx, &mut db, simple("EXEC"), 0),
        Ok(RedisValue::Array(vec![
            failure("ERR malformed command"),
            failure("ERR unknown command"),
            failure("ERR wrong number of arguments"),
            failure("ERR unknown command"),
        ]))
    );
    assert_eq!(tx.current(), Phase::Neutral);
}

#[test]
fn exec_without_multi_is_an_error_and_changes_nothing() {
    let handler = RespHandler::new(0);
    let mut tx = Transaction::init();
    let mut db = Database::new();
    handler.insert(&mut db, &bulk("k"), bulk("v"), None, 0);
    let exec = handler.handle_value_at(&mut tx, &mut db, command(&["EXEC"]), 0);
    assert_eq!(exec, Ok(failure("Exec called with empty queue...")));
    assert_eq!(tx.current(), Phase::Neutral);
    assert_eq!(tx.queued(), 0);
    assert_eq!(handler.get_val(&mut db, &bulk("k"), 0), Some(bulk("v")));
}

#[test]
fn exec_right_after_multi_is_an_error_and_ends_the_transaction() {
    let handler = RespHandler::new(0);
    let mut tx = Transaction::init();
    let mut db = Database::new();
    assert_eq!(handler.handle_value_at(&mut tx, &mut db, command(&["multi"]), 0), Ok(simple(OK)));
    let exec = handler.handle_value_at(&mut tx, &mut db, command(&["exec"]), 0);
    assert_eq!(exec, Ok(failure(EMPTY_ARR)));
    assert_eq!(exec.unwrap().serialize(), b"-1\r\n0\r\n".to_vec());
    assert_eq!(tx.current(), Phase::Neutral);
    let ping = handler.handle_value_at(&mut tx, &mut db, command(&["ping"]), 0);
    assert_eq!(ping, Ok(simple("PONG")));
}

#[test]
fn handle_exec_signals_that_the_queue_is_to_run() {
    let handler = RespHandler::new(0);
    let mut tx = Transaction::init();
    assert_eq!(handler.handle_exec(&mut tx), failure("Exec called with empty queue..."));
    assert_eq!(handler.handle_multi(&mut tx), simple(OK));
    assert_eq!(handler.handle_exec(&mut tx), failure("0"));
    assert_eq!(tx.current(), Phase::Neutral);
    assert_eq!(handler.handle_multi(&mut tx), simple(OK));
    tx.push(Some(command(&["PING"])));
    assert_eq!(handler.handle_exec(&mut tx), RedisValue::Command(RedisCommand::EXEC));
    assert_eq!(tx.current(), Phase::Executing);
    let mut db = Database::new();
    assert_eq!(handler.run_queue(&mut tx, &mut db, 0), vec![simple("PONG")]);
    assert_eq!(tx.queued(), 0);
}

#[test]
fn run_queue_passes_over_empty_places() {
    let handler = RespHandler::new(0);
    let mut tx = Transaction::init();
    let mut db = Database::new();
    tx.push(None);
    tx.push(Some(command(&["ECHO", "a"])));
    tx.push(None);
    tx.push(Some(command(&["ECHO", "b"])));
    assert_eq!(handler.run_queue(&mut tx, &mut db, 0), vec![bulk("a"), bulk("b")]);
}

#[test]
fn handle_value_reads_the_clock_itself() {
    let handler = RespHandler::new(0);
    let mut tx = Transaction::init();
    let mut db = Database::new();
    let set = handler.handle_value(&mut tx, &mut db, command(&["SET", "k", "v", "PX", "3600000"]));
    assert_eq!(set, Ok(simple(OK)));
    let get = handler.handle_value(&mut tx, &mut db, command(&["GET", "k"]));
    assert_eq!(get, Ok(bulk("v")));
    let stamp = db.peek(0, "k").unwrap().org;
    assert!(stamp <= db.now());
}

#[test]
fn replies_are_built_from_their_text() {
    assert_eq!(simple_reply("PONG"), simple("PONG"));
    assert_eq!(error_reply("no"), RedisValue::ErrorMsg(vec![b'n', b'o']));
    assert_eq!(message(CommandError::Malformed), "ERR malformed command");
    assert_eq!(message(CommandError::UnknownCommand), "ERR unknown command");
    assert_eq!(message(CommandError::MissingArgument), "ERR wrong number of arguments");
    assert_eq!(message(CommandError::BadKey), "ERR invalid key");
    assert_eq!(message(CommandError::BadExpiry), "ERR invalid expire time");
}

#[test]
fn bytes_that_are_no_value_close_the_connection() {
    let handler = RespHandler::new(0);
    let mut tx = Transaction::init();
    let mut db = Database::new();
    assert_eq!(handler.serve_at(&mut tx, &mut db, b"", 0), None);
    assert_eq!(handler.serve_at(&mut tx, &mut db, b"PING\r\n", 0), None);
    assert_eq!(handler.serve_at(&mut tx, &mut db, b"*1\r\n$4\r\nPI", 0), None);
    assert_eq!(tx.current(), Phase::Neutral);
}

#[test]
fn unknown_command_is_answered_and_the_connection_stays_open() {
    let handler = RespHandler::new(0);
    let mut tx = Transaction::init();
    let mut db = Database::new();
    assert_eq!(
        handler.serve_at(&mut tx, &mut db, b"*1\r\n$4\r\nNOPE\r\n", 0),
        Some(b"-19\r\nERR unknown command\r\n".to_vec())
    );
    assert_eq!(
        handler.serve_at(&mut tx, &mut db, b"+ping\r\n", 0),
        Some(b"+PONG\r\n".to_vec())
    );
}

#[test]
fn other_command_errors_close_the_connection() {
    let handler = RespHandler::new(0);
    let mut tx = Transaction::init();
    let mut db = Database::new();
    assert_eq!(handler.serve_at(&mut tx, &mut db, b":5", 0), None);
    assert_eq!(handler.serve_at(&mut tx, &mut db, b"*1\r\n$3\r\nGET\r\n", 0), None);
    assert_eq!(handler.serve_at(&mut tx, &mut db, b"*2\r\n$3\r\nGET\r\n*0\r\n", 0), None);
    assert_eq!(
        handler.serve_at(
            &mut tx,
            &mut db,
            b"*5\r\n$3\r\nSET\r\n$1\r\nk\r\n$1\r\nv\r\n$2\r\nPX\r\n$1\r\nx\r\n",
            0
        ),
        None
    );
}

#[test]
fn respond_never_sends_the_internal_tag() {
    let handler = RespHandler::new(0);
    assert_eq!(handler.respond(Ok(RedisValue::Command(RedisCommand::EXEC))), None);
    assert_eq!(handler.respond(Ok(simple("x"))), Some(b"+x\r\n".to_vec()));
    assert_eq!(handler.respond(Err(CommandError::BadKey)), None);
    assert_eq!(
        handler.respond(Err(CommandError::UnknownCommand)),
        Some(b"-19\r\nERR unknown command\r\n".to_vec())
    );
}

#[test]
fn serve_takes_a_buffer_and_reads_the_clock() {
    let handler = RespHandler::new(0);
    let mut tx = Transaction::init();
    let mut db = Database::new();
    let set = BytesMut::from(&b"*3\r\n$3\r\nSET\r\n$1\r\nx\r\n$1\r\n5\r\n"[..]);
    assert_eq!(handler.serve(&mut tx, &mut db, set), Some(b"+OK\r\n".to_vec()));
    let get = BytesMut::from(&b"*2\r\n$3\r\nGET\r\n$1\r\nx\r\n"[..]);
    assert_eq!(handler.serve(&mut tx, &mut db, get), Some(b"$1\r\n5\r\n".to_vec()));
    assert_eq!(handler.serve(&mut tx, &mut db, BytesMut::new()), None);
}

#[test]
fn read_value_decodes_unless_nothing_was_read() {
    let handler = RespHandler::new(0);
    assert_eq!(handler.read_value(0, BytesMut::new()), Ok(None));
    assert_eq!(handler.read_value(0, BytesMut::from(&b"+OK\r\n"[..])), Ok(None));
    assert_eq!(handler.read_value(5, BytesMut::from(&b"+OK\r\n"[..])), Ok(Some(simple("OK"))));
    assert_eq!(
        handler.read_value(3, BytesMut::from(&b"+OK"[..])),
        Err(rustis::RespError::MissingCrlf)
    );
}

#[test]
fn write_value_encodes_a_value_or_a_row_of_them() {
    let handler = RespHandler::new(0);
    assert_eq!(handler.write_value(bulk("a")), b"$1\r\na\r\n".to_vec());
    assert_eq!(
        handler.write_value(vec![simple("a"), RedisValue::Int(2)]),
        b"+a\r\n:2".to_vec()
    );
}
