//! A small Redis-compatible server core: wire codec, value model,
//! expiring key-value store and per-connection command dispatch.

pub mod command;
pub mod decimal;
pub mod ext;
pub mod laws;
pub mod resp;
pub mod roundtrip;
pub mod session;
pub mod store;
pub mod text;
pub mod transaction;
pub mod trusted;
pub mod value;
pub mod wire;

pub use command::{extract_cmd, unpack_bulk_str, CommandError, Verb};
pub use ext::{Notify, RedisValueInenerToStr, RedisValueInner, StackCtr};
pub use resp::{parse_int, parse_msg, RediSer};
pub use session::{RespHandler, EMPTY_ARR, OK, QUEUED};
pub use store::{Database, StoredEntry};
pub use transaction::{Phase, Transaction};
pub use value::{RedisArray, RedisCommand, RedisInt, RedisValue};
pub use wire::RespError;
