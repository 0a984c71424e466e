//! What holds of the store and of a session, whatever the values.

use crate::command::{command_of, verb_of, CommandError, Verb};
use crate::session::{
    apply, expiry_of, failure, is_exec, run_all, run_one, serve_step, simple, step, Outcome,
    EMPTY_ARR, NOT_A_COUNTER, NO_TRANSACTION, OK, QUEUED,
};
use crate::store::{
    after_increment, after_purge, elapsed, increment_result, read_result, Contents,
    CounterError, EntryView, Slot,
};
use crate::transaction::Phase;
use crate::decimal::parse_decimal;
use crate::value::{is_key, key_text, Datum};
use crate::wire::{decode, decode_array, decode_items, first_line, payload, sendable};
use vstd::prelude::*;

verus! {

/// `SET`, then `GET` of the same key before the value has lapsed, returns the
/// value that was set.
pub proof fn set_then_get(
    m: Contents,
    owner: usize,
    args: Seq<Datum>,
    ttl: Option<nat>,
    written: nat,
    read: nat,
)
    requires
        args.len() >= 2,
        is_key(args[0]),
        expiry_of(args) == Ok::<Option<nat>, CommandError>(ttl),
        ttl matches Some(t) ==> elapsed(written, read) <= t,
    ensures
        apply(m, owner, Verb::SET, args, written).1 == Ok::<Datum, CommandError>(simple(OK)),
        apply(
            apply(m, owner, Verb::SET, args, written).0,
            owner,
            Verb::GET,
            seq![args[0]],
            read,
        ).1 == Ok::<Datum, CommandError>(args[1]),
{
}

/// `SET` with a time to live, then `GET` of the same key after that time,
/// returns the null reply; and the key is gone from the store, so that no
/// later probe finds it.
pub proof fn get_after_lapse(
    m: Contents,
    owner: usize,
    args: Seq<Datum>,
    t: nat,
    written: nat,
    read: nat,
)
    requires
        args.len() >= 2,
        is_key(args[0]),
        expiry_of(args) == Ok::<Option<nat>, CommandError>(Some(t)),
        elapsed(written, read) > t,
    ensures
        ({
            let stored = apply(m, owner, Verb::SET, args, written).0;
            let (after, reply) = apply(stored, owner, Verb::GET, seq![args[0]], read);
            &&& reply == Ok::<Datum, CommandError>(Datum::Null)
            &&& !after.contains_key((owner, key_text(args[0])))
            &&& forall|later: nat| read_result(after, (owner, key_text(args[0])), later) is None
        }),
{
}

/// Incrementing a counter that was never set, or has lapsed, returns 0 as
/// what it held and leaves it holding 1, without a time to live.
pub proof fn increment_unset(m: Contents, slot: Slot, now: nat)
    requires
        read_result(m, slot, now) is None,
    ensures
        increment_result(m, slot, now) == Ok::<i64, CounterError>(0),
        after_increment(m, slot, now)[slot] == (EntryView {
            created_at: now,
            ttl: None,
            value: Datum::Int(1),
        }),
        after_increment(m, slot, now).contains_key(slot),
{
}

/// Incrementing a counter that holds `n` returns `n` and leaves it holding
/// `n + 1`, with the times it had.
pub proof fn increment_counter(m: Contents, slot: Slot, n: i64, now: nat)
    requires
        read_result(m, slot, now) == Some(Datum::Int(n as int)),
        n < i64::MAX,
    ensures
        increment_result(m, slot, now) == Ok::<i64, CounterError>(n),
        after_increment(m, slot, now)[slot] == (EntryView {
            value: Datum::Int(n + 1),
            ..m[slot]
        }),
        after_increment(m, slot, now).contains_key(slot),
{
}

/// `INCR` answers with the number that the counter holds afterwards.
pub proof fn incr_replies_new_value(m: Contents, owner: usize, key: Datum, n: i64, now: nat)
    requires
        is_key(key),
        read_result(m, (owner, key_text(key)), now) == Some(Datum::Int(n as int)),
        n < i64::MAX,
    ensures
        apply(m, owner, Verb::INCR, seq![key], now).1 == Ok::<Datum, CommandError>(
            Datum::Int(n + 1),
        ),
{
}

/// `INCR` on a key that holds something other than an integer answers with
/// the type error and changes nothing.
pub proof fn incr_rejects_other_values(
    m: Contents,
    owner: usize,
    key: Datum,
    held: Datum,
    now: nat,
)
    requires
        is_key(key),
        read_result(m, (owner, key_text(key)), now) == Some(held),
        !(held is Int),
    ensures
        apply(m, owner, Verb::INCR, seq![key], now).1 == Ok::<Datum, CommandError>(
            failure(NOT_A_COUNTER),
        ),
        apply(m, owner, Verb::INCR, seq![key], now).0 == m,
{
}

/// `EXEC` without a `MULTI` before it is an error and changes nothing.
pub proof fn exec_without_multi(
    owner: usize,
    m: Contents,
    pending: Seq<Option<Datum>>,
    value: Datum,
    now: nat,
)
    requires
        is_exec(value),
    ensures
        step(owner, m, Phase::Neutral, pending, value, now) == (Outcome {
            contents: m,
            phase: Phase::Neutral,
            pending,
            reply: Ok(failure(NO_TRANSACTION)),
        }),
{
}

/// `MULTI` and then `EXEC` at once is an error, and the session is at rest
/// again, with the store as it was.
pub proof fn exec_right_after_multi(
    owner: usize,
    m: Contents,
    multi: Datum,
    exec: Datum,
    now: nat,
    later: nat,
)
    requires
        command_of(multi) matches Ok((name, _)) && verb_of(name) == Verb::MULTI,
        is_exec(exec),
    ensures
        ({
            let begun = step(owner, m, Phase::Neutral, Seq::empty(), multi, now);
            let ended = step(owner, begun.contents, begun.phase, begun.pending, exec, later);
            &&& begun.phase == Phase::Queuing
            &&& begun.reply == Ok::<Datum, CommandError>(simple(OK))
            &&& ended.reply == Ok::<Datum, CommandError>(failure(EMPTY_ARR))
            &&& ended.phase == Phase::Neutral
            &&& ended.contents == m
        }),
{
}

/// `MULTI`, two commands and `EXEC`: the commands are queued and not run;
/// `EXEC`, at the time `later`, runs the first on the store as it was and the
/// second on what the first left, and answers with their two replies in that
/// order.
pub proof fn multi_runs_in_order(
    owner: usize,
    m: Contents,
    multi: Datum,
    first: Datum,
    second: Datum,
    exec: Datum,
    now: nat,
    later: nat,
)
    requires
        command_of(multi) matches Ok((name, _)) && verb_of(name) == Verb::MULTI,
        !is_exec(first),
        !is_exec(second),
        is_exec(exec),
    ensures
        ({
            let s1 = step(owner, m, Phase::Neutral, Seq::empty(), multi, now);
            let s2 = step(owner, s1.contents, s1.phase, s1.pending, first, now);
            let s3 = step(owner, s2.contents, s2.phase, s2.pending, second, now);
            let s4 = step(owner, s3.contents, s3.phase, s3.pending, exec, later);
            let (m1, r1) = run_one(m, owner, first, later);
            let (m2, r2) = run_one(m1, owner, second, later);
            &&& s2.reply == Ok::<Datum, CommandError>(simple(QUEUED))
            &&& s3.reply == Ok::<Datum, CommandError>(simple(QUEUED))
            &&& s3.contents == m
            &&& s4.reply == Ok::<Datum, CommandError>(Datum::Array(seq![r1, r2]))
            &&& s4.contents == m2
            &&& s4.phase == Phase::Neutral
            &&& s4.pending == Seq::<Option<Datum>>::empty()
        }),
{
    let queue = seq![Some(first), Some(second)];
    let (m1, r1) = run_one(m, owner, first, later);
    let (m2, r2) = run_one(m1, owner, second, later);
    assert(Seq::<Option<Datum>>::empty().push(Some(first)).push(Some(second)) =~= queue);
    assert(queue.drop_first() =~= seq![Some(second)]);
    assert(seq![Some(second)].drop_first() =~= Seq::<Option<Datum>>::empty());
    reveal_with_fuel(run_all, 3);
    assert(seq![r1] + (seq![r2] + Seq::<Datum>::empty()) =~= seq![r1, r2]);
}

/// Whatever one client does leaves every key of every other client as it was.
pub proof fn others_untouched(
    m: Contents,
    actor: usize,
    v: Verb,
    args: Seq<Datum>,
    now: nat,
    slot: Slot,
)
    requires
        slot.0 != actor,
    ensures
        apply(m, actor, v, args, now).0.contains_key(slot) == m.contains_key(slot),
        m.contains_key(slot) ==> apply(m, actor, v, args, now).0[slot] == m[slot],
{
}

/// Whether `slot` holds in `after` what it held in `before`, or nothing in both.
pub open spec fn same_at(before: Contents, after: Contents, slot: Slot) -> bool {
    after.contains_key(slot) == before.contains_key(slot) && (before.contains_key(slot)
        ==> after[slot] == before[slot])
}

/// A transaction of one client leaves every key of every other client as it was.
pub proof fn run_all_leaves_others(
    m: Contents,
    actor: usize,
    items: Seq<Option<Datum>>,
    now: nat,
    slot: Slot,
)
    requires
        slot.0 != actor,
    ensures
        same_at(m, run_all(m, actor, items, now).0, slot),
    decreases items.len(),
{
    if items.len() > 0 {
        match items[0] {
            None => {
                run_all_leaves_others(m, actor, items.drop_first(), now, slot);
            },
            Some(item) => {
                let next = run_one(m, actor, item, now).0;
                assert(same_at(m, next, slot));
                run_all_leaves_others(next, actor, items.drop_first(), now, slot);
            },
        }
    }
}

/// Whatever value a session is handed, every key of every other client stays
/// as it was.
pub proof fn step_leaves_others(
    actor: usize,
    m: Contents,
    phase: Phase,
    pending: Seq<Option<Datum>>,
    value: Datum,
    now: nat,
    slot: Slot,
)
    requires
        slot.0 != actor,
    ensures
        same_at(m, step(actor, m, phase, pending, value, now).contents, slot),
{
    run_all_leaves_others(m, actor, pending, now, slot);
}

/// Two clients set the same key: each reads back its own value.
pub proof fn same_key_two_clients(
    m: Contents,
    a: usize,
    b: usize,
    key: Datum,
    mine: Datum,
    theirs: Datum,
    now: nat,
)
    requires
        a != b,
        is_key(key),
    ensures
        ({
            let first = apply(m, a, Verb::SET, seq![key, mine], now).0;
            let second = apply(first, b, Verb::SET, seq![key, theirs], now).0;
            &&& apply(second, a, Verb::GET, seq![key], now).1 == Ok::<Datum, CommandError>(mine)
            &&& apply(second, b, Verb::GET, seq![key], now).1 == Ok::<Datum, CommandError>(
                theirs,
            )
        }),
{
}

/// When a client leaves, all of its keys leave the store, and every key of
/// every other client stays as it was.
pub proof fn purge_takes_own_keys_only(m: Contents, leaving: usize, slot: Slot)
    ensures
        slot.0 == leaving ==> !after_purge(m, leaving).contains_key(slot),
        slot.0 != leaving ==> after_purge(m, leaving).contains_key(slot) == m.contains_key(slot),
        slot.0 != leaving && m.contains_key(slot) ==> after_purge(m, leaving)[slot] == m[slot],
{
}

/// Whether every value in the store can be sent.
pub open spec fn store_sendable(m: Contents) -> bool {
    forall|slot: Slot| m.contains_key(slot) ==> sendable(#[trigger] m[slot].value)
}

/// Whether every queued value can be sent.
pub open spec fn queue_sendable(pending: Seq<Option<Datum>>) -> bool {
    forall|i: int|
        0 <= i < pending.len() ==> (#[trigger] pending[i] matches Some(value) ==> sendable(value))
}

/// What is read from bytes holds no internal tag.
pub proof fn decoded_is_sendable(s: Seq<u8>)
    ensures
        decode(s) matches Ok((d, _)) ==> sendable(d),
        decode_array(s) matches Ok((d, _)) ==> sendable(d),
    decreases s.len(), 1int,
{
    if s.len() > 0 {
        if let Some((line, used)) = first_line(payload(s)) {
            if let Some(count) = parse_decimal(line) {
                if count > 0 && 0 <= used && 1 + used <= s.len() {
                    decoded_items_are_sendable(s.subrange(1 + used, s.len() as int), count as nat);
                }
            }
        }
    }
}

/// What is read from bytes, one value after the other, holds no internal tag.
pub proof fn decoded_items_are_sendable(s: Seq<u8>, count: nat)
    ensures
        decode_items(s, count) matches Ok((items, _)) ==> forall|i: int|
            0 <= i < items.len() ==> sendable(#[trigger] items[i]),
    decreases s.len(), count + 2,
{
    if count > 0 {
        decoded_is_sendable(s);
        if let Ok((first, used)) = decode(s) {
            if 0 <= used <= s.len() {
                decoded_items_are_sendable(s.subrange(used, s.len() as int), (count - 1) as nat);
            }
        }
    }
}

/// A command run on values that can be sent, against a store of such values,
/// leaves such a store and gives a reply that can be sent.
pub proof fn apply_keeps_sendable(m: Contents, owner: usize, v: Verb, args: Seq<Datum>, now: nat)
    requires
        store_sendable(m),
        forall|i: int| 0 <= i < args.len() ==> sendable(#[trigger] args[i]),
    ensures
        store_sendable(apply(m, owner, v, args, now).0),
        apply(m, owner, v, args, now).1 matches Ok(reply) ==> sendable(reply),
{
    let (after, reply) = apply(m, owner, v, args, now);
    if args.len() > 0 {
        assert(sendable(args[0]));
    }
    if args.len() > 1 {
        assert(sendable(args[1]));
    }
    assert forall|slot: Slot| after.contains_key(slot) implies sendable(
        #[trigger] after[slot].value,
    ) by {
        if m.contains_key(slot) {
            assert(sendable(m[slot].value));
        }
    }
}

/// A queued value that can be sent, run against a store of such values,
/// leaves such a store and gives a reply that can be sent.
pub proof fn run_one_keeps_sendable(m: Contents, owner: usize, item: Datum, now: nat)
    requires
        store_sendable(m),
        sendable(item),
    ensures
        store_sendable(run_one(m, owner, item, now).0),
        sendable(run_one(m, owner, item, now).1),
{
    if let Ok((name, args)) = command_of(item) {
        assert forall|i: int| 0 <= i < args.len() implies sendable(#[trigger] args[i]) by {
            assert(args[i] == item->Array_0[i + 1]);
        }
        apply_keeps_sendable(m, owner, verb_of(name), args, now);
    }
}

/// Queued values that can be sent, run in order against a store of such
/// values, leave such a store and give replies that can be sent.
pub proof fn run_all_keeps_sendable(
    m: Contents,
    owner: usize,
    items: Seq<Option<Datum>>,
    now: nat,
)
    requires
        store_sendable(m),
        queue_sendable(items),
    ensures
        store_sendable(run_all(m, owner, items, now).0),
        forall|i: int|
            0 <= i < run_all(m, owner, items, now).1.len() ==> sendable(
                #[trigger] run_all(m, owner, items, now).1[i],
            ),
    decreases items.len(),
{
    if items.len() > 0 {
        let rest = items.drop_first();
        assert forall|i: int| 0 <= i < rest.len() implies (#[trigger] rest[i] matches Some(value)
            ==> sendable(value)) by {
            assert(rest[i] == items[i + 1]);
        }
        match items[0] {
            None => {
                run_all_keeps_sendable(m, owner, rest, now);
            },
            Some(item) => {
                run_one_keeps_sendable(m, owner, item, now);
                let (next, reply) = run_one(m, owner, item, now);
                run_all_keeps_sendable(next, owner, rest, now);
            },
        }
    }
}

/// The internal tag never reaches a client: a session that is handed values
/// that can be sent, with a store and a queue of such values, keeps both so
/// and gives replies that can be sent.
pub proof fn step_keeps_sendable(
    owner: usize,
    m: Contents,
    phase: Phase,
    pending: Seq<Option<Datum>>,
    value: Datum,
    now: nat,
)
    requires
        store_sendable(m),
        queue_sendable(pending),
        sendable(value),
    ensures
        store_sendable(step(owner, m, phase, pending, value, now).contents),
        queue_sendable(step(owner, m, phase, pending, value, now).pending),
        step(owner, m, phase, pending, value, now).reply matches Ok(reply) ==> sendable(reply),
{
    let outcome = step(owner, m, phase, pending, value, now);
    if phase == Phase::Queuing {
        if !is_exec(value) {
            assert forall|i: int| 0 <= i < outcome.pending.len() implies (
            #[trigger] outcome.pending[i] matches Some(queued) ==> sendable(queued)) by {
                if i < pending.len() {
                    assert(outcome.pending[i] == pending[i]);
                }
            }
        } else if pending.len() > 0 {
            run_all_keeps_sendable(m, owner, pending, now);
        }
    } else {
        if let Ok((name, args)) = command_of(value) {
            assert forall|i: int| 0 <= i < args.len() implies sendable(#[trigger] args[i]) by {
                assert(args[i] == value->Array_0[i + 1]);
            }
            apply_keeps_sendable(m, owner, verb_of(name), args, now);
        }
    }
}

/// A connection whose store and queue hold no internal tag keeps them so,
/// and is closed only for bytes that are no value or for an error other than
/// a command that the server does not know.
pub proof fn serve_keeps_sendable(
    owner: usize,
    m: Contents,
    phase: Phase,
    pending: Seq<Option<Datum>>,
    request: Seq<u8>,
    now: nat,
)
    requires
        store_sendable(m),
        queue_sendable(pending),
    ensures
        store_sendable(serve_step(owner, m, phase, pending, request, now).contents),
        queue_sendable(serve_step(owner, m, phase, pending, request, now).pending),
        serve_step(owner, m, phase, pending, request, now).action is None ==> (decode(request)
            is Err || (step(owner, m, phase, pending, decode(request)->Ok_0.0, now).reply
            matches Err(e) && e != CommandError::UnknownCommand)),
{
    if let Ok((value, _)) = decode(request) {
        decoded_is_sendable(request);
        step_keeps_sendable(owner, m, phase, pending, value, now);
    }
}

} // verus!
