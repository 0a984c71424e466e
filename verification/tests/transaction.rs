use rustis::{Phase, RedisValue, Transaction};

#[test]
fn transaction_starts_at_rest() {
    let tx = Transaction::init();
    assert_eq!(tx.current(), Phase::Neutral);
    assert_eq!(tx.queued(), 0);
}

#[test]
fn queue_gives_back_in_the_order_of_arrival() {
    let mut tx = Transaction::init();
    tx.push(Some(RedisValue::Int(1)));
    tx.push(None);
    tx.push(Some(RedisValue::Int(3)));
    assert_eq!(tx.queued(), 3);
    assert_eq!(tx.pop(), Some(Some(RedisValue::Int(1))));
    assert_eq!(tx.pop(), Some(None));
    assert_eq!(tx.pop(), Some(Some(RedisValue::Int(3))));
    assert_eq!(tx.pop(), None);
    assert_eq!(tx.queued(), 0);
}

#[test]
fn switches_set_the_phase_and_keep_the_queue() {
    let mut tx = Transaction::init();
    tx.push(Some(RedisValue::Int(1)));
    tx.switch_trans();
    assert_eq!(tx.current(), Phase::Queuing);
    tx.switch_exec();
    assert_eq!(tx.current(), Phase::Executing);
    tx.switch_trans();
    assert_eq!(tx.current(), Phase::Queuing);
    tx.switch_neutral();
    assert_eq!(tx.current(), Phase::Neutral);
    assert_eq!(tx.queued(), 1);
}
