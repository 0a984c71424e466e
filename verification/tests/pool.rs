use rustis::{Notify, StackCtr};

#[test]
fn pool_hands_out_the_smallest_id_first() {
    let mut pool = StackCtr::init(3);
    assert_eq!(pool.available(), 3);
    assert_eq!(pool.get_new_id(), 0);
    assert_eq!(pool.get_new_id(), 1);
    assert_eq!(pool.get_new_id(), 2);
    assert_eq!(pool.available(), 0);
}

#[test]
fn pool_hands_out_again_what_was_released_last() {
    let mut pool = StackCtr::init(100);
    let a = pool.get_new_id();
    let b = pool.get_new_id();
    assert_eq!((a, b), (0, 1));
    pool.release(a);
    assert_eq!(pool.available(), 99);
    assert_eq!(pool.get_new_id(), 0);
    pool.release(b);
    pool.release(0);
    assert_eq!(pool.get_new_id(), 0);
    assert_eq!(pool.get_new_id(), 1);
    assert_eq!(pool.get_new_id(), 2);
}

#[test]
fn empty_pool_has_nothing_to_hand_out() {
    let mut pool = StackCtr::init(0);
    assert_eq!(pool.available(), 0);
    pool.release(7);
    assert_eq!(pool.available(), 1);
    assert_eq!(pool.get_new_id(), 7);
}

#[test]
fn notification_kinds_are_told_apart() {
    assert_eq!(Notify::Info, Notify::Info);
    assert_ne!(Notify::Recv, Notify::RecvRaw);
    assert_ne!(Notify::Send, Notify::SendRaw);
}

#[test]
fn each_notification_kind_has_its_label() {
    assert_eq!(Notify::Info.prefix(), "(Info)");
    assert_eq!(Notify::Recv.prefix(), "(Recv)");
    assert_eq!(Notify::RecvRaw.prefix(), "(RecvRaw)");
    assert_eq!(Notify::Send.prefix(), "(Send)");
    assert_eq!(Notify::SendRaw.prefix(), "(SendRaw)");
}
