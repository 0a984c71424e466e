//! The transaction of one connection: whether commands are being queued,
//! and the queue.

use crate::value::RedisValue;
use std::collections::VecDeque;
use vstd::prelude::*;

verus! {

/// Where a connection stands between `MULTI` and `EXEC`.
#[derive(Clone, Copy, Debug, PartialEq, Eq)]
pub enum Phase {
    /// Commands run as they come.
    Neutral,
    /// Commands are queued.
    Queuing,
    /// The queue is being run.
    Executing,
}

/// The transaction state of one connection.
///
/// Commands are pushed at the front of the queue and popped at its back, so
/// they leave in the order in which they came.
#[derive(Debug)]
pub struct Transaction {
    in_transaction: bool,
    in_exec: bool,
    queue: VecDeque<Option<RedisValue>>,
}

impl Transaction {
    /// The phase that the flags stand for.
    pub closed spec fn phase(&self) -> Phase {
        if self.in_transaction {
            Phase::Queuing
        } else if self.in_exec {
            Phase::Executing
        } else {
            Phase::Neutral
        }
    }

    /// The queued commands, the one that came first first.
    pub closed spec fn pending(&self) -> Seq<Option<RedisValue>> {
        Seq::new(self.queue@.len(), |i: int| self.queue@[self.queue@.len() - 1 - i])
    }

    /// A transaction at rest, with nothing queued.
    pub fn init() -> (tx: Self)
        ensures
            tx.phase() == Phase::Neutral,
            tx.pending() == Seq::<Option<RedisValue>>::empty(),
    {
        let tx = Transaction { in_transaction: false, in_exec: false, queue: VecDeque::new() };
        tx
    }

    /// The phase.
    pub fn current(&self) -> (phase: Phase)
        ensures
            phase == self.phase(),
    {
        if self.in_transaction {
            Phase::Queuing
        } else if self.in_exec {
            Phase::Executing
        } else {
            Phase::Neutral
        }
    }

    /// How many commands are queued.
    pub fn queued(&self) -> (n: usize)
        ensures
            n == self.pending().len(),
    {
        self.queue.len()
    }

    /// Queues `elt` behind what is queued already.
    pub fn push(&mut self, elt: Option<RedisValue>)
        ensures
            final(self).pending() == old(self).pending().push(elt),
            final(self).phase() == old(self).phase(),
    {
        self.queue.push_front(elt);
    }

    /// Takes the command that has been queued the longest, if there is one.
    pub fn pop(&mut self) -> (elt: Option<Option<RedisValue>>)
        ensures
            final(self).phase() == old(self).phase(),
            match elt {
                Some(first) => old(self).pending().len() > 0 && first == old(self).pending()[0]
                    && final(self).pending() == old(self).pending().drop_first(),
                None => old(self).pending().len() == 0 && final(self).pending() == old(
                    self,
                ).pending(),
            },
    {
        let elt = self.queue.pop_back();
        elt
    }

    /// Starts queuing.
    pub fn switch_trans(&mut self)
        ensures
            final(self).phase() == Phase::Queuing,
            final(self).pending() == old(self).pending(),
    {
        self.in_exec = false;
        self.in_transaction = true;
    }

    /// Starts running the queue.
    pub fn switch_exec(&mut self)
        ensures
            final(self).phase() == Phase::Executing,
            final(self).pending() == old(self).pending(),
    {
        self.in_transaction = false;
        self.in_exec = true;
    }

    /// Comes to rest.
    pub fn switch_neutral(&mut self)
        ensures
            final(self).phase() == Phase::Neutral,
            final(self).pending() == old(self).pending(),
    {
        self.in_exec = false;
        self.in_transaction = false;
    }
}

} // verus!
