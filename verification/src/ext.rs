//! Utilities shared by the server: the client-id pool, the notification
//! kinds, and the traits of what a value can hold inside.

use crate::decimal::{decimal_text, int_digits, lemma_int_digits_ascii, render_i64};
use crate::text::{lemma_ascii_is_utf8, read_text};
use crate::value::RedisInt;
use vstd::prelude::*;

verus! {

/// A pool of client ids. The ids that are free lie on a stack.
pub struct StackCtr {
    vals: Vec<usize>,
    valid_n: usize,
}

impl StackCtr {
    /// The free ids, the next one to be handed out last.
    pub closed spec fn free(&self) -> Seq<usize> {
        self.vals@
    }

    /// The pool's count of free ids agrees with its stack.
    pub closed spec fn wf(&self) -> bool {
        self.valid_n == self.vals@.len()
    }

    /// A pool of the ids below `with_n`, of which the smallest is handed out first.
    pub fn init(with_n: usize) -> (pool: Self)
        ensures
            pool.wf(),
            pool.free() == Seq::new(with_n as nat, |i: int| (with_n - 1 - i) as usize),
    {
        let mut vals: Vec<usize> = Vec::new();
        let mut next: usize = with_n;
        while next > 0
            invariant
                next <= with_n,
                vals@ == Seq::new((with_n - next) as nat, |i: int| (with_n - 1 - i) as usize),
            decreases next,
        {
            next -= 1;
            vals.push(next);
        }
        StackCtr { vals, valid_n: with_n }
    }

    /// How many ids are free.
    pub fn available(&self) -> (count: usize)
        requires
            self.wf(),
        ensures
            count == self.free().len(),
    {
        self.valid_n
    }

    /// Hands out the id on top of the stack. The pool must not be exhausted.
    pub fn get_new_id(&mut self) -> (id: usize)
        requires
            old(self).wf(),
            old(self).free().len() > 0,
        ensures
            final(self).wf(),
            id == old(self).free().last(),
            final(self).free() == old(self).free().drop_last(),
    {
        self.valid_n -= 1;
        match self.vals.pop() {
            Some(id) => id,
            None => 0,
        }
    }

    /// Takes `id` back: it is the next one to be handed out.
    pub fn release(&mut self, id: usize)
        requires
            old(self).wf(),
            old(self).free().len() < usize::MAX,
        ensures
            final(self).wf(),
            final(self).free() == old(self).free().push(id),
    {
        self.valid_n += 1;
        self.vals.push(id);
    }
}

/// Kinds of notification a non-headless server may print.
#[derive(Clone, Copy, Debug, PartialEq, Eq)]
pub enum Notify {
    Info,
    Recv,
    /// For raw input.
    RecvRaw,
    Send,
    SendRaw,
}

impl Notify {
    /// The label that a notification of this kind is printed under.
    pub open spec fn label(self) -> Seq<char> {
        match self {
            Notify::Info => "(Info)"@,
            Notify::Recv => "(Recv)"@,
            Notify::RecvRaw => "(RecvRaw)"@,
            Notify::Send => "(Send)"@,
            Notify::SendRaw => "(SendRaw)"@,
        }
    }

    /// The label that a notification of this kind is printed under.
    pub fn prefix(&self) -> (text: &'static str)
        ensures
            text@ == self.label(),
    {
        match self {
            Notify::Info => "(Info)",
            Notify::Recv => "(Recv)",
            Notify::RecvRaw => "(RecvRaw)",
            Notify::Send => "(Send)",
            Notify::SendRaw => "(SendRaw)",
        }
    }
}

/// What a value can hold inside: something that reads as a text.
pub trait RedisValueInner {
    /// The text that the payload reads as.
    spec fn text(&self) -> Seq<char>;
}

/// A payload that can be written out as text.
pub trait RedisValueInenerToStr {
    /// The text that the payload is written as.
    spec fn written(&self) -> Seq<char>;

    /// Writes the payload out.
    fn to_text(&self) -> (text: String)
        ensures
            text@ == self.written(),
    ;
}

impl RedisValueInner for RedisInt {
    open spec fn text(&self) -> Seq<char> {
        decimal_text(*self as int)
    }
}

impl RedisValueInner for String {
    open spec fn text(&self) -> Seq<char> {
        self@
    }
}

impl RedisValueInenerToStr for RedisInt {
    open spec fn written(&self) -> Seq<char> {
        decimal_text(*self as int)
    }

    fn to_text(&self) -> (text: String) {
        let digits = render_i64(*self);
        proof {
            reveal(decimal_text);
            lemma_int_digits_ascii(*self as int);
            lemma_ascii_is_utf8(int_digits(*self as int));
        }
        match read_text(digits) {
            Some(text) => text,
            None => String::new(),
        }
    }
}

impl RedisValueInenerToStr for String {
    open spec fn written(&self) -> Seq<char> {
        self@
    }

    fn to_text(&self) -> (text: String) {
        self.clone()
    }
}

} // verus!
