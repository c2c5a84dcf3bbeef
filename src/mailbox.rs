//! An actor's inbound queue of messages.

use vstd::prelude::*;
use std::collections::VecDeque;
use crate::value::{Value, ValueView, views, lemma_views_push, lemma_views_subrange, lemma_views};

verus! {

/// A first-in first-out queue of values. Nothing leaves it but by `take`.
pub struct Mailbox {
    messages: VecDeque<Value>,
}

impl View for Mailbox {
    type V = Seq<ValueView>;

    /// The messages, oldest first.
    closed spec fn view(&self) -> Seq<ValueView> {
        views(self.messages@)
    }
}

/// The queue after posting each of `vs` in order.
pub open spec fn post_all(q: Seq<ValueView>, vs: Seq<ValueView>) -> Seq<ValueView>
    decreases vs.len(),
{
    if vs.len() == 0 {
        q
    } else {
        post_all(q, vs.drop_last()).push(vs.last())
    }
}

/// What `n` takes from a queue `q` return, in order.
pub open spec fn take_n(q: Seq<ValueView>, n: nat) -> Seq<ValueView>
    decreases n,
{
    if n == 0 || q.len() == 0 {
        Seq::empty()
    } else {
        seq![q[0]] + take_n(q.drop_first(), (n - 1) as nat)
    }
}

impl Mailbox {
    pub fn new() -> (r: Mailbox)
        ensures
            r@ == Seq::<ValueView>::empty(),
    {
        let r = Mailbox { messages: VecDeque::new() };
        proof {
            assert(views(r.messages@) =~= Seq::<ValueView>::empty());
        }
        r
    }

    /// Appends a message at the back.
    pub fn post(&mut self, value: Value)
        ensures
            final(self)@ == old(self)@.push(value@),
    {
        proof {
            lemma_views_push(self.messages@, value);
        }
        self.messages.push_back(value);
    }

    /// Removes and returns the oldest message, or `None` when there is none.
    pub fn take(&mut self) -> (r: Option<Value>)
        ensures
            old(self)@.len() == 0 ==> r is None && final(self)@ == old(self)@,
            old(self)@.len() > 0 ==> r is Some && r->Some_0@ == old(self)@[0] && final(self)@
                == old(self)@.drop_first(),
    {
        proof {
            lemma_views(self.messages@);
            if self.messages@.len() > 0 {
                lemma_views_subrange(self.messages@, 1, self.messages@.len() as int);
            }
        }
        self.messages.pop_front()
    }

    /// The number of messages waiting.
    pub fn len(&self) -> (r: usize)
        ensures
            r == self@.len(),
    {
        proof {
            lemma_views(self.messages@);
        }
        self.messages.len()
    }
}

/// Messages come out of a mailbox in the order in which they went in: after
/// the values `vs` are posted, in whatever order posters' turns put them,
/// to a mailbox holding `q`, taking as many times as there are messages
/// returns `q` and then `vs`, each exactly once and in order.
pub proof fn lemma_fifo(q: Seq<ValueView>, vs: Seq<ValueView>)
    ensures
        post_all(q, vs) == q + vs,
        take_n(post_all(q, vs), (q.len() + vs.len()) as nat) == q + vs,
    decreases vs.len(),
{
    lemma_post_all(q, vs);
    lemma_take_all(q + vs);
}

proof fn lemma_post_all(q: Seq<ValueView>, vs: Seq<ValueView>)
    ensures
        post_all(q, vs) == q + vs,
    decreases vs.len(),
{
    if vs.len() > 0 {
        lemma_post_all(q, vs.drop_last());
        assert(q + vs =~= (q + vs.drop_last()).push(vs.last()));
    } else {
        assert(q + vs =~= q);
    }
}

proof fn lemma_take_all(q: Seq<ValueView>)
    ensures
        take_n(q, q.len()) == q,
    decreases q.len(),
{
    if q.len() > 0 {
        lemma_take_all(q.drop_first());
        assert(seq![q[0]] + q.drop_first() =~= q);
    }
}

} // verus!
