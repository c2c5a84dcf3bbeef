//! A set of actors and the delivery of the messages they send one another.

use vstd::prelude::*;
use crate::actor::{
    ActorView,
    ActorVm,
    Message,
    DEFAULT_HEAP_SIZE,
    initial_actor,
    outbox_view,
    posted,
    step,
    with_reg,
};
use crate::inst::{Inst, Reg, Tick};
use crate::value::{Value, ValueView};

verus! {

/// The actors after each message of `msgs`, in order, is posted to the
/// actor it names. A message that names no actor is dropped.
pub open spec fn deliver(actors: Seq<ActorView>, msgs: Seq<(usize, ValueView)>) -> Seq<ActorView>
    decreases msgs.len(),
{
    if msgs.len() == 0 {
        actors
    } else {
        let before = deliver(actors, msgs.drop_last());
        let (to, v) = msgs.last();
        if to < before.len() {
            before.update(to as int, posted(before[to as int], v))
        } else {
            before
        }
    }
}

/// Actor `id` ticks once; then each message it sent goes, in order, to the
/// mailbox of the actor it names.
pub open spec fn system_step(actors: Seq<ActorView>, id: int) -> (Seq<ActorView>, Tick) {
    let (a, t) = step(actors[id]);
    (deliver(actors.update(id, ActorView { outbox: Seq::empty(), ..a }), a.outbox), t)
}

/// Actors numbered from zero in the order in which they were spawned.
pub struct System {
    actors: Vec<ActorVm>,
}

impl View for System {
    type V = Seq<ActorView>;

    closed spec fn view(&self) -> Seq<ActorView> {
        self.actors@.map_values(|a: ActorVm| a@)
    }
}

proof fn lemma_deliver_len(actors: Seq<ActorView>, msgs: Seq<(usize, ValueView)>)
    ensures
        deliver(actors, msgs).len() == actors.len(),
    decreases msgs.len(),
{
    if msgs.len() > 0 {
        lemma_deliver_len(actors, msgs.drop_last());
    }
}

impl System {
    pub fn new() -> (r: System)
        ensures
            r@ == Seq::<ActorView>::empty(),
    {
        let r = System { actors: Vec::new() };
        proof {
            assert(r@ =~= Seq::<ActorView>::empty());
        }
        r
    }

    /// The number of actors.
    pub fn len(&self) -> (r: usize)
        ensures
            r == self@.len(),
    {
        self.actors.len()
    }

    /// Adds a fresh actor running `program` and returns its number.
    pub fn spawn(&mut self, program: Vec<Inst>) -> (id: usize)
        ensures
            id == old(self)@.len(),
            final(self)@ == old(self)@.push(initial_actor(program@, DEFAULT_HEAP_SIZE as nat)),
    {
        let id = self.actors.len();
        self.actors.push(ActorVm::new(program));
        proof {
            assert(self@ =~= old(self)@.push(initial_actor(program@, DEFAULT_HEAP_SIZE as nat)));
        }
        id
    }

    /// The actor numbered `id`.
    pub fn actor(&self, id: usize) -> (r: &ActorVm)
        requires
            id < self@.len(),
        ensures
            r@ == self@[id as int],
    {
        &self.actors[id]
    }

    /// Posts a message to actor `id`; returns `false`, and changes nothing,
    /// when there is no such actor.
    pub fn post_message(&mut self, id: usize, value: Value) -> (r: bool)
        ensures
            r == (id < old(self)@.len()),
            r ==> final(self)@ == old(self)@.update(id as int, posted(old(self)@[id as int], value@)),
            !r ==> final(self)@ == old(self)@,
    {
        if id < self.actors.len() {
            self.actors[id].post(value);
            proof {
                assert(self@ =~= old(self)@.update(id as int, posted(old(self)@[id as int], value@)));
            }
            true
        } else {
            false
        }
    }

    /// Replaces a register of actor `id`; the driver writes the result of a
    /// floating-point request this way.
    pub fn set_reg(&mut self, id: usize, reg: Reg, value: Value)
        requires
            id < old(self)@.len(),
        ensures
            final(self)@ == old(self)@.update(id as int, with_reg(old(self)@[id as int], reg, value@)),
    {
        self.actors[id].set_reg(reg, value);
        proof {
            assert(self@ =~= old(self)@.update(id as int, with_reg(old(self)@[id as int], reg, value@)));
        }
    }

    /// Ticks actor `id` and delivers what it sent; see `system_step`.
    pub fn tick(&mut self, id: usize) -> (t: Tick)
        requires
            id < old(self)@.len(),
        ensures
            (final(self)@, t) == system_step(old(self)@, id as int),
    {
        let t = self.actors[id].tick();
        let msgs = self.actors[id].take_outbox();
        let ghost start = self@;
        proof {
            assert(start =~= old(self)@.update(
                id as int,
                ActorView { outbox: Seq::empty(), ..step(old(self)@[id as int]).0 },
            ));
        }
        let mut i: usize = 0;
        while i < msgs.len()
            invariant
                i <= msgs.len(),
                outbox_view(msgs@) == step(old(self)@[id as int]).0.outbox,
                self@ == deliver(start, outbox_view(msgs@).take(i as int)),
            decreases msgs.len() - i,
        {
            let to = msgs[i].to;
            let value = msgs[i].value.clone();
            proof {
                lemma_deliver_len(start, outbox_view(msgs@).take(i as int));
                assert(outbox_view(msgs@).take(i + 1).drop_last() =~= outbox_view(msgs@).take(i as int));
            }
            if to < self.actors.len() {
                self.actors[to].post(value);
                proof {
                    assert(self@ =~= deliver(start, outbox_view(msgs@).take(i + 1)));
                }
            }
            i += 1;
        }
        proof {
            assert(outbox_view(msgs@).take(msgs@.len() as int) =~= outbox_view(msgs@));
        }
        t
    }
}

} // verus!
