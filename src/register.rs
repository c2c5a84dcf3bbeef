//! The register file: eleven named slots, each holding a value.

use vstd::prelude::*;
use crate::inst::{Reg, REG_COUNT};
use crate::value::{Value, ValueView, views, lemma_views, lemma_views_update};

verus! {

/// The contents of a fresh register file: every slot `Ref(0)` but `ZF`,
/// which is `Bool(false)`.
pub open spec fn initial_registers() -> Seq<ValueView> {
    Seq::new(
        REG_COUNT as nat,
        |i: int|
            if i == Reg::ZF.spec_slot() {
                ValueView::Bool(false)
            } else {
                ValueView::Ref(0)
            },
    )
}

/// A register file. Slot `i` holds the register whose `spec_slot` is `i`.
pub struct Registers {
    pub slots: [Value; REG_COUNT],
}

impl View for Registers {
    type V = Seq<ValueView>;

    open spec fn view(&self) -> Seq<ValueView> {
        views(self.slots@)
    }
}

impl Registers {
    pub fn new() -> (r: Registers)
        ensures
            r@ == initial_registers(),
    {
        let r = Registers {
            slots: [
                Value::Ref(0),
                Value::Ref(0),
                Value::Ref(0),
                Value::Ref(0),
                Value::Ref(0),
                Value::Ref(0),
                Value::Ref(0),
                Value::Ref(0),
                Value::Ref(0),
                Value::Bool(false),
                Value::Ref(0),
            ],
        };
        proof {
            lemma_views(r.slots@);
            assert(r@ =~= initial_registers());
        }
        r
    }

    /// A copy of the register's value.
    pub fn get(&self, reg: Reg) -> (r: Value)
        ensures
            r@ == self@[reg.spec_slot()],
    {
        proof {
            lemma_views(self.slots@);
        }
        self.slots[reg.slot()].clone()
    }

    /// Replaces the register's value.
    pub fn set(&mut self, reg: Reg, value: Value)
        ensures
            final(self)@ == old(self)@.update(reg.spec_slot(), value@),
    {
        let i = reg.slot();
        proof {
            lemma_views_update(self.slots@, i as int, value);
        }
        self.slots[i] = value;
    }

    /// The program counter, or `None` where `PC` does not hold a `Ref`.
    pub fn pc(&self) -> (r: Option<usize>)
        ensures
            r == match self@[Reg::PC.spec_slot()] {
                ValueView::Ref(p) => Some(p),
                _ => None::<usize>,
            },
    {
        proof {
            lemma_views(self.slots@);
        }
        match &self.slots[Reg::PC.slot()] {
            Value::Ref(p) => Some(*p),
            _ => None,
        }
    }
}

/// A register file always has one slot for each register.
pub proof fn lemma_register_count(r: &Registers)
    ensures
        r@.len() == REG_COUNT,
{
    lemma_views(r.slots@);
}

} // verus!
