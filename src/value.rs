//! The tagged value that every register, stack slot, heap cell and mailbox
//! entry holds, with its mathematical model.

use vstd::prelude::*;

verus! {

broadcast use vstd::std_specs::vec::axiom_vec_index_decreases;

/// A dynamically tagged datum.
///
/// A `Float` is held as the bit pattern of an IEEE-754 double, so that
/// equality and hashing go by bits, not by numeric value.
#[derive(Debug, Hash)]
pub enum Value {
    Ref(usize),
    Int(i64),
    Float(u64),
    Bool(bool),
    String(String),
    Atom(String),
    List(Vec<Value>),
    Tuple(Vec<Value>),
    /// Entries in insertion order; keys are unique.
    Mapping(Vec<(Value, Value)>),
}

/// The mathematical model of a [`Value`].
pub enum ValueView {
    Ref(usize),
    Int(i64),
    Float(u64),
    Bool(bool),
    Str(Seq<char>),
    Atom(Seq<char>),
    List(Seq<ValueView>),
    Tuple(Seq<ValueView>),
    Mapping(Seq<(ValueView, ValueView)>),
}

/// The models of a sequence of values, element by element.
pub open spec fn views(s: Seq<Value>) -> Seq<ValueView>
    decreases s,
{
    if s.len() == 0 {
        Seq::empty()
    } else {
        views(s.drop_last()).push(s.last().view())
    }
}

/// The models of a sequence of map entries, entry by entry.
pub open spec fn entry_views(s: Seq<(Value, Value)>) -> Seq<(ValueView, ValueView)>
    decreases s,
{
    if s.len() == 0 {
        Seq::empty()
    } else {
        entry_views(s.drop_last()).push((s.last().0.view(), s.last().1.view()))
    }
}

impl View for Value {
    type V = ValueView;

    open spec fn view(&self) -> ValueView
        decreases self,
    {
        match self {
            Value::Ref(r) => ValueView::Ref(*r),
            Value::Int(i) => ValueView::Int(*i),
            Value::Float(f) => ValueView::Float(*f),
            Value::Bool(b) => ValueView::Bool(*b),
            Value::String(s) => ValueView::Str(s@),
            Value::Atom(a) => ValueView::Atom(a@),
            Value::List(l) => ValueView::List(views(l@)),
            Value::Tuple(t) => ValueView::Tuple(views(t@)),
            Value::Mapping(m) => ValueView::Mapping(entry_views(m@)),
        }
    }
}


impl ValueView {
    /// Every map at any depth has unique keys.
    pub open spec fn wf(self) -> bool
        decreases self,
    {
        match self {
            ValueView::List(l) => forall|i: int| 0 <= i < l.len() ==> (#[trigger] l[i]).wf(),
            ValueView::Tuple(t) => forall|i: int| 0 <= i < t.len() ==> (#[trigger] t[i]).wf(),
            ValueView::Mapping(m) => {
                &&& forall|i: int| 0 <= i < m.len() ==> (#[trigger] m[i]).0.wf() && m[i].1.wf()
                &&& forall|i: int, j: int|
                    0 <= i < m.len() && 0 <= j < m.len() && i != j ==> (#[trigger] m[i]).0 != (
                    #[trigger] m[j]).0
            },
            _ => true,
        }
    }
}

impl Value {
    /// The value is well formed: every map in it has unique keys.
    pub open spec fn wf(&self) -> bool {
        self@.wf()
    }
}

/// `views` maps each element to its model.
pub proof fn lemma_views(s: Seq<Value>)
    ensures
        views(s).len() == s.len(),
        forall|i: int| 0 <= i < s.len() ==> #[trigger] views(s)[i] == s[i]@,
    decreases s.len(),
{
    if s.len() > 0 {
        lemma_views(s.drop_last());
        assert(views(s) == views(s.drop_last()).push(s.last()@));
    } else {
        assert(views(s) == Seq::<ValueView>::empty());
    }
}

/// `entry_views` maps each entry to the pair of its models.
pub proof fn lemma_entry_views(s: Seq<(Value, Value)>)
    ensures
        entry_views(s).len() == s.len(),
        forall|i: int|
            0 <= i < s.len() ==> #[trigger] entry_views(s)[i] == (s[i].0@, s[i].1@),
    decreases s.len(),
{
    if s.len() > 0 {
        lemma_entry_views(s.drop_last());
        assert(entry_views(s) == entry_views(s.drop_last()).push((s.last().0@, s.last().1@)));
    } else {
        assert(entry_views(s) == Seq::<(ValueView, ValueView)>::empty());
    }
}

pub proof fn lemma_views_push(s: Seq<Value>, x: Value)
    ensures
        views(s.push(x)) == views(s).push(x@),
{
    assert(s.push(x).drop_last() =~= s);
}

pub proof fn lemma_views_update(s: Seq<Value>, i: int, x: Value)
    requires
        0 <= i < s.len(),
    ensures
        views(s.update(i, x)) == views(s).update(i, x@),
{
    lemma_views(s);
    lemma_views(s.update(i, x));
    assert(views(s.update(i, x)) =~= views(s).update(i, x@));
}

pub proof fn lemma_views_subrange(s: Seq<Value>, i: int, j: int)
    requires
        0 <= i <= j <= s.len(),
    ensures
        views(s.subrange(i, j)) == views(s).subrange(i, j),
{
    lemma_views(s);
    lemma_views(s.subrange(i, j));
    assert(views(s.subrange(i, j)) =~= views(s).subrange(i, j));
}

impl Clone for Value {
    /// A deep copy: containers are copied element by element, map entries
    /// included.
    fn clone(&self) -> (r: Value)
        ensures
            r@ == self@,
        decreases self,
    {
        match self {
            Value::Ref(r) => Value::Ref(*r),
            Value::Int(i) => Value::Int(*i),
            Value::Float(f) => Value::Float(*f),
            Value::Bool(b) => Value::Bool(*b),
            Value::String(s) => Value::String(s.clone()),
            Value::Atom(a) => Value::Atom(a.clone()),
            Value::List(l) => {
                let mut out: Vec<Value> = Vec::with_capacity(l.len());
                let mut i: usize = 0;
                while i < l.len()
                    invariant
                        *self == Value::List(*l),
                        i <= l.len(),
                        out@.len() == i,
                        forall|j: int| 0 <= j < i ==> (#[trigger] out@[j])@ == l@[j]@,
                    decreases l.len() - i,
                {
                    proof {
                        assert(self->List_0 == *l);
                        assert(decreases_to!(*self => self->List_0));
                        assert(decreases_to!(*l => l[i as int]));
                    }
                    out.push(l[i].clone());
                    i += 1;
                }
                proof {
                    lemma_views(out@);
                    lemma_views(l@);
                    assert(views(out@) =~= views(l@));
                }
                Value::List(out)
            },
            Value::Tuple(t) => {
                let mut out: Vec<Value> = Vec::with_capacity(t.len());
                let mut i: usize = 0;
                while i < t.len()
                    invariant
                        *self == Value::Tuple(*t),
                        i <= t.len(),
                        out@.len() == i,
                        forall|j: int| 0 <= j < i ==> (#[trigger] out@[j])@ == t@[j]@,
                    decreases t.len() - i,
                {
                    proof {
                        assert(self->Tuple_0 == *t);
                        assert(decreases_to!(*self => self->Tuple_0));
                        assert(decreases_to!(*t => t[i as int]));
                    }
                    out.push(t[i].clone());
                    i += 1;
                }
                proof {
                    lemma_views(out@);
                    lemma_views(t@);
                    assert(views(out@) =~= views(t@));
                }
                Value::Tuple(out)
            },
            Value::Mapping(m) => {
                let mut out: Vec<(Value, Value)> = Vec::with_capacity(m.len());
                let mut i: usize = 0;
                while i < m.len()
                    invariant
                        *self == Value::Mapping(*m),
                        i <= m.len(),
                        out@.len() == i,
                        forall|j: int|
                            0 <= j < i ==> (#[trigger] out@[j]).0@ == m@[j].0@ && out@[j].1@
                                == m@[j].1@,
                    decreases m.len() - i,
                {
                    proof {
                        assert(self->Mapping_0 == *m);
                        assert(decreases_to!(*self => self->Mapping_0));
                        assert(decreases_to!(*m => m[i as int]));
                        assert(decreases_to!(m[i as int] => m[i as int].0));
                    }
                    let k = m[i].0.clone();
                    let v = m[i].1.clone();
                    out.push((k, v));
                    i += 1;
                }
                proof {
                    lemma_entry_views(out@);
                    lemma_entry_views(m@);
                    assert(entry_views(out@) =~= entry_views(m@));
                }
                Value::Mapping(out)
            },
        }
    }
}


impl PartialEq for Value {
    /// Structural equality: same tag and equal contents, containers compared
    /// element by element in order.
    fn eq(&self, other: &Value) -> (r: bool)
        decreases self,
    {
        match (self, other) {
            (Value::Ref(a), Value::Ref(b)) => *a == *b,
            (Value::Int(a), Value::Int(b)) => *a == *b,
            (Value::Float(a), Value::Float(b)) => *a == *b,
            (Value::Bool(a), Value::Bool(b)) => *a == *b,
            (Value::String(a), Value::String(b)) => *a == *b,
            (Value::Atom(a), Value::Atom(b)) => *a == *b,
            (Value::List(a), Value::List(b)) => {
                proof {
                    lemma_views(a@);
                    lemma_views(b@);
                }
                if a.len() != b.len() {
                    return false;
                }
                let mut i: usize = 0;
                while i < a.len()
                    invariant
                        *self is List,
                        *other is List,
                        self->List_0 == *a,
                        other->List_0 == *b,
                        a.len() == b.len(),
                        i <= a.len(),
                        views(a@).len() == a@.len(),
                        views(b@).len() == b@.len(),
                        forall|j: int| 0 <= j < a@.len() ==> #[trigger] views(a@)[j] == a@[j]@,
                        forall|j: int| 0 <= j < b@.len() ==> #[trigger] views(b@)[j] == b@[j]@,
                        forall|j: int| 0 <= j < i ==> (#[trigger] a@[j])@ == b@[j]@,
                    decreases a.len() - i,
                {
                    proof {
                        assert(decreases_to!(*self => self->List_0));
                    }
                    if !a[i].eq(&b[i]) {
                        proof {
                            assert(views(a@)[i as int] != views(b@)[i as int]);
                        }
                        return false;
                    }
                    i += 1;
                }
                proof {
                    assert(views(a@) =~= views(b@));
                }
                true
            },
            (Value::Tuple(a), Value::Tuple(b)) => {
                proof {
                    lemma_views(a@);
                    lemma_views(b@);
                }
                if a.len() != b.len() {
                    return false;
                }
                let mut i: usize = 0;
                while i < a.len()
                    invariant
                        *self is Tuple,
                        *other is Tuple,
                        self->Tuple_0 == *a,
                        other->Tuple_0 == *b,
                        a.len() == b.len(),
                        i <= a.len(),
                        views(a@).len() == a@.len(),
                        views(b@).len() == b@.len(),
                        forall|j: int| 0 <= j < a@.len() ==> #[trigger] views(a@)[j] == a@[j]@,
                        forall|j: int| 0 <= j < b@.len() ==> #[trigger] views(b@)[j] == b@[j]@,
                        forall|j: int| 0 <= j < i ==> (#[trigger] a@[j])@ == b@[j]@,
                    decreases a.len() - i,
                {
                    proof {
                        assert(decreases_to!(*self => self->Tuple_0));
                    }
                    if !a[i].eq(&b[i]) {
                        proof {
                            assert(views(a@)[i as int] != views(b@)[i as int]);
                        }
                        return false;
                    }
                    i += 1;
                }
                proof {
                    assert(views(a@) =~= views(b@));
                }
                true
            },
            (Value::Mapping(a), Value::Mapping(b)) => {
                proof {
                    lemma_entry_views(a@);
                    lemma_entry_views(b@);
                }
                if a.len() != b.len() {
                    return false;
                }
                let mut i: usize = 0;
                while i < a.len()
                    invariant
                        *self is Mapping,
                        *other is Mapping,
                        self->Mapping_0 == *a,
                        other->Mapping_0 == *b,
                        a.len() == b.len(),
                        i <= a.len(),
                        entry_views(a@).len() == a@.len(),
                        entry_views(b@).len() == b@.len(),
                        forall|j: int|
                            0 <= j < a@.len() ==> #[trigger] entry_views(a@)[j] == (
                            a@[j].0@,
                            a@[j].1@,
                        ),
                        forall|j: int|
                            0 <= j < b@.len() ==> #[trigger] entry_views(b@)[j] == (
                            b@[j].0@,
                            b@[j].1@,
                        ),
                        forall|j: int|
                            0 <= j < i ==> (#[trigger] a@[j]).0@ == b@[j].0@ && a@[j].1@
                                == b@[j].1@,
                    decreases a.len() - i,
                {
                    proof {
                        assert(decreases_to!(*self => self->Mapping_0));
                        assert(decreases_to!(a@[i as int] => a@[i as int].0));
                    }
                    if !a[i].0.eq(&b[i].0) || !a[i].1.eq(&b[i].1) {
                        proof {
                            assert(entry_views(a@)[i as int] != entry_views(b@)[i as int]);
                        }
                        return false;
                    }
                    i += 1;
                }
                proof {
                    assert(entry_views(a@) =~= entry_views(b@));
                }
                true
            },
            _ => false,
        }
    }
}

impl vstd::std_specs::cmp::PartialEqSpecImpl for Value {
    open spec fn obeys_eq_spec() -> bool {
        true
    }

    open spec fn eq_spec(&self, other: &Value) -> bool {
        self@ == other@
    }
}

} // verus!
