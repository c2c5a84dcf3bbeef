//! An actor: registers, a value stack, a heap, a mailbox and a program, with
//! the fetch-execute step that drives it.
//!
//! The step is stated as a function on `ActorView`, the actor's model;
//! `ActorVm::tick` is proved to perform exactly that function.

use vstd::prelude::*;
use crate::arith::{int_arith, int_compare, int_arith_exec, int_compare_exec};
use crate::inst::{ArithOp, CmpOp, Fault, FloatOp, FloatRequest, Inst, Reg, Tick, REG_COUNT};
use crate::mailbox::Mailbox;
use crate::register::{Registers, initial_registers, lemma_register_count};
use crate::value::{
    Value,
    ValueView,
    views,
    lemma_views,
    lemma_views_push,
    lemma_views_update,
    lemma_views_subrange,
    entry_views,
    lemma_entry_views,
};

verus! {

/// Heap slots of an actor made by `ActorVm::new`.
pub const DEFAULT_HEAP_SIZE: usize = 1000;

/// Where an actor is in its life.
#[derive(Debug, Clone, Copy, PartialEq, Eq, Structural)]
pub enum RunState {
    Running,
    /// Waiting for a message to put into the register.
    Suspended(Reg),
    Halted,
    /// Stopped on an error; it executes nothing more.
    Failed(Fault),
}

/// A message that an actor sent, addressed to the actor numbered `to`.
#[derive(Debug)]
pub struct Message {
    pub to: usize,
    pub value: Value,
}

/// The model of an actor.
pub struct ActorView {
    pub regs: Seq<ValueView>,
    pub stack: Seq<ValueView>,
    pub heap: Seq<ValueView>,
    pub mailbox: Seq<ValueView>,
    /// Messages sent and not yet handed to the scheduler, oldest first.
    pub outbox: Seq<(usize, ValueView)>,
    pub program: Seq<Inst>,
    pub state: RunState,
}

/// The actor after a message is posted to its mailbox.
pub open spec fn posted(s: ActorView, v: ValueView) -> ActorView {
    ActorView { mailbox: s.mailbox.push(v), ..s }
}

/// `n` slots that each hold `Ref(0)`.
pub open spec fn placeholders(n: nat) -> Seq<ValueView> {
    Seq::new(n, |i: int| ValueView::Ref(0))
}

/// A fresh actor: initial registers, empty stack and mailbox, a heap of
/// `heap_size` slots holding `Ref(0)`, running.
pub open spec fn initial_actor(program: Seq<Inst>, heap_size: nat) -> ActorView {
    ActorView {
        regs: initial_registers(),
        stack: Seq::empty(),
        heap: placeholders(heap_size),
        mailbox: Seq::empty(),
        outbox: Seq::empty(),
        program,
        state: RunState::Running,
    }
}

pub open spec fn reg_value(s: ActorView, r: Reg) -> ValueView {
    s.regs[r.spec_slot()]
}

pub open spec fn with_reg(s: ActorView, r: Reg, v: ValueView) -> ActorView {
    ActorView { regs: s.regs.update(r.spec_slot(), v), ..s }
}

/// Goes on running after `s`.
pub open spec fn proceed(s: ActorView) -> (ActorView, Tick) {
    (s, Tick::Running)
}

/// Stops on error `e`.
pub open spec fn fail(s: ActorView, e: Fault) -> (ActorView, Tick) {
    (ActorView { state: RunState::Failed(e), ..s }, Tick::Failed(e))
}

/// Takes the oldest message into `r`, or waits for one.
pub open spec fn receive(s: ActorView, r: Reg) -> (ActorView, Tick) {
    if s.mailbox.len() > 0 {
        proceed(
            ActorView {
                regs: s.regs.update(r.spec_slot(), s.mailbox[0]),
                mailbox: s.mailbox.drop_first(),
                state: RunState::Running,
                ..s
            },
        )
    } else {
        (ActorView { state: RunState::Suspended(r), ..s }, Tick::Suspended)
    }
}

/// `Add`, `Sub`, `Mul`, `Div`, `Mod`: integers are computed here, doubles
/// are handed to the driver, and any other pair of operands is ignored.
pub open spec fn arith(s: ActorView, op: ArithOp, a: Reg, b: Reg, d: Reg) -> (ActorView, Tick) {
    match (reg_value(s, a), reg_value(s, b)) {
        (ValueView::Int(x), ValueView::Int(y)) => match int_arith(op, x, y) {
            Ok(z) => proceed(with_reg(s, d, ValueView::Int(z))),
            Err(e) => fail(s, e),
        },
        (ValueView::Float(x), ValueView::Float(y)) => (
            s,
            Tick::Float(FloatRequest { op: FloatOp::Arith(op), lhs: x, rhs: y, dest: d }),
        ),
        _ => proceed(s),
    }
}

/// The comparisons. `Eq` and `Ne` also compare strings, and leave `ZF` as it
/// is on operands they cannot compare; the ordered ones fail there.
pub open spec fn compare(s: ActorView, op: CmpOp, a: Reg, b: Reg) -> (ActorView, Tick) {
    match (reg_value(s, a), reg_value(s, b)) {
        (ValueView::Int(x), ValueView::Int(y)) => proceed(
            with_reg(s, Reg::ZF, ValueView::Bool(int_compare(op, x, y))),
        ),
        (ValueView::Float(x), ValueView::Float(y)) => (
            s,
            Tick::Float(FloatRequest { op: FloatOp::Compare(op), lhs: x, rhs: y, dest: Reg::ZF }),
        ),
        (ValueView::Str(x), ValueView::Str(y)) => if op is Eq {
            proceed(with_reg(s, Reg::ZF, ValueView::Bool(x == y)))
        } else if op is Ne {
            proceed(with_reg(s, Reg::ZF, ValueView::Bool(x != y)))
        } else {
            fail(s, Fault::InvalidComparison)
        },
        _ => if op.is_equality() {
            proceed(s)
        } else {
            fail(s, Fault::InvalidComparison)
        },
    }
}

/// Writes the value of `v` at index `i` of the list in `c`.
pub open spec fn set_indexed(s: ActorView, c: Reg, i: Reg, v: Reg) -> (ActorView, Tick) {
    match (reg_value(s, c), reg_value(s, i)) {
        (ValueView::List(l), ValueView::Int(k)) => if 0 <= k < l.len() {
            proceed(with_reg(s, c, ValueView::List(l.update(k as int, reg_value(s, v)))))
        } else {
            fail(s, Fault::IndexOutOfBounds)
        },
        _ => fail(s, Fault::TypeMismatch),
    }
}

/// Reads index `i` of the list in `c` into `d`.
pub open spec fn get_indexed(s: ActorView, c: Reg, i: Reg, d: Reg) -> (ActorView, Tick) {
    match (reg_value(s, c), reg_value(s, i)) {
        (ValueView::List(l), ValueView::Int(k)) => if 0 <= k < l.len() {
            proceed(with_reg(s, d, l[k as int]))
        } else {
            fail(s, Fault::IndexOutOfBounds)
        },
        _ => fail(s, Fault::TypeMismatch),
    }
}

/// The effect of one instruction, on an actor whose `PC` already names the
/// next one.
pub open spec fn execute(s: ActorView, inst: Inst) -> (ActorView, Tick) {
    match inst {
        Inst::LoadInt(r, v) => proceed(with_reg(s, r, ValueView::Int(v))),
        Inst::LoadFloat(r, v) => proceed(with_reg(s, r, ValueView::Float(v))),
        Inst::LoadBool(r, v) => proceed(with_reg(s, r, ValueView::Bool(v))),
        Inst::LoadRef(r, v) => proceed(with_reg(s, r, ValueView::Ref(v))),
        Inst::LoadString(r, t) => proceed(with_reg(s, r, ValueView::Str(t@))),
        Inst::LoadAtom(r, t) => proceed(with_reg(s, r, ValueView::Atom(t@))),
        Inst::MakeList(r, n) => proceed(with_reg(s, r, ValueView::List(placeholders(n as nat)))),
        Inst::MakeTuple(r, n) => proceed(
            with_reg(s, r, ValueView::Tuple(placeholders(n as nat))),
        ),
        Inst::MakeMap(r) => proceed(with_reg(s, r, ValueView::Mapping(Seq::empty()))),
        Inst::SetIndexed(c, i, v) => set_indexed(s, c, i, v),
        Inst::GetIndexed(c, i, d) => get_indexed(s, c, i, d),
        Inst::Move(a, b) => proceed(with_reg(s, b, reg_value(s, a))),
        Inst::StoreHeap(r, addr) => if addr < s.heap.len() {
            proceed(ActorView { heap: s.heap.update(addr as int, reg_value(s, r)), ..s })
        } else {
            fail(s, Fault::HeapOutOfBounds)
        },
        Inst::LoadHeap(addr, r) => if addr < s.heap.len() {
            proceed(with_reg(s, r, s.heap[addr as int]))
        } else {
            fail(s, Fault::HeapOutOfBounds)
        },
        Inst::Send(t, v) => match reg_value(s, t) {
            ValueView::Ref(to) => proceed(ActorView { outbox: s.outbox.push((to, reg_value(s, v))), ..s }),
            _ => fail(s, Fault::TypeMismatch),
        },
        Inst::Recv(r) => receive(s, r),
        Inst::Add(a, b, d) => arith(s, ArithOp::Add, a, b, d),
        Inst::Sub(a, b, d) => arith(s, ArithOp::Sub, a, b, d),
        Inst::Mul(a, b, d) => arith(s, ArithOp::Mul, a, b, d),
        Inst::Div(a, b, d) => arith(s, ArithOp::Div, a, b, d),
        Inst::Mod(a, b, d) => arith(s, ArithOp::Mod, a, b, d),
        Inst::Jump(addr) => proceed(with_reg(s, Reg::PC, ValueView::Ref(addr))),
        Inst::JumpIfTrue(addr) => if reg_value(s, Reg::ZF) == ValueView::Bool(true) {
            proceed(with_reg(s, Reg::PC, ValueView::Ref(addr)))
        } else {
            proceed(s)
        },
        Inst::Eq(a, b) => compare(s, CmpOp::Eq, a, b),
        Inst::Ne(a, b) => compare(s, CmpOp::Ne, a, b),
        Inst::Gt(a, b) => compare(s, CmpOp::Gt, a, b),
        Inst::Lt(a, b) => compare(s, CmpOp::Lt, a, b),
        Inst::Gte(a, b) => compare(s, CmpOp::Gte, a, b),
        Inst::Lte(a, b) => compare(s, CmpOp::Lte, a, b),
        Inst::Push(r) => proceed(
            ActorView {
                stack: s.stack.push(reg_value(s, r)),
                regs: s.regs.update(r.spec_slot(), ValueView::Ref(0)),
                ..s
            },
        ),
        Inst::Pop(r) => if s.stack.len() > 0 {
            proceed(
                ActorView {
                    stack: s.stack.drop_last(),
                    regs: s.regs.update(r.spec_slot(), s.stack.last()),
                    ..s
                },
            )
        } else {
            fail(s, Fault::StackUnderflow)
        },
        Inst::Halt => (ActorView { state: RunState::Halted, ..s }, Tick::Halted),
    }
}

/// One tick. A halted or failed actor does nothing; a suspended one tries
/// its receive again; a running one fetches the instruction at `PC`, moves
/// `PC` on by one, and executes it.
pub open spec fn step(s: ActorView) -> (ActorView, Tick) {
    match s.state {
        RunState::Halted => (s, Tick::Halted),
        RunState::Failed(e) => (s, Tick::Failed(e)),
        RunState::Suspended(r) => receive(s, r),
        RunState::Running => match reg_value(s, Reg::PC) {
            ValueView::Ref(pc) => if pc < s.program.len() {
                execute(with_reg(s, Reg::PC, ValueView::Ref((pc + 1) as usize)), s.program[pc as int])
            } else {
                fail(s, Fault::PcOutOfBounds)
            },
            _ => fail(s, Fault::PcNotRef),
        },
    }
}


/// A receive on an empty mailbox suspends the actor without losing or
/// inventing a message: while the mailbox stays empty each tick reports
/// `Suspended` and changes nothing, and once a message is posted the next
/// tick puts it into the receiving register, leaves the mailbox empty and
/// resumes the actor.
pub proof fn lemma_recv_waits_for_post(s: ActorView, pc: usize, r: Reg, v: ValueView)
    requires
        s.state == RunState::Running,
        s.regs.len() == REG_COUNT,
        reg_value(s, Reg::PC) == ValueView::Ref(pc),
        pc < s.program.len(),
        s.program[pc as int] == Inst::Recv(r),
        s.mailbox.len() == 0,
    ensures
        step(s).1 == Tick::Suspended,
        step(s).0.state == RunState::Suspended(r),
        step(s).0.mailbox.len() == 0,
        reg_value(step(s).0, Reg::PC) == ValueView::Ref((pc + 1) as usize),
        step(step(s).0) == (step(s).0, Tick::Suspended),
        step(posted(step(s).0, v)).1 == Tick::Running,
        step(posted(step(s).0, v)).0.state == RunState::Running,
        reg_value(step(posted(step(s).0, v)).0, r) == v,
        step(posted(step(s).0, v)).0.mailbox.len() == 0,
{
    let s1 = step(s).0;
    let s2 = posted(s1, v);
    assert(s2.mailbox =~= seq![v]);
    assert(step(s2).0.mailbox =~= Seq::<ValueView>::empty());
}

/// Every value in the sequence is well formed.
pub open spec fn all_wf(s: Seq<ValueView>) -> bool {
    forall|i: int| 0 <= i < s.len() ==> (#[trigger] s[i]).wf()
}

/// The actor has one slot per register, and every value it holds is well
/// formed.
pub open spec fn actor_wf(s: ActorView) -> bool {
    &&& s.regs.len() == REG_COUNT
    &&& all_wf(s.regs)
    &&& all_wf(s.stack)
    &&& all_wf(s.heap)
    &&& all_wf(s.mailbox)
    &&& forall|i: int| 0 <= i < s.outbox.len() ==> (#[trigger] s.outbox[i]).1.wf()
}

proof fn lemma_with_reg_wf(s: ActorView, r: Reg, v: ValueView)
    requires
        actor_wf(s),
        v.wf(),
    ensures
        actor_wf(with_reg(s, r, v)),
{
    let regs = with_reg(s, r, v).regs;
    assert forall|i: int| 0 <= i < regs.len() implies (#[trigger] regs[i]).wf() by {
        if i != r.spec_slot() {
            assert(regs[i] == s.regs[i]);
        }
    }
}

proof fn lemma_placeholders_wf(n: nat)
    ensures
        ValueView::List(placeholders(n)).wf(),
        ValueView::Tuple(placeholders(n)).wf(),
{
    let l = placeholders(n);
    assert forall|i: int| 0 <= i < l.len() implies (#[trigger] l[i]).wf() by {
        assert(l[i] == ValueView::Ref(0));
    }
}

proof fn lemma_construct_keeps_wf(s: ActorView, inst: Inst)
    requires
        actor_wf(s),
        inst is LoadInt || inst is LoadFloat || inst is LoadBool || inst is LoadRef
            || inst is LoadString || inst is LoadAtom || inst is MakeList || inst is MakeTuple
            || inst is MakeMap || inst is Move || inst is Jump || inst is JumpIfTrue,
    ensures
        actor_wf(execute(s, inst).0),
{
    match inst {
        Inst::LoadInt(r, v) => lemma_with_reg_wf(s, r, ValueView::Int(v)),
        Inst::LoadFloat(r, v) => lemma_with_reg_wf(s, r, ValueView::Float(v)),
        Inst::LoadBool(r, v) => lemma_with_reg_wf(s, r, ValueView::Bool(v)),
        Inst::LoadRef(r, v) => lemma_with_reg_wf(s, r, ValueView::Ref(v)),
        Inst::LoadString(r, t) => lemma_with_reg_wf(s, r, ValueView::Str(t@)),
        Inst::LoadAtom(r, t) => lemma_with_reg_wf(s, r, ValueView::Atom(t@)),
        Inst::MakeList(r, n) => {
            lemma_placeholders_wf(n as nat);
            lemma_with_reg_wf(s, r, ValueView::List(placeholders(n as nat)));
        },
        Inst::MakeTuple(r, n) => {
            lemma_placeholders_wf(n as nat);
            lemma_with_reg_wf(s, r, ValueView::Tuple(placeholders(n as nat)));
        },
        Inst::MakeMap(r) => lemma_with_reg_wf(s, r, ValueView::Mapping(Seq::empty())),
        Inst::Move(a, b) => {
            assert(reg_value(s, a).wf());
            lemma_with_reg_wf(s, b, reg_value(s, a));
        },
        Inst::Jump(addr) => lemma_with_reg_wf(s, Reg::PC, ValueView::Ref(addr)),
        Inst::JumpIfTrue(addr) => lemma_with_reg_wf(s, Reg::PC, ValueView::Ref(addr)),
        _ => {},
    }
}

proof fn lemma_indexed_keeps_wf(s: ActorView, inst: Inst)
    requires
        actor_wf(s),
        inst is SetIndexed || inst is GetIndexed,
    ensures
        actor_wf(execute(s, inst).0),
{
    match inst {
        Inst::SetIndexed(c, i, v) => {
            match (reg_value(s, c), reg_value(s, i)) {
                (ValueView::List(l), ValueView::Int(k)) => {
                    if 0 <= k < l.len() {
                        let v2 = reg_value(s, v);
                        assert(reg_value(s, c).wf());
                        assert(v2.wf());
                        let l2 = l.update(k as int, v2);
                        assert forall|j: int| 0 <= j < l2.len() implies (#[trigger] l2[j]).wf() by {
                            if j != k {
                                assert(l2[j] == l[j]);
                            }
                        }
                        assert(ValueView::List(l2).wf());
                        lemma_with_reg_wf(s, c, ValueView::List(l2));
                    }
                },
                _ => {},
            }
        },
        Inst::GetIndexed(c, i, d) => {
            match (reg_value(s, c), reg_value(s, i)) {
                (ValueView::List(l), ValueView::Int(k)) => {
                    if 0 <= k < l.len() {
                        assert(reg_value(s, c).wf());
                        assert(l[k as int].wf());
                        lemma_with_reg_wf(s, d, l[k as int]);
                    }
                },
                _ => {},
            }
        },
        _ => {},
    }
}

proof fn lemma_arith_keeps_wf(s: ActorView, inst: Inst)
    requires
        actor_wf(s),
        inst is Add || inst is Sub || inst is Mul || inst is Div || inst is Mod || inst is Eq
            || inst is Ne || inst is Gt || inst is Lt || inst is Gte || inst is Lte,
    ensures
        actor_wf(execute(s, inst).0),
{
    match inst {
        Inst::Add(a, b, d) | Inst::Sub(a, b, d) | Inst::Mul(a, b, d) | Inst::Div(a, b, d)
        | Inst::Mod(a, b, d) => {
            match (reg_value(s, a), reg_value(s, b)) {
                (ValueView::Int(x), ValueView::Int(y)) => {
                    let op = match inst {
                        Inst::Add(..) => ArithOp::Add,
                        Inst::Sub(..) => ArithOp::Sub,
                        Inst::Mul(..) => ArithOp::Mul,
                        Inst::Div(..) => ArithOp::Div,
                        _ => ArithOp::Mod,
                    };
                    if let Ok(z) = int_arith(op, x, y) {
                        lemma_with_reg_wf(s, d, ValueView::Int(z));
                    }
                },
                _ => {},
            }
        },
        _ => {
            lemma_with_reg_wf(s, Reg::ZF, ValueView::Bool(true));
            lemma_with_reg_wf(s, Reg::ZF, ValueView::Bool(false));
        },
    }
}

proof fn lemma_memory_keeps_wf(s: ActorView, inst: Inst)
    requires
        actor_wf(s),
        inst is StoreHeap || inst is LoadHeap || inst is Push || inst is Pop || inst is Send
            || inst is Recv || inst is Halt,
    ensures
        actor_wf(execute(s, inst).0),
{
    match inst {
        Inst::StoreHeap(r, addr) => {
            if addr < s.heap.len() {
                let h = s.heap.update(addr as int, reg_value(s, r));
                assert(reg_value(s, r).wf());
                assert forall|j: int| 0 <= j < h.len() implies (#[trigger] h[j]).wf() by {
                    if j != addr {
                        assert(h[j] == s.heap[j]);
                    }
                }
            }
        },
        Inst::LoadHeap(addr, r) => {
            if addr < s.heap.len() {
                assert(s.heap[addr as int].wf());
                lemma_with_reg_wf(s, r, s.heap[addr as int]);
            }
        },
        Inst::Push(r) => {
            assert(reg_value(s, r).wf());
            let st = s.stack.push(reg_value(s, r));
            assert forall|j: int| 0 <= j < st.len() implies (#[trigger] st[j]).wf() by {
                if j < s.stack.len() {
                    assert(st[j] == s.stack[j]);
                }
            }
            lemma_with_reg_wf(ActorView { stack: st, ..s }, r, ValueView::Ref(0));
        },
        Inst::Pop(r) => {
            if s.stack.len() > 0 {
                assert(s.stack[s.stack.len() - 1].wf());
                let st = s.stack.drop_last();
                assert forall|j: int| 0 <= j < st.len() implies (#[trigger] st[j]).wf() by {
                    assert(st[j] == s.stack[j]);
                }
                lemma_with_reg_wf(ActorView { stack: st, ..s }, r, s.stack.last());
            }
        },
        Inst::Send(t, v) => {
            if let ValueView::Ref(to) = reg_value(s, t) {
                let s2 = execute(s, inst).0;
                assert(reg_value(s, v).wf());
                assert forall|i: int| 0 <= i < s2.outbox.len() implies (#[trigger] s2.outbox[i]).1.wf() by {
                    if i < s.outbox.len() {
                        assert(s2.outbox[i] == s.outbox[i]);
                    }
                }
            }
        },
        Inst::Recv(r) => lemma_receive_keeps_wf(s, r),
        _ => {},
    }
}

proof fn lemma_receive_keeps_wf(s: ActorView, r: Reg)
    requires
        actor_wf(s),
    ensures
        actor_wf(receive(s, r).0),
{
    if s.mailbox.len() > 0 {
        assert(s.mailbox[0].wf());
        let m = s.mailbox.drop_first();
        assert forall|j: int| 0 <= j < m.len() implies (#[trigger] m[j]).wf() by {
            assert(m[j] == s.mailbox[j + 1]);
        }
        lemma_with_reg_wf(ActorView { mailbox: m, ..s }, r, s.mailbox[0]);
    }
}

proof fn lemma_execute_keeps_wf(s: ActorView, inst: Inst)
    requires
        actor_wf(s),
    ensures
        actor_wf(execute(s, inst).0),
{
    match inst {
        Inst::SetIndexed(..) | Inst::GetIndexed(..) => lemma_indexed_keeps_wf(s, inst),
        Inst::StoreHeap(..) | Inst::LoadHeap(..) | Inst::Push(..) | Inst::Pop(..) | Inst::Send(..)
        | Inst::Recv(..) | Inst::Halt => lemma_memory_keeps_wf(s, inst),
        Inst::Add(..) | Inst::Sub(..) | Inst::Mul(..) | Inst::Div(..) | Inst::Mod(..) | Inst::Eq(..)
        | Inst::Ne(..) | Inst::Gt(..) | Inst::Lt(..) | Inst::Gte(..) | Inst::Lte(..) => {
            lemma_arith_keeps_wf(s, inst)
        },
        _ => lemma_construct_keeps_wf(s, inst),
    }
}

/// Ticking keeps every value an actor holds well formed: no instruction
/// makes a map with a repeated key out of well-formed values.
pub proof fn lemma_step_keeps_wf(s: ActorView)
    requires
        actor_wf(s),
    ensures
        actor_wf(step(s).0),
{
    match s.state {
        RunState::Running => match reg_value(s, Reg::PC) {
            ValueView::Ref(pc) => {
                if pc < s.program.len() {
                    let s1 = with_reg(s, Reg::PC, ValueView::Ref((pc + 1) as usize));
                    lemma_execute_keeps_wf(s1, s.program[pc as int]);
                }
            },
            _ => {},
        },
        RunState::Suspended(r) => {
            lemma_receive_keeps_wf(s, r);
        },
        _ => {},
    }
}

/// A fresh actor is well formed, and stays so when well-formed values are
/// posted to it.
pub proof fn lemma_initial_and_posted_wf(program: Seq<Inst>, heap_size: nat, s: ActorView, v: ValueView)
    requires
        actor_wf(s),
        v.wf(),
    ensures
        actor_wf(initial_actor(program, heap_size)),
        actor_wf(posted(s, v)),
{
}

/// An actor and the machine that runs its program.
pub struct ActorVm {
    registers: Registers,
    stack: Vec<Value>,
    heap: Vec<Value>,
    mailbox: Mailbox,
    outbox: Vec<Message>,
    program: Vec<Inst>,
    state: RunState,
}

/// The model of a list of sent messages.
pub open spec fn outbox_view(m: Seq<Message>) -> Seq<(usize, ValueView)> {
    m.map_values(|x: Message| (x.to, x.value@))
}

impl View for ActorVm {
    type V = ActorView;

    closed spec fn view(&self) -> ActorView {
        ActorView {
            regs: self.registers@,
            stack: views(self.stack@),
            heap: views(self.heap@),
            mailbox: self.mailbox@,
            outbox: outbox_view(self.outbox@),
            program: self.program@,
            state: self.state,
        }
    }
}

/// A vector of `n` values `Ref(0)`.
fn make_placeholders(n: usize) -> (r: Vec<Value>)
    ensures
        views(r@) == placeholders(n as nat),
{
    let mut out: Vec<Value> = Vec::with_capacity(n);
    let mut i: usize = 0;
    while i < n
        invariant
            i <= n,
            out@.len() == i,
            forall|j: int| 0 <= j < i ==> (#[trigger] out@[j])@ == ValueView::Ref(0),
        decreases n - i,
    {
        out.push(Value::Ref(0));
        i += 1;
    }
    proof {
        lemma_views(out@);
        assert(views(out@) =~= placeholders(n as nat));
    }
    out
}

impl ActorVm {
    /// A running actor with the given program and a heap of
    /// `DEFAULT_HEAP_SIZE` slots.
    pub fn new(program: Vec<Inst>) -> (r: ActorVm)
        ensures
            r@ == initial_actor(program@, DEFAULT_HEAP_SIZE as nat),
    {
        ActorVm::with_heap_size(program, DEFAULT_HEAP_SIZE)
    }

    /// A running actor with the given program and a heap of `heap_size`
    /// slots, each holding `Ref(0)`.
    pub fn with_heap_size(program: Vec<Inst>, heap_size: usize) -> (r: ActorVm)
        ensures
            r@ == initial_actor(program@, heap_size as nat),
    {
        let r = ActorVm {
            registers: Registers::new(),
            stack: Vec::new(),
            heap: make_placeholders(heap_size),
            mailbox: Mailbox::new(),
            outbox: Vec::new(),
            program,
            state: RunState::Running,
        };
        proof {
            assert(views(r.stack@) =~= Seq::<ValueView>::empty());
            assert(outbox_view(r.outbox@) =~= Seq::<(usize, ValueView)>::empty());
        }
        r
    }

    /// Where the actor is in its life.
    pub fn state(&self) -> (r: RunState)
        ensures
            r == self@.state,
    {
        self.state
    }

    /// A copy of a register's value.
    pub fn get_reg(&self, reg: Reg) -> (r: Value)
        ensures
            r@ == reg_value(self@, reg),
    {
        self.registers.get(reg)
    }

    /// Replaces a register's value. The driver writes the result of a
    /// floating-point request this way.
    pub fn set_reg(&mut self, reg: Reg, value: Value)
        ensures
            final(self)@ == with_reg(old(self)@, reg, value@),
    {
        self.registers.set(reg, value);
    }

    /// The program counter, or `None` where `PC` does not hold a `Ref`.
    pub fn pc(&self) -> (r: Option<usize>)
        ensures
            r == match reg_value(self@, Reg::PC) {
                ValueView::Ref(p) => Some(p),
                _ => None::<usize>,
            },
    {
        self.registers.pc()
    }

    /// Points `PC` at an instruction.
    pub fn set_pc(&mut self, pc: usize)
        ensures
            final(self)@ == with_reg(old(self)@, Reg::PC, ValueView::Ref(pc)),
    {
        self.registers.set(Reg::PC, Value::Ref(pc));
    }

    /// Puts a message at the back of the actor's mailbox.
    pub fn post(&mut self, value: Value)
        ensures
            final(self)@ == posted(old(self)@, value@),
    {
        self.mailbox.post(value);
    }

    /// The messages the actor has sent since the last call, oldest first;
    /// the actor keeps none of them.
    pub fn take_outbox(&mut self) -> (r: Vec<Message>)
        ensures
            outbox_view(r@) == old(self)@.outbox,
            final(self)@ == (ActorView { outbox: Seq::empty(), ..old(self)@ }),
    {
        let mut out: Vec<Message> = Vec::new();
        std::mem::swap(&mut out, &mut self.outbox);
        proof {
            assert(outbox_view(self.outbox@) =~= Seq::<(usize, ValueView)>::empty());
        }
        out
    }

    /// Each register's name and a copy of its value, in register-file order.
    pub fn dump_registers(&self) -> (r: Vec<(Reg, Value)>)
        ensures
            r@.len() == REG_COUNT,
            forall|i: int|
                0 <= i < REG_COUNT ==> (#[trigger] r@[i]).0.spec_slot() == i && r@[i].1@
                    == self@.regs[i],
    {
        proof {
            lemma_register_count(&self.registers);
        }
        let mut out: Vec<(Reg, Value)> = Vec::with_capacity(REG_COUNT);
        let mut i: usize = 0;
        while i < REG_COUNT
            invariant
                i <= REG_COUNT,
                out@.len() == i,
                forall|j: int|
                    0 <= j < i ==> (#[trigger] out@[j]).0.spec_slot() == j && out@[j].1@
                        == self@.regs[j],
            decreases REG_COUNT - i,
        {
            let r = Reg::from_slot(i);
            out.push((r, self.registers.get(r)));
            i += 1;
        }
        out
    }

    fn fail(&mut self, e: Fault) -> (r: Tick)
        ensures
            (final(self)@, r) == fail(old(self)@, e),
    {
        self.state = RunState::Failed(e);
        Tick::Failed(e)
    }

    fn receive(&mut self, r: Reg) -> (t: Tick)
        ensures
            (final(self)@, t) == receive(old(self)@, r),
    {
        match self.mailbox.take() {
            Some(v) => {
                self.registers.set(r, v);
                self.state = RunState::Running;
                Tick::Running
            },
            None => {
                self.state = RunState::Suspended(r);
                Tick::Suspended
            },
        }
    }

    fn exec_arith(&mut self, op: ArithOp, a: Reg, b: Reg, d: Reg) -> (t: Tick)
        ensures
            (final(self)@, t) == arith(old(self)@, op, a, b, d),
    {
        let x = self.registers.get(a);
        let y = self.registers.get(b);
        match (x, y) {
            (Value::Int(x), Value::Int(y)) => match int_arith_exec(op, x, y) {
                Ok(z) => {
                    self.registers.set(d, Value::Int(z));
                    Tick::Running
                },
                Err(e) => self.fail(e),
            },
            (Value::Float(x), Value::Float(y)) => Tick::Float(
                FloatRequest { op: FloatOp::Arith(op), lhs: x, rhs: y, dest: d },
            ),
            _ => Tick::Running,
        }
    }

    fn exec_compare(&mut self, op: CmpOp, a: Reg, b: Reg) -> (t: Tick)
        ensures
            (final(self)@, t) == compare(old(self)@, op, a, b),
    {
        let x = self.registers.get(a);
        let y = self.registers.get(b);
        match (x, y) {
            (Value::Int(x), Value::Int(y)) => {
                self.registers.set(Reg::ZF, Value::Bool(int_compare_exec(op, x, y)));
                Tick::Running
            },
            (Value::Float(x), Value::Float(y)) => Tick::Float(
                FloatRequest { op: FloatOp::Compare(op), lhs: x, rhs: y, dest: Reg::ZF },
            ),
            (Value::String(x), Value::String(y)) => match op {
                CmpOp::Eq => {
                    self.registers.set(Reg::ZF, Value::Bool(x == y));
                    Tick::Running
                },
                CmpOp::Ne => {
                    self.registers.set(Reg::ZF, Value::Bool(x != y));
                    Tick::Running
                },
                _ => self.fail(Fault::InvalidComparison),
            },
            _ => match op {
                CmpOp::Eq | CmpOp::Ne => Tick::Running,
                _ => self.fail(Fault::InvalidComparison),
            },
        }
    }

    fn exec_set_indexed(&mut self, c: Reg, i: Reg, v: Reg) -> (t: Tick)
        ensures
            (final(self)@, t) == set_indexed(old(self)@, c, i, v),
    {
        let container = self.registers.get(c);
        let index = self.registers.get(i);
        match (container, index) {
            (Value::List(mut l), Value::Int(k)) => {
                proof {
                    lemma_views(l@);
                }
                if k >= 0 && (k as u64) < (l.len() as u64) {
                    let value = self.registers.get(v);
                    proof {
                        lemma_views_update(l@, k as int, value);
                    }
                    l[k as usize] = value;
                    self.registers.set(c, Value::List(l));
                    Tick::Running
                } else {
                    self.fail(Fault::IndexOutOfBounds)
                }
            },
            _ => self.fail(Fault::TypeMismatch),
        }
    }

    fn exec_get_indexed(&mut self, c: Reg, i: Reg, d: Reg) -> (t: Tick)
        ensures
            (final(self)@, t) == get_indexed(old(self)@, c, i, d),
    {
        let container = self.registers.get(c);
        let index = self.registers.get(i);
        match (container, index) {
            (Value::List(l), Value::Int(k)) => {
                proof {
                    lemma_views(l@);
                }
                if k >= 0 && (k as u64) < (l.len() as u64) {
                    let value = l[k as usize].clone();
                    self.registers.set(d, value);
                    Tick::Running
                } else {
                    self.fail(Fault::IndexOutOfBounds)
                }
            },
            _ => self.fail(Fault::TypeMismatch),
        }
    }

    fn exec_load(&mut self, r: Reg, value: Value) -> (t: Tick)
        ensures
            (final(self)@, t) == proceed(with_reg(old(self)@, r, value@)),
    {
        self.registers.set(r, value);
        Tick::Running
    }

    fn exec_heap(&mut self, inst: Inst) -> (t: Tick)
        requires
            inst is StoreHeap || inst is LoadHeap,
        ensures
            (final(self)@, t) == execute(old(self)@, inst),
    {
        proof {
            lemma_views(self.heap@);
        }
        match inst {
            Inst::StoreHeap(r, addr) => {
                if addr < self.heap.len() {
                    let value = self.registers.get(r);
                    proof {
                        lemma_views_update(self.heap@, addr as int, value);
                    }
                    self.heap[addr] = value;
                    Tick::Running
                } else {
                    self.fail(Fault::HeapOutOfBounds)
                }
            },
            Inst::LoadHeap(addr, r) => {
                if addr < self.heap.len() {
                    let value = self.heap[addr].clone();
                    self.registers.set(r, value);
                    Tick::Running
                } else {
                    self.fail(Fault::HeapOutOfBounds)
                }
            },
            _ => Tick::Running,
        }
    }

    fn exec_stack(&mut self, inst: Inst) -> (t: Tick)
        requires
            inst is Push || inst is Pop,
        ensures
            (final(self)@, t) == execute(old(self)@, inst),
    {
        match inst {
            Inst::Push(r) => {
                let value = self.registers.get(r);
                proof {
                    lemma_views_push(self.stack@, value);
                }
                self.stack.push(value);
                self.registers.set(r, Value::Ref(0));
                Tick::Running
            },
            Inst::Pop(r) => {
                proof {
                    lemma_views(self.stack@);
                    if self.stack@.len() > 0 {
                        lemma_views_subrange(self.stack@, 0, self.stack@.len() - 1);
                    }
                }
                match self.stack.pop() {
                    Some(value) => {
                        self.registers.set(r, value);
                        Tick::Running
                    },
                    None => self.fail(Fault::StackUnderflow),
                }
            },
            _ => Tick::Running,
        }
    }

    fn exec_send(&mut self, t: Reg, v: Reg) -> (r: Tick)
        ensures
            (final(self)@, r) == execute(old(self)@, Inst::Send(t, v)),
    {
        match self.registers.get(t) {
            Value::Ref(to) => {
                let value = self.registers.get(v);
                let ghost before = self.outbox@;
                self.outbox.push(Message { to, value });
                proof {
                    assert(outbox_view(self.outbox@) =~= outbox_view(before).push((to, value@)));
                }
                Tick::Running
            },
            _ => self.fail(Fault::TypeMismatch),
        }
    }

    /// The literal loads and the container constructors.
    fn exec_construct(&mut self, inst: Inst) -> (t: Tick)
        requires
            inst is LoadInt || inst is LoadFloat || inst is LoadBool || inst is LoadRef
                || inst is LoadString || inst is LoadAtom || inst is MakeList || inst is MakeTuple
                || inst is MakeMap,
        ensures
            (final(self)@, t) == execute(old(self)@, inst),
    {
        match inst {
            Inst::LoadInt(r, v) => self.exec_load(r, Value::Int(v)),
            Inst::LoadFloat(r, v) => self.exec_load(r, Value::Float(v)),
            Inst::LoadBool(r, v) => self.exec_load(r, Value::Bool(v)),
            Inst::LoadRef(r, v) => self.exec_load(r, Value::Ref(v)),
            Inst::LoadString(r, t) => self.exec_load(r, Value::String(t)),
            Inst::LoadAtom(r, t) => self.exec_load(r, Value::Atom(t)),
            Inst::MakeList(r, n) => self.exec_load(r, Value::List(make_placeholders(n))),
            Inst::MakeTuple(r, n) => self.exec_load(r, Value::Tuple(make_placeholders(n))),
            Inst::MakeMap(r) => {
                let entries: Vec<(Value, Value)> = Vec::new();
                proof {
                    lemma_entry_views(entries@);
                    assert(entry_views(entries@) =~= Seq::<(ValueView, ValueView)>::empty());
                }
                self.exec_load(r, Value::Mapping(entries))
            },
            _ => Tick::Running,
        }
    }

    fn exec_indexed(&mut self, inst: Inst) -> (t: Tick)
        requires
            inst is SetIndexed || inst is GetIndexed,
        ensures
            (final(self)@, t) == execute(old(self)@, inst),
    {
        match inst {
            Inst::SetIndexed(c, i, v) => self.exec_set_indexed(c, i, v),
            Inst::GetIndexed(c, i, d) => self.exec_get_indexed(c, i, d),
            _ => Tick::Running,
        }
    }

    /// The arithmetic instructions.
    fn exec_arith_inst(&mut self, inst: Inst) -> (t: Tick)
        requires
            inst is Add || inst is Sub || inst is Mul || inst is Div || inst is Mod,
        ensures
            (final(self)@, t) == execute(old(self)@, inst),
    {
        match inst {
            Inst::Add(a, b, d) => self.exec_arith(ArithOp::Add, a, b, d),
            Inst::Sub(a, b, d) => self.exec_arith(ArithOp::Sub, a, b, d),
            Inst::Mul(a, b, d) => self.exec_arith(ArithOp::Mul, a, b, d),
            Inst::Div(a, b, d) => self.exec_arith(ArithOp::Div, a, b, d),
            Inst::Mod(a, b, d) => self.exec_arith(ArithOp::Mod, a, b, d),
            _ => Tick::Running,
        }
    }

    /// The comparison instructions.
    fn exec_compare_inst(&mut self, inst: Inst) -> (t: Tick)
        requires
            inst is Eq || inst is Ne || inst is Gt || inst is Lt || inst is Gte || inst is Lte,
        ensures
            (final(self)@, t) == execute(old(self)@, inst),
    {
        match inst {
            Inst::Eq(a, b) => self.exec_compare(CmpOp::Eq, a, b),
            Inst::Ne(a, b) => self.exec_compare(CmpOp::Ne, a, b),
            Inst::Gt(a, b) => self.exec_compare(CmpOp::Gt, a, b),
            Inst::Lt(a, b) => self.exec_compare(CmpOp::Lt, a, b),
            Inst::Gte(a, b) => self.exec_compare(CmpOp::Gte, a, b),
            Inst::Lte(a, b) => self.exec_compare(CmpOp::Lte, a, b),
            _ => Tick::Running,
        }
    }

    /// Moves, jumps, messaging and halting.
    fn exec_control(&mut self, inst: Inst) -> (t: Tick)
        requires
            inst is Move || inst is Send || inst is Recv || inst is Jump || inst is JumpIfTrue
                || inst is Halt,
        ensures
            (final(self)@, t) == execute(old(self)@, inst),
    {
        match inst {
            Inst::Move(a, b) => {
                let value = self.registers.get(a);
                self.exec_load(b, value)
            },
            Inst::Send(t, v) => self.exec_send(t, v),
            Inst::Recv(r) => self.receive(r),
            Inst::Jump(addr) => self.exec_load(Reg::PC, Value::Ref(addr)),
            Inst::JumpIfTrue(addr) => match self.registers.get(Reg::ZF) {
                Value::Bool(true) => self.exec_load(Reg::PC, Value::Ref(addr)),
                _ => Tick::Running,
            },
            Inst::Halt => {
                self.state = RunState::Halted;
                Tick::Halted
            },
            _ => Tick::Running,
        }
    }

    fn execute(&mut self, inst: Inst) -> (t: Tick)
        ensures
            (final(self)@, t) == execute(old(self)@, inst),
    {
        match inst {
            Inst::LoadInt(..) | Inst::LoadFloat(..) | Inst::LoadBool(..) | Inst::LoadRef(..)
            | Inst::LoadString(..) | Inst::LoadAtom(..) | Inst::MakeList(..) | Inst::MakeTuple(..)
            | Inst::MakeMap(..) => self.exec_construct(inst),
            Inst::SetIndexed(..) | Inst::GetIndexed(..) => self.exec_indexed(inst),
            Inst::StoreHeap(..) | Inst::LoadHeap(..) => self.exec_heap(inst),
            Inst::Push(..) | Inst::Pop(..) => self.exec_stack(inst),
            Inst::Add(..) | Inst::Sub(..) | Inst::Mul(..) | Inst::Div(..) | Inst::Mod(..) => {
                self.exec_arith_inst(inst)
            },
            Inst::Eq(..) | Inst::Ne(..) | Inst::Gt(..) | Inst::Lt(..) | Inst::Gte(..) | Inst::Lte(
                ..,
            ) => self.exec_compare_inst(inst),
            Inst::Move(..) | Inst::Send(..) | Inst::Recv(..) | Inst::Jump(..) | Inst::JumpIfTrue(..)
            | Inst::Halt => self.exec_control(inst),
        }
    }

    /// One fetch-execute step; see `step`.
    pub fn tick(&mut self) -> (t: Tick)
        ensures
            (final(self)@, t) == step(old(self)@),
    {
        match self.state {
            RunState::Halted => Tick::Halted,
            RunState::Failed(e) => Tick::Failed(e),
            RunState::Suspended(r) => self.receive(r),
            RunState::Running => match self.registers.pc() {
                None => self.fail(Fault::PcNotRef),
                Some(pc) => {
                    if pc >= self.program.len() {
                        self.fail(Fault::PcOutOfBounds)
                    } else {
                        let inst = self.program[pc].clone();
                        self.registers.set(Reg::PC, Value::Ref(pc + 1));
                        self.execute(inst)
                    }
                },
            },
        }
    }
}

} // verus!
