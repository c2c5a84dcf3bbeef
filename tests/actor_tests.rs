use actor_vm::actor::{ActorVm, RunState};
use actor_vm::inst::{ArithOp, CmpOp, Fault, FloatOp, FloatRequest, Inst, Reg, Tick};
use actor_vm::value::Value;

fn run(actor: &mut ActorVm, ticks: usize) -> Tick {
    let mut last = Tick::Running;
    for _ in 0..ticks {
        last = actor.tick();
    }
    last
}

#[test]
fn scenario_move_and_add() {
    let mut a = ActorVm::new(vec![
        Inst::LoadInt(Reg::R1, 123),
        Inst::Move(Reg::R1, Reg::R0),
        Inst::Add(Reg::R0, Reg::R1, Reg::R2),
        Inst::Halt,
    ]);
    assert_eq!(run(&mut a, 4), Tick::Halted);
    assert!(a.get_reg(Reg::R0) == Value::Int(123));
    assert!(a.get_reg(Reg::R1) == Value::Int(123));
    assert!(a.get_reg(Reg::R2) == Value::Int(246));
    assert_eq!(a.state(), RunState::Halted);
}

#[test]
fn scenario_list_set_and_get() {
    let mut a = ActorVm::new(vec![
        Inst::MakeList(Reg::R2, 10),
        Inst::LoadInt(Reg::R0, 1),
        Inst::LoadInt(Reg::R1, 5),
        Inst::SetIndexed(Reg::R2, Reg::R0, Reg::R1),
        Inst::GetIndexed(Reg::R2, Reg::R0, Reg::R3),
        Inst::Halt,
    ]);
    assert_eq!(run(&mut a, 6), Tick::Halted);
    assert!(a.get_reg(Reg::R3) == Value::Int(5));
    match a.get_reg(Reg::R2) {
        Value::List(l) => {
            assert_eq!(l.len(), 10);
            assert!(l[1] == Value::Int(5));
            assert!(l[9] == Value::Ref(0));
        }
        _ => panic!("R2 is not a list"),
    }
}

#[test]
fn scenario_jump_not_taken() {
    let mut a = ActorVm::new(vec![
        Inst::LoadInt(Reg::R0, 0),
        Inst::LoadInt(Reg::R1, 1),
        Inst::Eq(Reg::R0, Reg::R1),
        Inst::JumpIfTrue(5),
        Inst::LoadInt(Reg::R2, 1),
        Inst::Halt,
    ]);
    assert_eq!(run(&mut a, 6), Tick::Halted);
    assert!(a.get_reg(Reg::ZF) == Value::Bool(false));
    assert!(a.get_reg(Reg::R2) == Value::Int(1));
}

#[test]
fn jump_taken_when_flag_set() {
    let mut a = ActorVm::new(vec![
        Inst::LoadInt(Reg::R0, 1),
        Inst::LoadInt(Reg::R1, 1),
        Inst::Eq(Reg::R0, Reg::R1),
        Inst::JumpIfTrue(5),
        Inst::LoadInt(Reg::R2, 1),
        Inst::Halt,
    ]);
    assert_eq!(run(&mut a, 5), Tick::Halted);
    assert!(a.get_reg(Reg::R2) == Value::Ref(0));
}

#[test]
fn recv_suspends_until_post() {
    let mut a = ActorVm::new(vec![Inst::Recv(Reg::R1), Inst::Halt]);
    assert_eq!(a.tick(), Tick::Suspended);
    assert_eq!(a.state(), RunState::Suspended(Reg::R1));
    assert_eq!(a.tick(), Tick::Suspended);
    a.post(Value::Int(42));
    assert_eq!(a.tick(), Tick::Running);
    assert!(a.get_reg(Reg::R1) == Value::Int(42));
    assert_eq!(a.tick(), Tick::Halted);
}

#[test]
fn recv_takes_messages_in_order() {
    let mut a = ActorVm::new(vec![Inst::Recv(Reg::R0), Inst::Recv(Reg::R1), Inst::Recv(Reg::R2)]);
    a.post(Value::Int(1));
    a.post(Value::Int(2));
    assert_eq!(run(&mut a, 2), Tick::Running);
    assert!(a.get_reg(Reg::R0) == Value::Int(1));
    assert!(a.get_reg(Reg::R1) == Value::Int(2));
    assert_eq!(a.tick(), Tick::Suspended);
}

#[test]
fn halted_actor_ignores_ticks() {
    let mut a = ActorVm::new(vec![Inst::Halt, Inst::LoadInt(Reg::R0, 1)]);
    assert_eq!(a.tick(), Tick::Halted);
    assert_eq!(a.tick(), Tick::Halted);
    assert!(a.get_reg(Reg::R0) == Value::Ref(0));
    assert_eq!(a.pc(), Some(1));
}

#[test]
fn fresh_registers() {
    let a = ActorVm::new(vec![Inst::Halt]);
    let dump = a.dump_registers();
    assert_eq!(dump.len(), 11);
    assert_eq!(dump[0].0, Reg::R0);
    assert_eq!(dump[8].0, Reg::PC);
    assert_eq!(dump[9].0, Reg::ZF);
    assert_eq!(dump[10].0, Reg::LR);
    for (r, v) in dump.iter() {
        if *r == Reg::ZF {
            assert!(*v == Value::Bool(false));
        } else {
            assert!(*v == Value::Ref(0));
        }
    }
}

#[test]
fn pc_out_of_bounds_fails() {
    let mut a = ActorVm::new(vec![Inst::Jump(7)]);
    assert_eq!(a.tick(), Tick::Running);
    assert_eq!(a.tick(), Tick::Failed(Fault::PcOutOfBounds));
    assert_eq!(a.state(), RunState::Failed(Fault::PcOutOfBounds));
    assert_eq!(a.tick(), Tick::Failed(Fault::PcOutOfBounds));
}

#[test]
fn running_off_the_end_fails() {
    let mut a = ActorVm::new(vec![Inst::LoadInt(Reg::R0, 1)]);
    assert_eq!(run(&mut a, 2), Tick::Failed(Fault::PcOutOfBounds));
}

#[test]
fn pc_not_ref_fails() {
    let mut a = ActorVm::new(vec![Inst::LoadInt(Reg::PC, 0), Inst::Halt]);
    assert_eq!(a.tick(), Tick::Running);
    assert_eq!(a.pc(), None);
    assert_eq!(a.tick(), Tick::Failed(Fault::PcNotRef));
}

#[test]
fn push_and_pop() {
    let mut a = ActorVm::new(vec![
        Inst::LoadInt(Reg::R0, 5),
        Inst::Push(Reg::R0),
        Inst::Pop(Reg::R3),
        Inst::Pop(Reg::R3),
    ]);
    assert_eq!(run(&mut a, 2), Tick::Running);
    assert!(a.get_reg(Reg::R0) == Value::Ref(0));
    assert_eq!(a.tick(), Tick::Running);
    assert!(a.get_reg(Reg::R3) == Value::Int(5));
    assert_eq!(a.tick(), Tick::Failed(Fault::StackUnderflow));
}

#[test]
fn heap_store_and_load() {
    let mut a = ActorVm::with_heap_size(
        vec![
            Inst::LoadString(Reg::R0, "hi".to_string()),
            Inst::StoreHeap(Reg::R0, 3),
            Inst::LoadHeap(3, Reg::R5),
            Inst::LoadHeap(2, Reg::R6),
            Inst::LoadHeap(4, Reg::R7),
        ],
        4,
    );
    assert_eq!(run(&mut a, 4), Tick::Running);
    assert!(a.get_reg(Reg::R5) == Value::String("hi".to_string()));
    assert!(a.get_reg(Reg::R6) == Value::Ref(0));
    assert_eq!(a.tick(), Tick::Failed(Fault::HeapOutOfBounds));
}

#[test]
fn store_past_heap_fails() {
    let mut a = ActorVm::new(vec![Inst::StoreHeap(Reg::R0, 1000)]);
    assert_eq!(a.tick(), Tick::Failed(Fault::HeapOutOfBounds));
}

#[test]
fn indexed_access_errors() {
    let mut a = ActorVm::new(vec![
        Inst::MakeList(Reg::R0, 2),
        Inst::LoadInt(Reg::R1, 2),
        Inst::GetIndexed(Reg::R0, Reg::R1, Reg::R2),
    ]);
    assert_eq!(run(&mut a, 3), Tick::Failed(Fault::IndexOutOfBounds));

    let mut b = ActorVm::new(vec![
        Inst::MakeTuple(Reg::R0, 2),
        Inst::LoadInt(Reg::R1, 0),
        Inst::SetIndexed(Reg::R0, Reg::R1, Reg::R1),
    ]);
    assert_eq!(run(&mut b, 3), Tick::Failed(Fault::TypeMismatch));

    let mut c = ActorVm::new(vec![
        Inst::MakeList(Reg::R0, 2),
        Inst::LoadBool(Reg::R1, true),
        Inst::SetIndexed(Reg::R0, Reg::R1, Reg::R1),
    ]);
    assert_eq!(run(&mut c, 3), Tick::Failed(Fault::TypeMismatch));

    let mut d = ActorVm::new(vec![
        Inst::MakeList(Reg::R0, 2),
        Inst::LoadInt(Reg::R1, -1),
        Inst::SetIndexed(Reg::R0, Reg::R1, Reg::R1),
    ]);
    assert_eq!(run(&mut d, 3), Tick::Failed(Fault::IndexOutOfBounds));
}

#[test]
fn make_containers() {
    let mut a = ActorVm::new(vec![
        Inst::MakeTuple(Reg::R0, 3),
        Inst::MakeList(Reg::R1, 0),
        Inst::MakeMap(Reg::R2),
        Inst::LoadAtom(Reg::R3, "ok".to_string()),
        Inst::LoadFloat(Reg::R4, 2.5f64.to_bits()),
        Inst::LoadRef(Reg::R5, 4),
    ]);
    assert_eq!(run(&mut a, 6), Tick::Running);
    assert!(a.get_reg(Reg::R0) == Value::Tuple(vec![Value::Ref(0), Value::Ref(0), Value::Ref(0)]));
    assert!(a.get_reg(Reg::R1) == Value::List(vec![]));
    assert!(a.get_reg(Reg::R2) == Value::Mapping(vec![]));
    assert!(a.get_reg(Reg::R3) == Value::Atom("ok".to_string()));
    assert!(a.get_reg(Reg::R4) == Value::Float(2.5f64.to_bits()));
    assert!(a.get_reg(Reg::R5) == Value::Ref(4));
}

#[test]
fn arithmetic_on_mixed_tags_is_ignored() {
    let mut a = ActorVm::new(vec![
        Inst::LoadInt(Reg::R0, 1),
        Inst::LoadBool(Reg::R1, true),
        Inst::LoadInt(Reg::R2, 9),
        Inst::Sub(Reg::R0, Reg::R1, Reg::R2),
    ]);
    assert_eq!(run(&mut a, 4), Tick::Running);
    assert!(a.get_reg(Reg::R2) == Value::Int(9));
}

#[test]
fn integer_division_by_zero_fails() {
    let mut a = ActorVm::new(vec![
        Inst::LoadInt(Reg::R0, 1),
        Inst::LoadInt(Reg::R1, 0),
        Inst::Div(Reg::R0, Reg::R1, Reg::R2),
    ]);
    assert_eq!(run(&mut a, 3), Tick::Failed(Fault::DivisionByZero));
    let mut b = ActorVm::new(vec![
        Inst::LoadInt(Reg::R0, 1),
        Inst::LoadInt(Reg::R1, 0),
        Inst::Mod(Reg::R0, Reg::R1, Reg::R2),
    ]);
    assert_eq!(run(&mut b, 3), Tick::Failed(Fault::DivisionByZero));
}

#[test]
fn div_then_mul_in_program() {
    let mut a = ActorVm::new(vec![
        Inst::LoadInt(Reg::R0, -7),
        Inst::LoadInt(Reg::R1, 2),
        Inst::Div(Reg::R0, Reg::R1, Reg::R2),
        Inst::Mul(Reg::R2, Reg::R1, Reg::R3),
        Inst::Mod(Reg::R0, Reg::R1, Reg::R4),
        Inst::Halt,
    ]);
    assert_eq!(run(&mut a, 6), Tick::Halted);
    assert!(a.get_reg(Reg::R2) == Value::Int(-3));
    assert!(a.get_reg(Reg::R3) == Value::Int(-6));
    assert!(a.get_reg(Reg::R4) == Value::Int(-1));
}

#[test]
fn comparisons() {
    let mut a = ActorVm::new(vec![
        Inst::LoadString(Reg::R0, "x".to_string()),
        Inst::LoadString(Reg::R1, "y".to_string()),
        Inst::Ne(Reg::R0, Reg::R1),
        Inst::Eq(Reg::R0, Reg::R1),
        Inst::LoadInt(Reg::R2, 3),
        Inst::LoadInt(Reg::R3, 4),
        Inst::Lt(Reg::R2, Reg::R3),
        Inst::Gt(Reg::R0, Reg::R1),
    ]);
    assert_eq!(run(&mut a, 3), Tick::Running);
    assert!(a.get_reg(Reg::ZF) == Value::Bool(true));
    assert_eq!(a.tick(), Tick::Running);
    assert!(a.get_reg(Reg::ZF) == Value::Bool(false));
    assert_eq!(run(&mut a, 3), Tick::Running);
    assert!(a.get_reg(Reg::ZF) == Value::Bool(true));
    assert_eq!(a.tick(), Tick::Failed(Fault::InvalidComparison));
}

#[test]
fn equality_on_other_tags_leaves_flag() {
    let mut a = ActorVm::new(vec![
        Inst::LoadBool(Reg::ZF, true),
        Inst::LoadInt(Reg::R0, 1),
        Inst::LoadBool(Reg::R1, true),
        Inst::Ne(Reg::R0, Reg::R1),
        Inst::Lte(Reg::R0, Reg::R1),
    ]);
    assert_eq!(run(&mut a, 4), Tick::Running);
    assert!(a.get_reg(Reg::ZF) == Value::Bool(true));
    assert_eq!(a.tick(), Tick::Failed(Fault::InvalidComparison));
}

#[test]
fn float_work_goes_to_the_driver() {
    let mut a = ActorVm::new(vec![
        Inst::LoadFloat(Reg::R0, 1.5f64.to_bits()),
        Inst::LoadFloat(Reg::R1, 2.0f64.to_bits()),
        Inst::Mul(Reg::R0, Reg::R1, Reg::R2),
        Inst::Gte(Reg::R0, Reg::R1),
        Inst::Halt,
    ]);
    assert_eq!(run(&mut a, 2), Tick::Running);
    let t = a.tick();
    assert_eq!(
        t,
        Tick::Float(FloatRequest {
            op: FloatOp::Arith(ArithOp::Mul),
            lhs: 1.5f64.to_bits(),
            rhs: 2.0f64.to_bits(),
            dest: Reg::R2,
        })
    );
    a.set_reg(Reg::R2, Value::Float(3.0f64.to_bits()));
    let t = a.tick();
    assert_eq!(
        t,
        Tick::Float(FloatRequest {
            op: FloatOp::Compare(CmpOp::Gte),
            lhs: 1.5f64.to_bits(),
            rhs: 2.0f64.to_bits(),
            dest: Reg::ZF,
        })
    );
    assert_eq!(a.tick(), Tick::Halted);
    assert!(a.get_reg(Reg::R2) == Value::Float(3.0f64.to_bits()));
}

#[test]
fn send_fills_the_outbox() {
    let mut a = ActorVm::new(vec![
        Inst::LoadRef(Reg::R7, 3),
        Inst::LoadInt(Reg::R0, 42),
        Inst::Send(Reg::R7, Reg::R0),
        Inst::Send(Reg::R0, Reg::R0),
    ]);
    assert_eq!(run(&mut a, 3), Tick::Running);
    assert!(a.get_reg(Reg::R0) == Value::Int(42));
    let out = a.take_outbox();
    assert_eq!(out.len(), 1);
    assert_eq!(out[0].to, 3);
    assert!(out[0].value == Value::Int(42));
    assert!(a.take_outbox().is_empty());
    assert_eq!(a.tick(), Tick::Failed(Fault::TypeMismatch));
}

#[test]
fn set_pc_redirects() {
    let mut a = ActorVm::new(vec![Inst::LoadInt(Reg::R0, 1), Inst::Halt]);
    a.set_pc(1);
    assert_eq!(a.pc(), Some(1));
    assert_eq!(a.tick(), Tick::Halted);
    assert!(a.get_reg(Reg::R0) == Value::Ref(0));
}
