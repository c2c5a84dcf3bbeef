//! Register names, the instruction set, and the outcomes of a step.

use vstd::prelude::*;

verus! {

/// The register file's slots: eight general-purpose registers, the program
/// counter, the comparison flag and the link register.
#[derive(Debug, Clone, Copy, PartialEq, Eq, Structural)]
pub enum Reg {
    R0,
    R1,
    R2,
    R3,
    R4,
    R5,
    R6,
    R7,
    PC,
    ZF,
    LR,
}

/// Number of slots in a register file.
pub const REG_COUNT: usize = 11;

impl Reg {
    /// Position of the register in the register file.
    pub open spec fn spec_slot(self) -> int {
        match self {
            Reg::R0 => 0,
            Reg::R1 => 1,
            Reg::R2 => 2,
            Reg::R3 => 3,
            Reg::R4 => 4,
            Reg::R5 => 5,
            Reg::R6 => 6,
            Reg::R7 => 7,
            Reg::PC => 8,
            Reg::ZF => 9,
            Reg::LR => 10,
        }
    }

    pub fn slot(self) -> (r: usize)
        ensures
            r == self.spec_slot(),
            r < REG_COUNT,
    {
        match self {
            Reg::R0 => 0,
            Reg::R1 => 1,
            Reg::R2 => 2,
            Reg::R3 => 3,
            Reg::R4 => 4,
            Reg::R5 => 5,
            Reg::R6 => 6,
            Reg::R7 => 7,
            Reg::PC => 8,
            Reg::ZF => 9,
            Reg::LR => 10,
        }
    }

    /// The register at a given position of the register file.
    pub fn from_slot(i: usize) -> (r: Reg)
        requires
            i < REG_COUNT,
        ensures
            r.spec_slot() == i,
    {
        if i == 0 {
            Reg::R0
        } else if i == 1 {
            Reg::R1
        } else if i == 2 {
            Reg::R2
        } else if i == 3 {
            Reg::R3
        } else if i == 4 {
            Reg::R4
        } else if i == 5 {
            Reg::R5
        } else if i == 6 {
            Reg::R6
        } else if i == 7 {
            Reg::R7
        } else if i == 8 {
            Reg::PC
        } else if i == 9 {
            Reg::ZF
        } else {
            Reg::LR
        }
    }
}

/// The arithmetic operations.
#[derive(Debug, Clone, Copy, PartialEq, Eq, Structural)]
pub enum ArithOp {
    Add,
    Sub,
    Mul,
    Div,
    Mod,
}

/// The comparisons; their result goes to `ZF`.
#[derive(Debug, Clone, Copy, PartialEq, Eq, Structural)]
pub enum CmpOp {
    Eq,
    Ne,
    Gt,
    Lt,
    Gte,
    Lte,
}

impl CmpOp {
    /// `Eq` and `Ne` tolerate operands they cannot compare; the ordered
    /// comparisons do not.
    pub open spec fn is_equality(self) -> bool {
        self is Eq || self is Ne
    }
}

/// One instruction. Register operands come first, then an immediate.
#[derive(Debug)]
pub enum Inst {
    LoadInt(Reg, i64),
    /// The literal is the bit pattern of an IEEE-754 double.
    LoadFloat(Reg, u64),
    LoadBool(Reg, bool),
    LoadRef(Reg, usize),
    LoadString(Reg, String),
    LoadAtom(Reg, String),
    MakeList(Reg, usize),
    MakeTuple(Reg, usize),
    MakeMap(Reg),
    /// Container, index, value.
    SetIndexed(Reg, Reg, Reg),
    /// Container, index, destination.
    GetIndexed(Reg, Reg, Reg),
    /// Source, destination.
    Move(Reg, Reg),
    StoreHeap(Reg, usize),
    LoadHeap(usize, Reg),
    /// Target actor, value.
    Send(Reg, Reg),
    Recv(Reg),
    Add(Reg, Reg, Reg),
    Sub(Reg, Reg, Reg),
    Mul(Reg, Reg, Reg),
    Div(Reg, Reg, Reg),
    Mod(Reg, Reg, Reg),
    Jump(usize),
    JumpIfTrue(usize),
    Eq(Reg, Reg),
    Ne(Reg, Reg),
    Gt(Reg, Reg),
    Lt(Reg, Reg),
    Gte(Reg, Reg),
    Lte(Reg, Reg),
    Push(Reg),
    Pop(Reg),
    Halt,
}

impl Clone for Inst {
    fn clone(&self) -> (r: Inst)
        ensures
            r == *self,
    {
        match self {
            Inst::LoadInt(r, v) => Inst::LoadInt(*r, *v),
            Inst::LoadFloat(r, v) => Inst::LoadFloat(*r, *v),
            Inst::LoadBool(r, v) => Inst::LoadBool(*r, *v),
            Inst::LoadRef(r, v) => Inst::LoadRef(*r, *v),
            Inst::LoadString(r, s) => Inst::LoadString(*r, s.clone()),
            Inst::LoadAtom(r, s) => Inst::LoadAtom(*r, s.clone()),
            Inst::MakeList(r, n) => Inst::MakeList(*r, *n),
            Inst::MakeTuple(r, n) => Inst::MakeTuple(*r, *n),
            Inst::MakeMap(r) => Inst::MakeMap(*r),
            Inst::SetIndexed(a, b, c) => Inst::SetIndexed(*a, *b, *c),
            Inst::GetIndexed(a, b, c) => Inst::GetIndexed(*a, *b, *c),
            Inst::Move(a, b) => Inst::Move(*a, *b),
            Inst::StoreHeap(r, a) => Inst::StoreHeap(*r, *a),
            Inst::LoadHeap(a, r) => Inst::LoadHeap(*a, *r),
            Inst::Send(a, b) => Inst::Send(*a, *b),
            Inst::Recv(r) => Inst::Recv(*r),
            Inst::Add(a, b, c) => Inst::Add(*a, *b, *c),
            Inst::Sub(a, b, c) => Inst::Sub(*a, *b, *c),
            Inst::Mul(a, b, c) => Inst::Mul(*a, *b, *c),
            Inst::Div(a, b, c) => Inst::Div(*a, *b, *c),
            Inst::Mod(a, b, c) => Inst::Mod(*a, *b, *c),
            Inst::Jump(a) => Inst::Jump(*a),
            Inst::JumpIfTrue(a) => Inst::JumpIfTrue(*a),
            Inst::Eq(a, b) => Inst::Eq(*a, *b),
            Inst::Ne(a, b) => Inst::Ne(*a, *b),
            Inst::Gt(a, b) => Inst::Gt(*a, *b),
            Inst::Lt(a, b) => Inst::Lt(*a, *b),
            Inst::Gte(a, b) => Inst::Gte(*a, *b),
            Inst::Lte(a, b) => Inst::Lte(*a, *b),
            Inst::Push(r) => Inst::Push(*r),
            Inst::Pop(r) => Inst::Pop(*r),
            Inst::Halt => Inst::Halt,
        }
    }
}

/// Why an actor stopped with an error.
#[derive(Debug, Clone, Copy, PartialEq, Eq, Structural)]
pub enum Fault {
    /// `PC` names no instruction of the program.
    PcOutOfBounds,
    /// `PC` holds something other than a `Ref`.
    PcNotRef,
    /// `Pop` on an empty stack.
    StackUnderflow,
    /// A heap address past the heap's size.
    HeapOutOfBounds,
    /// Integer division or remainder by zero.
    DivisionByZero,
    /// An integer result outside the 64-bit signed range.
    IntegerOverflow,
    /// An ordered comparison of operands that have no order.
    InvalidComparison,
    /// A list index outside the list.
    IndexOutOfBounds,
    /// An indexed access on something other than a list with an integer
    /// index, or a send to something other than a `Ref`.
    TypeMismatch,
}

/// A floating-point operation; its operands are double bit patterns.
#[derive(Debug, Clone, Copy, PartialEq, Eq, Structural)]
pub enum FloatOp {
    Arith(ArithOp),
    Compare(CmpOp),
}

/// Floating-point work that the driver performs for the actor: it computes
/// `op` on the two doubles and writes the result (a `Float` for arithmetic,
/// a `Bool` for a comparison) into `dest` before the next tick.
#[derive(Debug, Clone, Copy, PartialEq, Eq, Structural)]
pub struct FloatRequest {
    pub op: FloatOp,
    pub lhs: u64,
    pub rhs: u64,
    pub dest: Reg,
}

/// What one tick did.
#[derive(Debug, Clone, Copy, PartialEq, Eq, Structural)]
pub enum Tick {
    /// The actor executed an instruction and can go on.
    Running,
    /// The actor waits for a message.
    Suspended,
    /// The actor has halted; nothing was executed.
    Halted,
    /// The actor executed a floating-point instruction whose result the
    /// driver must supply.
    Float(FloatRequest),
    /// The actor stopped on an error; nothing was executed if it had
    /// stopped before.
    Failed(Fault),
}

} // verus!
