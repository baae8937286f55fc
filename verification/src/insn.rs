//! Decoded Dalvik instructions, as the interpreter executes them.
//!
//! Register operands are register numbers of the current frame; branch
//! targets are absolute code-unit addresses. Variable-size payloads (switch
//! tables and array data) live in side tables of the code item and are
//! referred to by index, so an instruction is a plain `Copy` value.

use vstd::prelude::*;

verus! {

#[derive(Debug, Clone, Copy, PartialEq, Eq, Structural)]
pub enum Binop {
    Add,
    Sub,
    Mul,
    Div,
    Rem,
    And,
    Or,
    Xor,
    Shl,
    Shr,
    Ushr,
}

/// Operators of the `*-int/lit` forms; `Rsub` computes `lit - src`.
#[derive(Debug, Clone, Copy, PartialEq, Eq, Structural)]
pub enum LitOp {
    Add,
    Rsub,
    Mul,
    Div,
    Rem,
    And,
    Or,
    Xor,
    Shl,
    Shr,
    Ushr,
}

#[derive(Debug, Clone, Copy, PartialEq, Eq, Structural)]
pub enum Unop {
    NegInt,
    NotInt,
    NegLong,
    NotLong,
    NegFloat,
    NegDouble,
    IntToLong,
    IntToFloat,
    IntToDouble,
    LongToInt,
    LongToFloat,
    LongToDouble,
    FloatToInt,
    FloatToLong,
    FloatToDouble,
    DoubleToInt,
    DoubleToLong,
    DoubleToFloat,
    IntToByte,
    IntToChar,
    IntToShort,
}

#[derive(Debug, Clone, Copy, PartialEq, Eq, Structural)]
pub enum CompareOp {
    FloatCompareL,
    FloatCompareG,
    DoubleCompareL,
    DoubleCompareG,
    LongCompare,
}

#[derive(Debug, Clone, Copy, PartialEq, Eq, Structural)]
pub enum IfOp {
    Eq,
    Ne,
    Lt,
    Ge,
    Gt,
    Le,
    Ez,
    Nz,
    Ltz,
    Gez,
    Gtz,
    Lez,
}

#[derive(Debug, Clone, Copy, PartialEq, Eq, Structural)]
pub enum InvokeKind {
    Virtual,
    Super,
    Direct,
    Static,
    Interface,
}

/// Width of a field or array access.
#[derive(Debug, Clone, Copy, PartialEq, Eq, Structural)]
pub enum Width {
    Plain,
    Wide,
    Obj,
    Boolean,
    Byte,
    Char,
    Short,
}

/// The argument registers of an invoke: up to five listed registers, or a
/// contiguous range.
#[derive(Debug, Clone, Copy)]
pub enum Args {
    List { count: u8, regs: [u16; 5] },
    Range { first: u16, count: u16 },
}

impl LitOp {
    /// The binary operator the literal form applies.
    pub open spec fn binop_spec(self) -> Binop {
        match self {
            LitOp::Add => Binop::Add,
            LitOp::Rsub => Binop::Sub,
            LitOp::Mul => Binop::Mul,
            LitOp::Div => Binop::Div,
            LitOp::Rem => Binop::Rem,
            LitOp::And => Binop::And,
            LitOp::Or => Binop::Or,
            LitOp::Xor => Binop::Xor,
            LitOp::Shl => Binop::Shl,
            LitOp::Shr => Binop::Shr,
            LitOp::Ushr => Binop::Ushr,
        }
    }

    pub fn to_binop(self) -> (r: Binop)
        ensures
            r == self.binop_spec(),
    {
        match self {
            LitOp::Add => Binop::Add,
            LitOp::Rsub => Binop::Sub,
            LitOp::Mul => Binop::Mul,
            LitOp::Div => Binop::Div,
            LitOp::Rem => Binop::Rem,
            LitOp::And => Binop::And,
            LitOp::Or => Binop::Or,
            LitOp::Xor => Binop::Xor,
            LitOp::Shl => Binop::Shl,
            LitOp::Shr => Binop::Shr,
            LitOp::Ushr => Binop::Ushr,
        }
    }
}

impl Args {
    /// Number of argument registers.
    pub open spec fn len_spec(self) -> nat {
        match self {
            Args::List { count, .. } => if count <= 5 { count as nat } else { 5 },
            Args::Range { count, .. } => count as nat,
        }
    }

    /// Register of argument `i`.
    pub open spec fn reg_spec(self, i: int) -> int {
        match self {
            Args::List { regs, .. } => regs@[i] as int,
            Args::Range { first, .. } => first + i,
        }
    }

    pub fn len(&self) -> (r: usize)
        ensures
            r as nat == self.len_spec(),
    {
        match self {
            Args::List { count, .. } => if *count <= 5 { *count as usize } else { 5 },
            Args::Range { count, .. } => *count as usize,
        }
    }

    pub fn reg_at(&self, i: usize) -> (r: usize)
        requires
            (i as nat) < self.len_spec(),
        ensures
            r as int == self.reg_spec(i as int),
    {
        match self {
            Args::List { regs, .. } => regs[i] as usize,
            Args::Range { first, .. } => *first as usize + i,
        }
    }
}

/// A decoded instruction.
#[derive(Debug, Clone, Copy)]
pub enum Insn {
    Nop,
    Move(u16, u16),
    MoveWide(u16, u16),
    Const(u16, i32),
    /// `const/high16`: the literal goes to the high 16 bits.
    ConstHigh16(u16, i32),
    ConstWide(u16, i64),
    /// `const-wide/high16`: the literal goes to the high 16 bits.
    ConstWideHigh16(u16, i32),
    ConstString(u16, u32),
    ConstClass(u16, u32),
    MoveResult(u16),
    MoveException(u16),
    ConstMethodHandle(u16, u32),
    MonitorEnter(u16),
    MonitorExit(u16),
    CheckCast(u16, u32),
    InstanceOf(u16, u16, u32),
    ArrayLength(u16, u16),
    NewInstance(u16, u32),
    NewArray(u16, u16, u32),
    FilledNewArray(Args, u32),
    /// Register and index of the array-data table.
    FillArrayData(u16, u32),
    Throw(u16),
    Goto(u32),
    /// Register and index of the switch table.
    PackedSwitch(u16, u32),
    SparseSwitch(u16, u32),
    Compare(CompareOp, u16, u16, u16),
    If(IfOp, u16, u16, u32),
    IfZ(IfOp, u16, u32),
    AGet(Width, u16, u16, u16),
    APut(Width, u16, u16, u16),
    IGet(Width, u16, u16, u32),
    IPut(Width, u16, u16, u32),
    SGet(Width, u16, u32),
    SPut(Width, u16, u32),
    Invoke(InvokeKind, u32, Args),
    Unop(Unop, u16, u16),
    Binop(Binop, u16, u16, u16),
    BinopLit(LitOp, u16, u16, i32),
    Return(u16),
    ReturnWide(u16),
    ReturnVoid,
}

/// A packed switch (`first`, consecutive keys) or a sparse switch (`keys`,
/// sorted ascending); `targets` are absolute addresses.
#[derive(Debug, Clone)]
pub struct SwitchTable {
    pub first: i32,
    pub keys: Vec<i32>,
    pub targets: Vec<u32>,
}

/// The data of a `fill-array-data` payload, by element width.
#[derive(Debug, Clone)]
pub enum FillArray {
    Byte(Vec<u8>),
    Short(Vec<i16>),
    Char(Vec<u16>),
    Int(Vec<u32>),
    Wide(Vec<u64>),
}

/// A try region: instructions whose address is in
/// `start_addr .. start_addr + insn_count` are covered by `handlers`
/// (`(type id, handler address)`, tried in order), then by `catch_all`.
#[derive(Debug, Clone)]
pub struct TryItem {
    pub start_addr: u32,
    pub insn_count: u16,
    pub handlers: Vec<(u32, u32)>,
    pub catch_all: Option<u32>,
}

} // verus!
