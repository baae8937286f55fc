//! The interpreter: frames, single-instruction steps, the run loop with
//! try/catch unwinding, and the points where the host takes over
//! (floating-point arithmetic and host-registered natives).

use vstd::prelude::*;

use crate::arith::{int_binop, long_binop, int_op, long_op};
use crate::class::CodeItem;
use crate::insn::{Args, Binop, CompareOp, FillArray, IfOp, Insn, InvokeKind, LitOp, SwitchTable, TryItem, Unop, Width};
use crate::value::JValue;
use crate::vm::{FieldRef, MethodRef, Target};

verus! {

/// An activation of a bytecode method.
pub struct Frame {
    pub class: u32,
    pub slot: u32,
    /// Dex file (index into `Vm::dexes`) the method's ids refer to.
    pub dex: u32,
    pub code: CodeItem,
    pub regs: Vec<JValue>,
    pub pc: usize,
    /// Address of the instruction being executed (for handler lookup).
    pub err_pc: usize,
    pub result: JValue,
    pub pending_exc: Option<JValue>,
    /// For a `<clinit>` frame, the class it initializes.
    pub clinit_of: Option<u32>,
}

/// What an instruction does to control flow.
pub enum Flow {
    Next(usize),
    Jump(usize),
    Ret(JValue),
    Call(InvokeKind, MethodRef, Target, Args, usize),
}

/// A floating-point operation, carried out by the host on the bit patterns
/// of its operands.
#[derive(Debug, Clone, Copy)]
pub enum FloatOp {
    /// `a op b`, `double` when `wide`.
    Binop(Binop, bool),
    Unop(Unop),
    Compare(CompareOp),
    /// Two-operand comparison branch.
    If(IfOp),
    /// Comparison-with-zero branch.
    IfZ(IfOp),
}

/// A floating-point instruction: the operation, its operands, the
/// destination register (for values) or branch target (for branches), and
/// where execution continues otherwise.
#[derive(Debug, Clone, Copy)]
pub struct FloatWork {
    pub op: FloatOp,
    pub a: JValue,
    pub b: JValue,
    pub dst: u16,
    pub target: u32,
    pub next_pc: usize,
}

/// The outcome of one step.
pub enum StepOutcome {
    Go(Flow),
    Throw(JValue),
    /// The host computes a floating-point instruction.
    Float(FloatWork),
    /// Class `class` must run its `<clinit>` (method slot) first; the
    /// instruction is executed again afterwards.
    Init(u32, u32),
}

/// Where a run stops: the outermost frame returned, or the host has work to
/// do before the run can go on.
pub enum Exec {
    Done(JValue),
    Float(FloatWork),
    /// A host-registered native: its index in the embedder's table and its
    /// arguments (receiver first for instance methods).
    Host(u32, Vec<JValue>),
    /// A built-in native whose work is host input/output: its id (see
    /// [`crate::natives::io_name`]) and its arguments.
    Io(u32, Vec<JValue>),
}

/// The argument registers exist.
pub open spec fn args_fit(args: Args, n: int) -> bool {
    forall|k: int| 0 <= k < args.len_spec() ==> #[trigger] args.reg_spec(k) < n
}

/// Whether the argument registers exist.
fn args_fit_exec(args: Args, n: usize) -> (r: bool)
    ensures
        r == args_fit(args, n as int),
{
    let len = args.len();
    let mut k: usize = 0;
    while k < len
        invariant
            len == args.len_spec(),
            k <= len,
            forall|q: int| 0 <= q < k ==> #[trigger] args.reg_spec(q) < n,
        decreases len - k,
    {
        if args.reg_at(k) >= n {
            return false;
        }
        k += 1;
    }
    true
}

/// Register operands of an instruction fit a frame of `n` registers, and its
/// table indices exist.
pub open spec fn insn_fits(i: Insn, n: int, ns: int, na: int) -> bool {
    match i {
        Insn::Nop | Insn::ReturnVoid | Insn::Goto(_) => true,
        Insn::Move(d, s) => d < n && s < n,
        Insn::MoveWide(d, s) => d + 1 < n && s + 1 < n,
        Insn::Const(d, _) | Insn::ConstHigh16(d, _) | Insn::ConstString(d, _) | Insn::ConstClass(d, _)
        | Insn::MoveResult(d) | Insn::MoveException(d) | Insn::ConstMethodHandle(d, _) | Insn::MonitorEnter(d)
        | Insn::MonitorExit(d) | Insn::CheckCast(d, _) | Insn::NewInstance(d, _) | Insn::Throw(d)
        | Insn::Return(d) | Insn::ReturnWide(d) | Insn::SGet(_, d, _) | Insn::SPut(_, d, _) => d < n,
        Insn::ConstWide(d, _) | Insn::ConstWideHigh16(d, _) => d < n,
        Insn::InstanceOf(d, s, _) | Insn::ArrayLength(d, s) | Insn::NewArray(d, s, _) | Insn::Unop(_, d, s)
        | Insn::BinopLit(_, d, s, _) | Insn::IGet(_, d, s, _) | Insn::IPut(_, d, s, _) => d < n && s < n,
        Insn::FilledNewArray(args, _) => args_fit(args, n),
        Insn::Invoke(_, _, args) => args_fit(args, n),
        Insn::FillArrayData(d, t) => d < n && t < na,
        Insn::PackedSwitch(d, t) | Insn::SparseSwitch(d, t) => d < n && t < ns,
        Insn::Compare(_, d, a, b) | Insn::AGet(_, d, a, b) | Insn::APut(_, d, a, b) | Insn::Binop(_, d, a, b) => d < n && a < n && b < n,
        Insn::If(_, a, b, _) => a < n && b < n,
        Insn::IfZ(_, a, _) => a < n,
    }
}

/// A code item fits a frame of `n` registers: every instruction fits, there
/// is an address per instruction, and the switch tables are consistent.
pub open spec fn code_fits(c: CodeItem, n: int) -> bool {
    &&& c.units@.len() == c.insns@.len()
    &&& ascending(c.units@)
    &&& forall|k: int| 0 <= k < c.insns@.len() ==> insn_fits(#[trigger] c.insns@[k], n, c.switches@.len() as int, c.arrays@.len() as int)
    &&& forall|t: int| 0 <= t < c.switches@.len() ==> (#[trigger] c.switches@[t]).keys@.len() <= c.switches@[t].targets@.len()
}

/// A frame can be stepped: its code fits its registers.
pub open spec fn frame_ok(f: Frame) -> bool {
    &&& code_fits(f.code, f.regs@.len() as int)
    &&& f.regs@.len() <= u16::MAX
}

/// Whether instruction `i` fits.
fn insn_fits_exec(i: Insn, n: usize, ns: usize, na: usize) -> (r: bool)
    ensures
        r == insn_fits(i, n as int, ns as int, na as int),
{
    match i {
        Insn::Nop | Insn::ReturnVoid | Insn::Goto(_) => true,
        Insn::Move(d, s) => (d as usize) < n && (s as usize) < n,
        Insn::MoveWide(d, s) => (d as usize) + 1 < n && (s as usize) + 1 < n,
        Insn::Const(d, _) | Insn::ConstHigh16(d, _) | Insn::ConstString(d, _) | Insn::ConstClass(d, _)
        | Insn::MoveResult(d) | Insn::MoveException(d) | Insn::ConstMethodHandle(d, _) | Insn::MonitorEnter(d)
        | Insn::MonitorExit(d) | Insn::CheckCast(d, _) | Insn::NewInstance(d, _) | Insn::Throw(d)
        | Insn::Return(d) | Insn::ReturnWide(d) | Insn::SGet(_, d, _) | Insn::SPut(_, d, _) => (d as usize) < n,
        Insn::ConstWide(d, _) | Insn::ConstWideHigh16(d, _) => (d as usize) < n,
        Insn::InstanceOf(d, s, _) | Insn::ArrayLength(d, s) | Insn::NewArray(d, s, _) | Insn::Unop(_, d, s)
        | Insn::BinopLit(_, d, s, _) | Insn::IGet(_, d, s, _) | Insn::IPut(_, d, s, _) => (d as usize) < n && (s as usize) < n,
        Insn::FilledNewArray(args, _) => args_fit_exec(args, n),
        Insn::Invoke(_, _, args) => args_fit_exec(args, n),
        Insn::FillArrayData(d, t) => (d as usize) < n && (t as usize) < na,
        Insn::PackedSwitch(d, t) | Insn::SparseSwitch(d, t) => (d as usize) < n && (t as usize) < ns,
        Insn::Compare(_, d, a, b) | Insn::AGet(_, d, a, b) | Insn::APut(_, d, a, b) | Insn::Binop(_, d, a, b) =>
            (d as usize) < n && (a as usize) < n && (b as usize) < n,
        Insn::If(_, a, b, _) => (a as usize) < n && (b as usize) < n,
        Insn::IfZ(_, a, _) => (a as usize) < n,
    }
}

/// Whether a code item fits a frame of `n` registers.
pub fn code_fits_exec(c: &CodeItem, n: usize) -> (r: bool)
    ensures
        r == code_fits(*c, n as int),
{
    if c.units.len() != c.insns.len() || !ascending_exec(&c.units) {
        return false;
    }
    let mut k: usize = 0;
    while k < c.insns.len()
        invariant
            k <= c.insns@.len(),
            forall|q: int| 0 <= q < k ==> insn_fits(#[trigger] c.insns@[q], n as int, c.switches@.len() as int, c.arrays@.len() as int),
        decreases c.insns@.len() - k,
    {
        if !insn_fits_exec(c.insns[k], n, c.switches.len(), c.arrays.len()) {
            return false;
        }
        k += 1;
    }
    let mut t: usize = 0;
    while t < c.switches.len()
        invariant
            t <= c.switches@.len(),
            forall|q: int| 0 <= q < t ==> (#[trigger] c.switches@[q]).keys@.len() <= c.switches@[q].targets@.len(),
        decreases c.switches@.len() - t,
    {
        if c.switches[t].keys.len() > c.switches[t].targets.len() {
            return false;
        }
        t += 1;
    }
    true
}

/// The register file of a new frame: `registers` registers, the arguments
/// in the last `ins_size` of them (Dalvik's layout), every other register
/// `Null`.
pub open spec fn regs_spec(args: Seq<JValue>, ins_size: int, registers: int) -> Seq<JValue> {
    Seq::new(registers as nat, |r: int| {
        let base = registers - ins_size;
        if base <= r && r - base < args.len() && r - base < ins_size { args[r - base] } else { JValue::Null }
    })
}

/// Two code items with the same registers, instructions, addresses,
/// switch and array tables and try regions.
pub open spec fn same_code(a: CodeItem, b: CodeItem) -> bool {
    &&& a.registers_size == b.registers_size
    &&& a.ins_size == b.ins_size
    &&& a.outs_size == b.outs_size
    &&& a.words == b.words
    &&& a.insns@ == b.insns@
    &&& a.units@ == b.units@
    &&& a.switches@.len() == b.switches@.len()
    &&& (forall|t: int| 0 <= t < a.switches@.len() ==> (#[trigger] a.switches@[t]).first == b.switches@[t].first
        && a.switches@[t].keys@ == b.switches@[t].keys@ && a.switches@[t].targets@ == b.switches@[t].targets@)
    &&& a.arrays@.len() == b.arrays@.len()
    &&& (forall|t: int| 0 <= t < a.arrays@.len() ==> fill_spec(#[trigger] a.arrays@[t]) == fill_spec(b.arrays@[t]))
    &&& a.tries@.len() == b.tries@.len()
    &&& (forall|t: int| 0 <= t < a.tries@.len() ==> (#[trigger] a.tries@[t]).start_addr == b.tries@[t].start_addr
        && a.tries@[t].insn_count == b.tries@[t].insn_count && a.tries@[t].handlers@ == b.tries@[t].handlers@
        && a.tries@[t].catch_all == b.tries@[t].catch_all)
}

proof fn lemma_same_code_fits(a: CodeItem, b: CodeItem, n: int)
    requires
        same_code(a, b),
    ensures
        code_fits(a, n) == code_fits(b, n),
{
    if code_fits(b, n) {
        assert forall|t: int| 0 <= t < a.switches@.len() implies (#[trigger] a.switches@[t]).keys@.len() <= a.switches@[t].targets@.len() by {
            assert(b.switches@[t].keys@.len() <= b.switches@[t].targets@.len());
        }
    }
    if code_fits(a, n) {
        assert forall|t: int| 0 <= t < b.switches@.len() implies (#[trigger] b.switches@[t]).keys@.len() <= b.switches@[t].targets@.len() by {
            assert(a.switches@[t].keys@.len() <= a.switches@[t].targets@.len());
        }
    }
}

fn copy_fill(f: &FillArray) -> (r: FillArray)
    ensures
        fill_spec(r) == fill_spec(*f),
{
    match f {
        FillArray::Byte(v) => FillArray::Byte(crate::loader::copy_vec(v)),
        FillArray::Short(v) => FillArray::Short(crate::loader::copy_vec(v)),
        FillArray::Char(v) => FillArray::Char(crate::loader::copy_vec(v)),
        FillArray::Int(v) => FillArray::Int(crate::loader::copy_vec(v)),
        FillArray::Wide(v) => FillArray::Wide(crate::loader::copy_vec(v)),
    }
}

/// An element-by-element copy of a code item.
pub fn copy_code(c: &CodeItem) -> (r: CodeItem)
    ensures
        same_code(r, *c),
{
    let mut switches: Vec<SwitchTable> = Vec::new();
    let mut i: usize = 0;
    while i < c.switches.len()
        invariant
            i <= c.switches@.len(),
            switches@.len() == i,
            forall|t: int| 0 <= t < i ==> (#[trigger] switches@[t]).first == c.switches@[t].first
                && switches@[t].keys@ == c.switches@[t].keys@ && switches@[t].targets@ == c.switches@[t].targets@,
        decreases c.switches@.len() - i,
    {
        let s = &c.switches[i];
        switches.push(SwitchTable { first: s.first, keys: crate::loader::copy_vec(&s.keys), targets: crate::loader::copy_vec(&s.targets) });
        i += 1;
    }
    let mut arrays: Vec<FillArray> = Vec::new();
    let mut j: usize = 0;
    while j < c.arrays.len()
        invariant
            j <= c.arrays@.len(),
            arrays@.len() == j,
            forall|t: int| 0 <= t < j ==> fill_spec(#[trigger] arrays@[t]) == fill_spec(c.arrays@[t]),
        decreases c.arrays@.len() - j,
    {
        arrays.push(copy_fill(&c.arrays[j]));
        j += 1;
    }
    let mut tries: Vec<TryItem> = Vec::new();
    let mut k: usize = 0;
    while k < c.tries.len()
        invariant
            k <= c.tries@.len(),
            tries@.len() == k,
            forall|t: int| 0 <= t < k ==> (#[trigger] tries@[t]).start_addr == c.tries@[t].start_addr
                && tries@[t].insn_count == c.tries@[t].insn_count && tries@[t].handlers@ == c.tries@[t].handlers@
                && tries@[t].catch_all == c.tries@[t].catch_all,
        decreases c.tries@.len() - k,
    {
        let x = &c.tries[k];
        tries.push(TryItem { start_addr: x.start_addr, insn_count: x.insn_count, handlers: crate::loader::copy_vec(&x.handlers), catch_all: x.catch_all });
        k += 1;
    }
    CodeItem {
        registers_size: c.registers_size,
        ins_size: c.ins_size,
        outs_size: c.outs_size,
        insns: crate::loader::copy_vec(&c.insns),
        units: crate::loader::copy_vec(&c.units),
        words: c.words,
        switches,
        arrays,
        tries,
    }
}

/// Method `slot` of class `class` can get a frame: it exists and has a code
/// item whose incoming registers fit and whose instructions fit its
/// registers, from a known dex.
pub open spec fn frame_makeable(vm: &crate::vm::Vm, class: u32, slot: u32) -> bool {
    &&& (class as int) < vm.classes@.len()
    &&& (slot as int) < vm.classes@[class as int].methods@.len()
    &&& vm.classes@[class as int].methods@[slot as int].code matches Some(c)
        && c.ins_size <= c.registers_size && code_fits(c, c.registers_size as int)
    &&& (vm.classes@[class as int].methods@[slot as int].dex_idx as int) < vm.dexes@.len()
}

/// The frame of method `slot` of `class` called with `args`: its code,
/// the arguments in the last registers, at address 0.
pub open spec fn frame_of(vm: &crate::vm::Vm, class: u32, slot: u32, args: Seq<JValue>, clinit_of: Option<u32>, f: Frame) -> bool {
    let m = vm.classes@[class as int].methods@[slot as int];
    let c = m.code->Some_0;
    &&& f.class == class && f.slot == slot && f.dex == m.dex_idx
    &&& same_code(f.code, c)
    &&& f.regs@ == regs_spec(args, c.ins_size as int, c.registers_size as int)
    &&& f.pc == 0 && f.err_pc == 0 && f.result == JValue::Null && f.pending_exc is None && f.clinit_of == clinit_of
}

impl Frame {
    /// Dalvik lays out the incoming arguments as the *last* `ins_size`
    /// registers of the frame (vN-ins+1 .. vN), not the first.
    pub fn make_regs(args: &Vec<JValue>, ins_size: u16, registers: u16) -> (r: Vec<JValue>)
        requires
            ins_size <= registers,
        ensures
            r@ == regs_spec(args@, ins_size as int, registers as int),
    {
        let mut regs: Vec<JValue> = Vec::new();
        let base = (registers - ins_size) as usize;
        let mut i: usize = 0;
        while i < registers as usize
            invariant
                i <= registers,
                base == registers - ins_size,
                regs@ =~= regs_spec(args@, ins_size as int, registers as int).subrange(0, i as int),
            decreases registers - i,
        {
            let v = if base <= i && i - base < args.len() && i - base < ins_size as usize { args[i - base] } else { JValue::Null };
            regs.push(v);
            i += 1;
        }
        regs
    }
}

/// Result of a one-operand instruction, `None` when the host must convert
/// between integer and floating-point values. Float and double negation
/// flip the sign bit; an operand of the wrong kind gives `Int(0)`.
pub open spec fn unop_spec(op: Unop, v: JValue) -> Option<JValue> {
    match (op, v) {
        (Unop::NegInt, JValue::Int(x)) => Some(JValue::Int(vstd::wrapping::i32_specs::wrapping_sub(0, x))),
        (Unop::NotInt, JValue::Int(x)) => Some(JValue::Int(!x)),
        (Unop::NegLong, JValue::Long(x)) => Some(JValue::Long(vstd::wrapping::i64_specs::wrapping_sub(0, x))),
        (Unop::NotLong, JValue::Long(x)) => Some(JValue::Long(!x)),
        (Unop::NegFloat, JValue::Float(x)) => Some(JValue::Float(x ^ 0x8000_0000u32)),
        (Unop::NegDouble, JValue::Double(x)) => Some(JValue::Double(x ^ 0x8000_0000_0000_0000u64)),
        (Unop::IntToLong, JValue::Int(x)) => Some(JValue::Long(x as i64)),
        (Unop::LongToInt, JValue::Long(x)) => Some(JValue::Int(x as i32)),
        (Unop::IntToByte, JValue::Int(x)) => Some(JValue::Int(x as i8 as i32)),
        (Unop::IntToChar, JValue::Int(x)) => Some(JValue::Int(x as u16 as i32)),
        (Unop::IntToShort, JValue::Int(x)) => Some(JValue::Int(x as i16 as i32)),
        (Unop::IntToFloat, JValue::Int(_)) | (Unop::IntToDouble, JValue::Int(_)) | (Unop::LongToFloat, JValue::Long(_))
        | (Unop::LongToDouble, JValue::Long(_)) | (Unop::FloatToInt, JValue::Float(_)) | (Unop::FloatToLong, JValue::Float(_))
        | (Unop::FloatToDouble, JValue::Float(_)) | (Unop::DoubleToInt, JValue::Double(_))
        | (Unop::DoubleToLong, JValue::Double(_)) | (Unop::DoubleToFloat, JValue::Double(_)) => None,
        _ => Some(JValue::Int(0)),
    }
}

/// The integer conversions and negations: `neg` is `0 - x` (wrapping only
/// at the minimum), `not` is `-x - 1`, widening keeps the value, and the
/// narrowing conversions keep the low bits, sign-extended for `byte`,
/// `short` and `long-to-int` and zero-extended for `char`. Float and double
/// negation flip only the sign bit.
pub proof fn law_unop_integer(x: i32, l: i64, f: u32, d: u64)
    ensures
        unop_spec(Unop::NegInt, JValue::Int(x)) matches Some(JValue::Int(r))
            && (x != i32::MIN ==> r == -x) && (x == i32::MIN ==> r == i32::MIN),
        unop_spec(Unop::NegLong, JValue::Long(l)) matches Some(JValue::Long(r))
            && (l != i64::MIN ==> r == -l) && (l == i64::MIN ==> r == i64::MIN),
        unop_spec(Unop::NotInt, JValue::Int(x)) == Some(JValue::Int((-x - 1) as i32)),
        unop_spec(Unop::NotLong, JValue::Long(l)) == Some(JValue::Long((-l - 1) as i64)),
        unop_spec(Unop::IntToLong, JValue::Int(x)) matches Some(JValue::Long(r)) && r == x,
        unop_spec(Unop::IntToByte, JValue::Int(x)) matches Some(JValue::Int(r))
            && -128 <= r <= 127 && r & 0xff == x & 0xff,
        unop_spec(Unop::IntToShort, JValue::Int(x)) matches Some(JValue::Int(r))
            && -32768 <= r <= 32767 && r & 0xffff == x & 0xffff,
        unop_spec(Unop::IntToChar, JValue::Int(x)) matches Some(JValue::Int(r))
            && 0 <= r <= 0xffff && r & 0xffff == x & 0xffff,
        unop_spec(Unop::LongToInt, JValue::Long(l)) matches Some(JValue::Int(r))
            && (r as i64) & 0xffff_ffff == l & 0xffff_ffff && (i32::MIN <= l <= i32::MAX ==> r == l),
        unop_spec(Unop::NegFloat, JValue::Float(f)) matches Some(JValue::Float(r))
            && r & 0x7fff_ffff == f & 0x7fff_ffff && (r >> 31u32) != (f >> 31u32),
        unop_spec(Unop::NegDouble, JValue::Double(d)) matches Some(JValue::Double(r))
            && r & 0x7fff_ffff_ffff_ffff == d & 0x7fff_ffff_ffff_ffff && (r >> 63u32) != (d >> 63u32),
{
    assert(!x == -x - 1) by (bit_vector);
    assert(!l == -l - 1) by (bit_vector);
    let b = x as i8 as i32;
    assert(-128 <= b <= 127 && b & 0xff == x & 0xff) by (bit_vector)
        requires
            b == x as i8 as i32,
    ;
    let h = x as i16 as i32;
    assert(-32768 <= h <= 32767 && h & 0xffff == x & 0xffff) by (bit_vector)
        requires
            h == x as i16 as i32,
    ;
    let c = x as u16 as i32;
    assert(0 <= c <= 0xffff && c & 0xffff == x & 0xffff) by (bit_vector)
        requires
            c == x as u16 as i32,
    ;
    let t = l as i32;
    assert((t as i64) & 0xffff_ffff == l & 0xffff_ffff) by (bit_vector)
        requires
            t == l as i32,
    ;
    assert(i32::MIN <= l <= i32::MAX ==> t == l) by (bit_vector)
        requires
            t == l as i32,
    ;
    let nf = f ^ 0x8000_0000u32;
    assert(nf & 0x7fff_ffff == f & 0x7fff_ffff && (nf >> 31u32) != (f >> 31u32)) by (bit_vector)
        requires
            nf == f ^ 0x8000_0000u32,
    ;
    let nd = d ^ 0x8000_0000_0000_0000u64;
    assert(nd & 0x7fff_ffff_ffff_ffff == d & 0x7fff_ffff_ffff_ffff && (nd >> 63u32) != (d >> 63u32)) by (bit_vector)
        requires
            nd == d ^ 0x8000_0000_0000_0000u64,
    ;
}

/// `cmp-long` orders two longs: -1 below, 0 equal, 1 above, and swapping
/// the operands negates the answer.
pub proof fn law_long_compare(x: i64, y: i64)
    ensures
        compare_spec(CompareOp::LongCompare, JValue::Long(x), JValue::Long(y)) matches Some(c)
            && (c < 0 <==> x < y) && (c == 0 <==> x == y) && (c > 0 <==> x > y) && -1 <= c <= 1
            && (compare_spec(CompareOp::LongCompare, JValue::Long(y), JValue::Long(x)) matches Some(c2) && c2 == -c),
{
}

/// The `if` tests on two ints: `lt`/`ge` and `gt`/`le` are each other's
/// negation and `lt` is `gt` with the operands swapped; `eq`/`ne` compare
/// the values; the tests against zero are the tests against `Int(0)`.
pub proof fn law_if_int(x: i32, y: i32)
    ensures
        if_spec(IfOp::Lt, JValue::Int(x), JValue::Int(y)) == Some(x < y),
        if_spec(IfOp::Ge, JValue::Int(x), JValue::Int(y)) == Some(!(x < y)),
        if_spec(IfOp::Gt, JValue::Int(x), JValue::Int(y)) == if_spec(IfOp::Lt, JValue::Int(y), JValue::Int(x)),
        if_spec(IfOp::Le, JValue::Int(x), JValue::Int(y)) == Some(!(y < x)),
        if_spec(IfOp::Eq, JValue::Int(x), JValue::Int(y)) == Some(x == y),
        if_spec(IfOp::Ne, JValue::Int(x), JValue::Int(y)) == Some(x != y),
        ifz_spec(IfOp::Ltz, JValue::Int(x)) == if_spec(IfOp::Lt, JValue::Int(x), JValue::Int(0)),
        ifz_spec(IfOp::Gez, JValue::Int(x)) == if_spec(IfOp::Ge, JValue::Int(x), JValue::Int(0)),
        ifz_spec(IfOp::Gtz, JValue::Int(x)) == if_spec(IfOp::Gt, JValue::Int(x), JValue::Int(0)),
        ifz_spec(IfOp::Lez, JValue::Int(x)) == if_spec(IfOp::Le, JValue::Int(x), JValue::Int(0)),
        ifz_spec(IfOp::Ez, JValue::Int(x)) == if_spec(IfOp::Eq, JValue::Int(x), JValue::Int(0)),
        ifz_spec(IfOp::Nz, JValue::Int(x)) == if_spec(IfOp::Ne, JValue::Int(x), JValue::Int(0)),
{
}

/// The one-operand instruction's result (see [`unop_spec`]).
pub fn unop_exec(op: Unop, v: JValue) -> (r: Option<JValue>)
    ensures
        r == unop_spec(op, v),
{
    match (op, v) {
        (Unop::NegInt, JValue::Int(x)) => Some(JValue::Int(0i32.wrapping_sub(x))),
        (Unop::NotInt, JValue::Int(x)) => Some(JValue::Int(!x)),
        (Unop::NegLong, JValue::Long(x)) => Some(JValue::Long(0i64.wrapping_sub(x))),
        (Unop::NotLong, JValue::Long(x)) => Some(JValue::Long(!x)),
        (Unop::NegFloat, JValue::Float(x)) => Some(JValue::Float(x ^ 0x8000_0000u32)),
        (Unop::NegDouble, JValue::Double(x)) => Some(JValue::Double(x ^ 0x8000_0000_0000_0000u64)),
        (Unop::IntToLong, JValue::Int(x)) => Some(JValue::Long(x as i64)),
        (Unop::LongToInt, JValue::Long(x)) => Some(JValue::Int(x as i32)),
        (Unop::IntToByte, JValue::Int(x)) => Some(JValue::Int(x as i8 as i32)),
        (Unop::IntToChar, JValue::Int(x)) => Some(JValue::Int(x as u16 as i32)),
        (Unop::IntToShort, JValue::Int(x)) => Some(JValue::Int(x as i16 as i32)),
        (Unop::IntToFloat, JValue::Int(_)) | (Unop::IntToDouble, JValue::Int(_)) | (Unop::LongToFloat, JValue::Long(_))
        | (Unop::LongToDouble, JValue::Long(_)) | (Unop::FloatToInt, JValue::Float(_)) | (Unop::FloatToLong, JValue::Float(_))
        | (Unop::FloatToDouble, JValue::Float(_)) | (Unop::DoubleToInt, JValue::Double(_))
        | (Unop::DoubleToLong, JValue::Double(_)) | (Unop::DoubleToFloat, JValue::Double(_)) => None,
        _ => Some(JValue::Int(0)),
    }
}

/// How a two-operand arithmetic instruction ends.
pub enum BinopEnd {
    Value(JValue),
    /// Division or remainder by zero.
    DivZero,
    /// Operands of kinds the instruction does not combine.
    BadOperands,
    /// Floating-point operands: the host computes it (`double` when true).
    Host(bool),
}

/// The outcome of `a op b` (see [`BinopEnd`]).
pub open spec fn binop_spec(op: Binop, a: JValue, b: JValue) -> BinopEnd {
    match (a, b) {
        (JValue::Int(x), JValue::Int(y)) => match int_binop(op, x, y) {
            Some(v) => BinopEnd::Value(JValue::Int(v)),
            None => BinopEnd::DivZero,
        },
        (JValue::Long(x), JValue::Long(y)) => match long_binop(op, x, y) {
            Some(v) => BinopEnd::Value(JValue::Long(v)),
            None => BinopEnd::DivZero,
        },
        (JValue::Float(_), JValue::Float(_)) => match op {
            Binop::Add | Binop::Sub | Binop::Mul | Binop::Div | Binop::Rem => BinopEnd::Host(false),
            _ => BinopEnd::BadOperands,
        },
        (JValue::Double(_), JValue::Double(_)) => match op {
            Binop::Add | Binop::Sub | Binop::Mul | Binop::Div | Binop::Rem => BinopEnd::Host(true),
            _ => BinopEnd::BadOperands,
        },
        _ => BinopEnd::BadOperands,
    }
}

/// `a op b`.
pub fn binop_exec(op: Binop, a: JValue, b: JValue) -> (r: BinopEnd)
    ensures
        r == binop_spec(op, a, b),
{
    match (a, b) {
        (JValue::Int(x), JValue::Int(y)) => match int_op(op, x, y) {
            Some(v) => BinopEnd::Value(JValue::Int(v)),
            None => BinopEnd::DivZero,
        },
        (JValue::Long(x), JValue::Long(y)) => match long_op(op, x, y) {
            Some(v) => BinopEnd::Value(JValue::Long(v)),
            None => BinopEnd::DivZero,
        },
        (JValue::Float(_), JValue::Float(_)) => match op {
            Binop::Add | Binop::Sub | Binop::Mul | Binop::Div | Binop::Rem => BinopEnd::Host(false),
            _ => BinopEnd::BadOperands,
        },
        (JValue::Double(_), JValue::Double(_)) => match op {
            Binop::Add | Binop::Sub | Binop::Mul | Binop::Div | Binop::Rem => BinopEnd::Host(true),
            _ => BinopEnd::BadOperands,
        },
        _ => BinopEnd::BadOperands,
    }
}

/// `cmp-long`: -1, 0 or 1; `None` for float and double compares of
/// float/double operands (the host decides); 0 otherwise.
pub open spec fn compare_spec(op: CompareOp, a: JValue, b: JValue) -> Option<i32> {
    match (op, a, b) {
        (CompareOp::LongCompare, JValue::Long(x), JValue::Long(y)) => Some(if x < y { -1i32 } else if x > y { 1i32 } else { 0i32 }),
        (CompareOp::FloatCompareL, JValue::Float(_), JValue::Float(_)) | (CompareOp::FloatCompareG, JValue::Float(_), JValue::Float(_))
        | (CompareOp::DoubleCompareL, JValue::Double(_), JValue::Double(_)) | (CompareOp::DoubleCompareG, JValue::Double(_), JValue::Double(_)) => None,
        _ => Some(0i32),
    }
}

pub fn compare_exec(op: CompareOp, a: JValue, b: JValue) -> (r: Option<i32>)
    ensures
        r == compare_spec(op, a, b),
{
    match (op, a, b) {
        (CompareOp::LongCompare, JValue::Long(x), JValue::Long(y)) => Some(if x < y { -1i32 } else if x > y { 1i32 } else { 0i32 }),
        (CompareOp::FloatCompareL, JValue::Float(_), JValue::Float(_)) | (CompareOp::FloatCompareG, JValue::Float(_), JValue::Float(_))
        | (CompareOp::DoubleCompareL, JValue::Double(_), JValue::Double(_)) | (CompareOp::DoubleCompareG, JValue::Double(_), JValue::Double(_)) => None,
        _ => Some(0i32),
    }
}

/// Whether an `if-<op>` branch is taken; `None` when comparing two float or
/// two double values by order (the host decides).
pub open spec fn if_spec(op: IfOp, a: JValue, b: JValue) -> Option<bool> {
    match op {
        IfOp::Eq => Some(a == b),
        IfOp::Ne => Some(a != b),
        IfOp::Lt | IfOp::Ge | IfOp::Gt | IfOp::Le => match (a, b) {
            (JValue::Int(x), JValue::Int(y)) => Some(match op {
                IfOp::Lt => x < y,
                IfOp::Ge => x >= y,
                IfOp::Gt => x > y,
                _ => x <= y,
            }),
            (JValue::Float(_), JValue::Float(_)) | (JValue::Double(_), JValue::Double(_)) => None,
            _ => Some(false),
        },
        _ => Some(false),
    }
}

pub fn if_exec(op: IfOp, a: JValue, b: JValue) -> (r: Option<bool>)
    ensures
        r == if_spec(op, a, b),
{
    match op {
        IfOp::Eq => Some(crate::value::jval_eq(&a, &b)),
        IfOp::Ne => Some(!crate::value::jval_eq(&a, &b)),
        IfOp::Lt | IfOp::Ge | IfOp::Gt | IfOp::Le => match (a, b) {
            (JValue::Int(x), JValue::Int(y)) => Some(match op {
                IfOp::Lt => x < y,
                IfOp::Ge => x >= y,
                IfOp::Gt => x > y,
                _ => x <= y,
            }),
            (JValue::Float(_), JValue::Float(_)) | (JValue::Double(_), JValue::Double(_)) => None,
            _ => Some(false),
        },
        _ => Some(false),
    }
}

/// Whether an `if-<op>z` branch is taken; `None` when ordering a float or
/// double against zero (the host decides).
pub open spec fn ifz_spec(op: IfOp, a: JValue) -> Option<bool> {
    match op {
        IfOp::Ez => Some(match a {
            JValue::Int(i) => i == 0,
            JValue::Long(l) => l == 0,
            JValue::Float(b) => b == 0 || b == 0x8000_0000u32,
            JValue::Double(b) => b == 0 || b == 0x8000_0000_0000_0000u64,
            JValue::Obj(_) => false,
            JValue::Null => true,
        }),
        IfOp::Nz => Some(!match a {
            JValue::Int(i) => i == 0,
            JValue::Long(l) => l == 0,
            JValue::Float(b) => b == 0 || b == 0x8000_0000u32,
            JValue::Double(b) => b == 0 || b == 0x8000_0000_0000_0000u64,
            JValue::Obj(_) => false,
            JValue::Null => true,
        }),
        IfOp::Ltz | IfOp::Gez | IfOp::Gtz | IfOp::Lez => match a {
            JValue::Int(x) => Some(match op {
                IfOp::Ltz => x < 0,
                IfOp::Gez => x >= 0,
                IfOp::Gtz => x > 0,
                _ => x <= 0,
            }),
            JValue::Float(_) | JValue::Double(_) => None,
            _ => Some(false),
        },
        _ => Some(false),
    }
}

pub fn ifz_exec(op: IfOp, a: JValue) -> (r: Option<bool>)
    ensures
        r == ifz_spec(op, a),
{
    match op {
        IfOp::Ez => Some(a.is_zero()),
        IfOp::Nz => Some(!a.is_zero()),
        IfOp::Ltz | IfOp::Gez | IfOp::Gtz | IfOp::Lez => match a {
            JValue::Int(x) => Some(match op {
                IfOp::Ltz => x < 0,
                IfOp::Gez => x >= 0,
                IfOp::Gtz => x > 0,
                _ => x <= 0,
            }),
            JValue::Float(_) | JValue::Double(_) => None,
            _ => Some(false),
        },
        _ => Some(false),
    }
}

/// `b` is frame `a` with possibly different register values and result.
pub open spec fn frame_same(a: Frame, b: Frame) -> bool {
    &&& b.class == a.class
    &&& b.slot == a.slot
    &&& b.dex == a.dex
    &&& b.code == a.code
    &&& b.regs@.len() == a.regs@.len()
    &&& b.pc == a.pc
    &&& b.pending_exc == a.pending_exc
    &&& b.clinit_of == a.clinit_of
}

impl Frame {
    /// Writes register `d`.
    pub fn set_reg(&mut self, d: u16, v: JValue)
        requires
            (d as int) < old(self).regs@.len(),
        ensures
            final(self).regs@ == old(self).regs@.update(d as int, v),
            final(self).result == old(self).result,
            final(self).err_pc == old(self).err_pc,
            frame_same(*old(self), *final(self)),
    {
        self.regs.set(d as usize, v);
    }
}

impl crate::vm::Vm {
    /// Takes object `o` out of the arena, leaving an empty slot.
    fn take_object(&mut self, o: u32) -> (r: crate::object::Object)
        requires
            (o as int) < old(self).arena.objects@.len(),
        ensures
            r == old(self).arena.objects@[o as int],
            final(self).arena.objects@.len() == old(self).arena.objects@.len(),
            final(self).arena.objects@ == old(self).arena.objects@.update(o as int, final(self).arena.objects@[o as int]),
            final(self).arena.free == old(self).arena.free,
            final(self).classes == old(self).classes,
            final(self).intern == old(self).intern,
            final(self).dexes == old(self).dexes,
            final(self).hot == old(self).hot,
            final(self).natives == old(self).natives,
            final(self).host_natives == old(self).host_natives,
            final(self).perms == old(self).perms,
            final(self).string_objs == old(self).string_objs,
            final(self).runtime_strings == old(self).runtime_strings,
            *final(self) == (crate::vm::Vm { arena: final(self).arena, ..*old(self) }),
            final(self).injekt_type_by_subclass == old(self).injekt_type_by_subclass,
    {
        let mut obj = crate::object::Object { class: 0, fields: Vec::new(), native: None };
        self.arena.objects.set_and_swap(o as usize, &mut obj);
        obj
    }

    /// Puts object `obj` (of an existing class) into slot `o`.
    fn put_object(&mut self, o: u32, obj: crate::object::Object)
        requires
            (o as int) < old(self).arena.objects@.len(),
            (obj.class as int) < old(self).classes@.len(),
            old(self).arena.wf(),
            old(self).core_wf() || (forall|k: int| 0 <= k < old(self).arena.objects@.len() && k != o
                ==> ((#[trigger] old(self).arena.objects@[k]).class as int) < old(self).classes@.len()),
        ensures
            final(self).arena.objects@ == old(self).arena.objects@.update(o as int, obj),
            final(self).arena.free == old(self).arena.free,
            final(self).classes == old(self).classes,
            final(self).intern == old(self).intern,
            final(self).dexes == old(self).dexes,
            final(self).hot == old(self).hot,
            final(self).natives == old(self).natives,
            final(self).host_natives == old(self).host_natives,
            final(self).perms == old(self).perms,
            final(self).string_objs == old(self).string_objs,
            final(self).runtime_strings == old(self).runtime_strings,
            *final(self) == (crate::vm::Vm { arena: final(self).arena, ..*old(self) }),
            final(self).injekt_type_by_subclass == old(self).injekt_type_by_subclass,
    {
        self.arena.objects.set(o as usize, obj);
    }
}

/// Everything but the arena is the same, the arena has the same slots and
/// every object keeps its class.
pub open spec fn heap_edit(a: &crate::vm::Vm, b: &crate::vm::Vm) -> bool {
    &&& b.arena.objects@.len() == a.arena.objects@.len()
    &&& b.arena.free == a.arena.free
    &&& forall|k: int| 0 <= k < a.arena.objects@.len() ==> (#[trigger] b.arena.objects@[k]).class == a.arena.objects@[k].class
    &&& b.classes == a.classes
    &&& b.intern == a.intern
    &&& b.dexes == a.dexes
    &&& b.hot == a.hot
    &&& b.natives == a.natives
    &&& b.host_natives == a.host_natives
    &&& b.perms == a.perms
    &&& b.injekt_type_by_subclass == a.injekt_type_by_subclass
}

/// An edit of object contents is running code.
pub proof fn lemma_heap_edit(a: &crate::vm::Vm, b: &crate::vm::Vm)
    requires
        a.wf(),
        heap_edit(a, b),
    ensures
        b.wf(),
        crate::vm::evolves(a, b),
{
    assert forall|o: int| 0 <= o < b.arena.objects@.len() implies ((#[trigger] b.arena.objects@[o]).class as int) < b.classes@.len() by {
        assert(a.arena.objects@[o].class == b.arena.objects@[o].class);
    }
    assert forall|j: int| 0 <= j < a.classes@.len() implies crate::vm::same_shape(a.classes@[j], #[trigger] b.classes@[j]) by {
    }
}

impl crate::vm::Vm {
    /// Stores `v` (narrowed to the element type) at index `i` of the array
    /// held by object `o`.
    pub fn array_store(&mut self, o: u32, i: usize, v: JValue)
        requires
            old(self).wf(),
            (o as int) < old(self).arena.objects@.len(),
            old(self).arena.objects@[o as int].native matches Some(crate::object::Native::Array(a)) && i < crate::object::array_len(a),
        ensures
            heap_edit(old(self), final(self)),
            crate::vm::evolves(old(self), final(self)),
            forall|k: int| 0 <= k < old(self).arena.objects@.len() && k != o ==> final(self).arena.objects@[k] == old(self).arena.objects@[k],
            final(self).arena.objects@[o as int].native matches Some(crate::object::Native::Array(b))
                && old(self).arena.objects@[o as int].native matches Some(crate::object::Native::Array(a))
                && crate::object::same_kind(a, b) && crate::object::array_len(b) == crate::object::array_len(a)
                && crate::object::array_elem(b, i as int) == crate::object::array_store_value(a, v)
                && forall|j: int| 0 <= j < crate::object::array_len(a) && j != i ==> crate::object::array_elem(b, j) == crate::object::array_elem(a, j),
            final(self).string_objs == old(self).string_objs,
            final(self).runtime_strings == old(self).runtime_strings,
    {
        let ghost v0 = *self;
        let mut obj = self.take_object(o);
        match obj.native {
            Some(crate::object::Native::Array(ref mut a)) => {
                a.set(i, v);
            },
            _ => {},
        }
        proof {
            assert(((v0.arena.objects@[o as int]).class as int) < v0.classes@.len());
        }
        self.put_object(o, obj);
        proof {
            assert forall|k: int| 0 <= k < v0.arena.objects@.len() implies (#[trigger] self.arena.objects@[k]).class == v0.arena.objects@[k].class by {
            }
            lemma_heap_edit(&v0, self);
        }
    }
}

/// A step left the VM running and the frame in shape.
/// The step did not return from the method.
pub open spec fn no_return(r: Result<StepOutcome, crate::error::JvmError>) -> bool {
    !(r matches Ok(StepOutcome::Go(Flow::Ret(_))))
}

/// Frames `a` and `b` run the same method.
pub open spec fn same_method(a: Frame, b: Frame) -> bool {
    &&& a.class == b.class
    &&& a.slot == b.slot
    &&& a.dex == b.dex
    &&& a.code == b.code
}

/// The frame at height `i` of the stack `s` with `f` running on top.
pub open spec fn frame_at(s: Seq<Frame>, f: Frame, i: int) -> Frame {
    if i < s.len() { s[i] } else { f }
}

/// Class `class` has a method in slot `slot`.
pub open spec fn method_exists(vm: &crate::vm::Vm, class: u32, slot: u32) -> bool {
    (class as int) < vm.classes@.len() && (slot as int) < vm.classes@[class as int].methods@.len()
}

/// Method `slot` of `class` runs as bytecode: it is neither declared
/// `native` nor implemented by a native.
pub open spec fn runs_bytecode(vm: &crate::vm::Vm, class: u32, slot: u32) -> bool {
    &&& method_exists(vm, class, slot)
    &&& !vm.classes@[class as int].methods@[slot as int].native_decl
    &&& vm.classes@[class as int].methods@[slot as int].native_key is None
}

/// Frame `f` stands at a return instruction that hands back `v`.
pub open spec fn returns_value(f: Frame, v: JValue) -> bool {
    exists|i: int| #[trigger] insn_at(f.code.units@, f.pc as int, i) && i < f.code.insns@.len() && match f.code.insns@[i] {
        Insn::Return(x) => v == f.regs@[x as int],
        Insn::ReturnWide(x) => v == f.regs@[x as int],
        Insn::ReturnVoid => v == JValue::Null,
        _ => false,
    }
}

pub open spec fn step_post(v0: &crate::vm::Vm, v1: &crate::vm::Vm, f0: Frame, f1: Frame) -> bool {
    &&& crate::vm::evolves(v0, v1)
    &&& frame_same(f0, f1)
}

/// Index of the monitor entry of object `o`.
pub open spec fn monitor_index(ms: Seq<(u32, usize)>, o: u32) -> Option<int> {
    if exists|i: int| 0 <= i < ms.len() && ms[i].0 == o {
        Some(choose|i: int| 0 <= i < ms.len() && ms[i].0 == o && forall|j: int| 0 <= j < i ==> ms[j].0 != o)
    } else {
        None
    }
}

/// The monitor table after entering (`enter`) or leaving the monitor of
/// `o`: its count goes up by one (saturating), or down by one with the entry
/// dropped at zero; entering a monitor with no entry adds one with count 1,
/// leaving one changes nothing.
pub open spec fn monitors_after(ms: Seq<(u32, usize)>, o: u32, enter: bool) -> Seq<(u32, usize)> {
    match monitor_index(ms, o) {
        Some(i) => {
            let n = ms[i].1;
            if enter {
                ms.update(i, (o, if n < usize::MAX { (n + 1) as usize } else { n }))
            } else if n <= 1 {
                ms.remove(i)
            } else {
                ms.update(i, (o, (n - 1) as usize))
            }
        },
        None => if enter { ms.push((o, 1usize)) } else { ms },
    }
}

proof fn lemma_monitor_index(ms: Seq<(u32, usize)>, o: u32, i: int)
    requires
        0 <= i < ms.len(),
        ms[i].0 == o,
        forall|j: int| 0 <= j < i ==> ms[j].0 != o,
    ensures
        monitor_index(ms, o) == Some(i),
{
    let k = choose|k: int| 0 <= k < ms.len() && ms[k].0 == o && forall|j: int| 0 <= j < k ==> ms[j].0 != o;
    if k < i {
    } else if k > i {
        assert(ms[i].0 != o);
    }
}

impl crate::vm::Vm {
    /// An exception object freshly allocated by `make`.
    fn thrown(id: u32) -> (r: StepOutcome)
        ensures
            r == StepOutcome::Throw(JValue::Obj(id)),
    {
        StepOutcome::Throw(JValue::Obj(id))
    }

    /// A null-pointer exception outcome.
    fn throw_npe(&mut self) -> (r: Result<StepOutcome, crate::error::JvmError>)
        requires
            old(self).wf(),
        ensures
            no_return(r),
            crate::vm::evolves(old(self), final(self)),
            r matches Ok(StepOutcome::Throw(JValue::Obj(_))),
    {
        let ghost v0 = *self;
        let e = self.err_npe();
        proof { crate::vm::lemma_grows_evolves(&v0, self); }
        Ok(Self::thrown(e))
    }

    /// Array and monitor instructions, and `throw`.
    #[verifier::loop_isolation(false)]
    #[verifier::rlimit(40)]
    fn step_heap(&mut self, f: &mut Frame, insn: Insn, next: usize) -> (r: Result<StepOutcome, crate::error::JvmError>)
        requires
            old(self).wf(),
            frame_ok(*old(f)),
            insn_fits(insn, old(f).regs@.len() as int, old(f).code.switches@.len() as int, old(f).code.arrays@.len() as int),
        ensures
            no_return(r),
            step_post(old(self), final(self), *old(f), *final(f)),
            final(f).err_pc == old(f).err_pc,
    {
        let ghost v0 = *self;
        match insn {
            Insn::AGet(_, d, a, i) => {
                let arr = match f.regs[a as usize] {
                    JValue::Obj(o) => o,
                    _ => return self.throw_npe(),
                };
                let idx = f.regs[i as usize].as_int();
                if (arr as usize) >= self.arena.objects.len() {
                    proof { crate::vm::lemma_evolves_refl(self); }
                    return Err(crate::error::JvmError::Fatal(String::from_str("dangling array reference")));
                }
                let len = match &self.arena.objects[arr as usize].native {
                    Some(crate::object::Native::Array(x)) => x.len(),
                    _ => return self.throw_npe(),
                };
                if idx < 0 || idx as usize >= len {
                    let e = self.err_aioobe(idx, len as i32);
                    proof { crate::vm::lemma_grows_evolves(&v0, self); }
                    return Ok(Self::thrown(e));
                }
                let v = match &self.arena.objects[arr as usize].native {
                    Some(crate::object::Native::Array(x)) => x.get(idx as usize),
                    _ => JValue::Null,
                };
                f.set_reg(d, v);
                proof { crate::vm::lemma_evolves_refl(self); }
                Ok(StepOutcome::Go(Flow::Next(next)))
            },
            Insn::APut(_, src, a, i) => {
                let arr = match f.regs[a as usize] {
                    JValue::Obj(o) => o,
                    _ => return self.throw_npe(),
                };
                let idx = f.regs[i as usize].as_int();
                let v = f.regs[src as usize];
                if (arr as usize) >= self.arena.objects.len() {
                    proof { crate::vm::lemma_evolves_refl(self); }
                    return Err(crate::error::JvmError::Fatal(String::from_str("dangling array reference")));
                }
                let (len, is_obj) = match &self.arena.objects[arr as usize].native {
                    Some(crate::object::Native::Array(x)) => (x.len(), match x {
                        crate::object::ArrayData::Obj(_) => true,
                        _ => false,
                    }),
                    _ => return self.throw_npe(),
                };
                if idx < 0 || idx as usize >= len {
                    let e = self.err_aioobe(idx, len as i32);
                    proof { crate::vm::lemma_grows_evolves(&v0, self); }
                    return Ok(Self::thrown(e));
                }
                let stored = if is_obj && v.is_null_ref() { JValue::Null } else { v };
                self.array_store(arr, idx as usize, stored);
                Ok(StepOutcome::Go(Flow::Next(next)))
            },
            Insn::ArrayLength(d, src) => {
                let o = match f.regs[src as usize] {
                    JValue::Obj(o) => o,
                    _ => return self.throw_npe(),
                };
                proof { crate::vm::lemma_evolves_refl(self); }
                if (o as usize) >= self.arena.objects.len() {
                    return Err(crate::error::JvmError::Fatal(String::from_str("dangling array reference")));
                }
                let len = match &self.arena.objects[o as usize].native {
                    Some(crate::object::Native::Array(x)) => x.len(),
                    _ => return Err(crate::error::JvmError::Fatal(String::from_str("array-length on non-array"))),
                };
                f.set_reg(d, JValue::Int(len as i32));
                Ok(StepOutcome::Go(Flow::Next(next)))
            },
            Insn::FillArrayData(d, t) => {
                let o = match f.regs[d as usize] {
                    JValue::Obj(o) => o,
                    _ => return self.throw_npe(),
                };
                if (o as usize) >= self.arena.objects.len() {
                    proof { crate::vm::lemma_evolves_refl(self); }
                    return Err(crate::error::JvmError::Fatal(String::from_str("dangling array reference")));
                }
                let values = fill_values(&f.code.arrays[t as usize]);
                let len = match &self.arena.objects[o as usize].native {
                    Some(crate::object::Native::Array(x)) => x.len(),
                    _ => {
                        proof { crate::vm::lemma_evolves_refl(self); }
                        return Err(crate::error::JvmError::Fatal(String::from_str("fill-array on non-array")));
                    },
                };
                if values.len() > len {
                    proof { crate::vm::lemma_evolves_refl(self); }
                    return Err(crate::error::JvmError::Fatal(String::from_str("fill-array too long")));
                }
                let mut k: usize = 0;
                proof { crate::vm::lemma_evolves_refl(self); }
                while k < values.len()
                    invariant
                        crate::vm::evolves(&v0, self),
                        (o as int) < self.arena.objects@.len(),
                        self.arena.objects@[o as int].native matches Some(crate::object::Native::Array(x)) && crate::object::array_len(x) == len,
                        values@.len() <= len,
                    decreases values@.len() - k,
                {
                    let ghost v1 = *self;
                    self.array_store(o, k, values[k]);
                    proof { crate::vm::lemma_evolves_trans(&v0, &v1, self); }
                    k += 1;
                }
                Ok(StepOutcome::Go(Flow::Next(next)))
            },
            Insn::MonitorEnter(d) | Insn::MonitorExit(d) => {
                let o = match f.regs[d as usize] {
                    JValue::Obj(o) => o,
                    _ => return self.throw_npe(),
                };
                let enter = match insn {
                    Insn::MonitorEnter(_) => true,
                    _ => false,
                };
                self.monitor_update(o, enter);
                proof { crate::vm::lemma_evolves_refl(self); }
                Ok(StepOutcome::Go(Flow::Next(next)))
            },
            Insn::Throw(d) => {
                let v = f.regs[d as usize];
                if v.is_null_ref() {
                    return self.throw_npe();
                }
                proof { crate::vm::lemma_evolves_refl(self); }
                Ok(StepOutcome::Throw(v))
            },
            _ => {
                proof { crate::vm::lemma_evolves_refl(self); }
                Err(crate::error::JvmError::Fatal(String::from_str("instruction not handled here")))
            },
        }
    }

    /// Enters (or leaves) the monitor of object `o`: the count goes up by
    /// one, or down by one with the entry dropped at zero.
    pub fn monitor_update(&mut self, o: u32, enter: bool)
        ensures
            *final(self) == (crate::vm::Vm { monitors: final(self).monitors, ..*old(self) }),
            final(self).monitors@ == monitors_after(old(self).monitors@, o, enter),
    {
        let mut i: usize = 0;
        while i < self.monitors.len()
            invariant
                *self == *old(self),
                i <= self.monitors@.len(),
                forall|j: int| 0 <= j < i ==> self.monitors@[j].0 != o,
            decreases self.monitors@.len() - i,
        {
            if self.monitors[i].0 == o {
                proof {
                    lemma_monitor_index(self.monitors@, o, i as int);
                }
                let n = self.monitors[i].1;
                if enter {
                    let m = if n < usize::MAX { n + 1 } else { n };
                    self.monitors.set(i, (o, m));
                } else {
                    let m = if n > 0 { n - 1 } else { 0 };
                    if m == 0 {
                        self.monitors.remove(i);
                    } else {
                        self.monitors.set(i, (o, m));
                    }
                }
                return;
            }
            i += 1;
        }
        if enter {
            self.monitors.push((o, 1));
        }
    }
}

/// The register values of a `fill-array-data` payload: bytes sign-extended,
/// shorts and chars widened, ints as they are, wide words as longs.
pub open spec fn fill_spec(data: crate::insn::FillArray) -> Seq<JValue> {
    match data {
        crate::insn::FillArray::Byte(v) => v@.map_values(|x: u8| JValue::Int(x as i8 as i32)),
        crate::insn::FillArray::Short(v) => v@.map_values(|x: i16| JValue::Int(x as i32)),
        crate::insn::FillArray::Char(v) => v@.map_values(|x: u16| JValue::Int(x as i32)),
        crate::insn::FillArray::Int(v) => v@.map_values(|x: u32| JValue::Int(x as i32)),
        crate::insn::FillArray::Wide(v) => v@.map_values(|x: u64| JValue::Long(x as i64)),
    }
}

pub fn fill_values(data: &crate::insn::FillArray) -> (r: Vec<JValue>)
    ensures
        r@ == fill_spec(*data),
{
    let mut out: Vec<JValue> = Vec::new();
    match data {
        crate::insn::FillArray::Byte(v) => {
            let mut i: usize = 0;
            while i < v.len()
                invariant
                    i <= v@.len(),
                    out@ =~= v@.take(i as int).map_values(|x: u8| JValue::Int(x as i8 as i32)),
                decreases v@.len() - i,
            {
                out.push(JValue::Int(#[verifier::truncate] (v[i] as i8) as i32));
                proof {
                    assert(v@.take(i + 1) =~= v@.take(i as int).push(v@[i as int]));
                }
                i += 1;
            }
            proof { assert(v@.take(v@.len() as int) =~= v@); }
        },
        crate::insn::FillArray::Short(v) => {
            let mut i: usize = 0;
            while i < v.len()
                invariant
                    i <= v@.len(),
                    out@ =~= v@.take(i as int).map_values(|x: i16| JValue::Int(x as i32)),
                decreases v@.len() - i,
            {
                out.push(JValue::Int(v[i] as i32));
                proof {
                    assert(v@.take(i + 1) =~= v@.take(i as int).push(v@[i as int]));
                }
                i += 1;
            }
            proof { assert(v@.take(v@.len() as int) =~= v@); }
        },
        crate::insn::FillArray::Char(v) => {
            let mut i: usize = 0;
            while i < v.len()
                invariant
                    i <= v@.len(),
                    out@ =~= v@.take(i as int).map_values(|x: u16| JValue::Int(x as i32)),
                decreases v@.len() - i,
            {
                out.push(JValue::Int(v[i] as i32));
                proof {
                    assert(v@.take(i + 1) =~= v@.take(i as int).push(v@[i as int]));
                }
                i += 1;
            }
            proof { assert(v@.take(v@.len() as int) =~= v@); }
        },
        crate::insn::FillArray::Int(v) => {
            let mut i: usize = 0;
            while i < v.len()
                invariant
                    i <= v@.len(),
                    out@ =~= v@.take(i as int).map_values(|x: u32| JValue::Int(x as i32)),
                decreases v@.len() - i,
            {
                out.push(JValue::Int(#[verifier::truncate] (v[i] as i32)));
                proof {
                    assert(v@.take(i + 1) =~= v@.take(i as int).push(v@[i as int]));
                }
                i += 1;
            }
            proof { assert(v@.take(v@.len() as int) =~= v@); }
        },
        crate::insn::FillArray::Wide(v) => {
            let mut i: usize = 0;
            while i < v.len()
                invariant
                    i <= v@.len(),
                    out@ =~= v@.take(i as int).map_values(|x: u64| JValue::Long(x as i64)),
                decreases v@.len() - i,
            {
                out.push(JValue::Long(#[verifier::truncate] (v[i] as i64)));
                proof {
                    assert(v@.take(i + 1) =~= v@.take(i as int).push(v@[i as int]));
                }
                i += 1;
            }
            proof { assert(v@.take(v@.len() as int) =~= v@); }
        },
    }
    out
}

impl crate::vm::Vm {
    /// Type-table and allocation instructions: constants of class and
    /// string objects, casts and `instanceof`, new instances and arrays.
    #[verifier::loop_isolation(false)]
    #[verifier::rlimit(60)]
    fn step_class(&mut self, f: &mut Frame, insn: Insn, next: usize) -> (r: Result<StepOutcome, crate::error::JvmError>)
        requires
            old(self).wf(),
            frame_ok(*old(f)),
            (old(f).dex as int) < old(self).dexes@.len(),
            insn_fits(insn, old(f).regs@.len() as int, old(f).code.switches@.len() as int, old(f).code.arrays@.len() as int),
        ensures
            no_return(r),
            step_post(old(self), final(self), *old(f), *final(f)),
            final(f).err_pc == old(f).err_pc,
    {
        let ghost v0 = *self;
        let dex = f.dex;
        match insn {
            Insn::ConstString(d, sid) => {
                let v = self.dex_string(dex, sid)?;
                f.set_reg(d, v);
                Ok(StepOutcome::Go(Flow::Next(next)))
            },
            Insn::ConstClass(d, tid) => {
                let c = self.ensure_class_by_type(dex, tid);
                proof { crate::vm::lemma_grows_evolves(&v0, self); }
                let c = c?;
                let ghost v1 = *self;
                let v = self.class_obj(c);
                proof { crate::vm::lemma_evolves_trans(&v0, &v1, self); }
                let v = v?;
                f.set_reg(d, v);
                Ok(StepOutcome::Go(Flow::Next(next)))
            },
            Insn::CheckCast(d, tid) => {
                let target = self.ensure_class_by_type(dex, tid);
                proof { crate::vm::lemma_grows_evolves(&v0, self); }
                let target = target?;
                match f.regs[d as usize] {
                    JValue::Obj(o) => {
                        if (o as usize) >= self.arena.objects.len() {
                            return Err(crate::error::JvmError::Fatal(String::from_str("dangling reference")));
                        }
                        let oc = self.arena.objects[o as usize].class;
                        let ghost v1 = *self;
                        let ok = self.is_assignable(oc, target);
                        proof {
                            crate::vm::lemma_grows_evolves(&v1, self);
                            crate::vm::lemma_evolves_trans(&v0, &v1, self);
                        }
                        let ok = ok?;
                        if !ok {
                            let mut msg = self.class_desc_str(oc);
                            msg.append(" cannot be cast to ");
                            msg.append(self.dexes[dex as usize].type_descriptor(tid));
                            let ghost v2 = *self;
                            let e = self.err_cce(msg.as_str());
                            proof {
                                crate::vm::lemma_grows_evolves(&v2, self);
                                crate::vm::lemma_evolves_trans(&v0, &v2, self);
                            }
                            return Ok(Self::thrown(e));
                        }
                        Ok(StepOutcome::Go(Flow::Next(next)))
                    },
                    _ => Ok(StepOutcome::Go(Flow::Next(next))),
                }
            },
            Insn::InstanceOf(d, src, tid) => {
                let target = self.ensure_class_by_type(dex, tid);
                proof { crate::vm::lemma_grows_evolves(&v0, self); }
                let target = target?;
                let r = match f.regs[src as usize] {
                    JValue::Obj(o) => {
                        if (o as usize) >= self.arena.objects.len() {
                            return Err(crate::error::JvmError::Fatal(String::from_str("dangling reference")));
                        }
                        let oc = self.arena.objects[o as usize].class;
                        let ghost v1 = *self;
                        let ok = self.is_assignable(oc, target);
                        proof {
                            crate::vm::lemma_grows_evolves(&v1, self);
                            crate::vm::lemma_evolves_trans(&v0, &v1, self);
                        }
                        ok?
                    },
                    _ => false,
                };
                f.set_reg(d, JValue::Int(if r { 1 } else { 0 }));
                Ok(StepOutcome::Go(Flow::Next(next)))
            },
            Insn::NewInstance(d, tid) => {
                let c = self.ensure_class_by_type(dex, tid);
                proof { crate::vm::lemma_grows_evolves(&v0, self); }
                let c = c?;
                let n = self.classes[c as usize].field_offsets.len();
                let fields = crate::object::filled(JValue::Null, n);
                let ghost v1 = *self;
                match self.alloc_obj(c, fields, None) {
                    Some(o) => {
                        proof {
                            crate::vm::lemma_grows_evolves(&v1, self);
                            crate::vm::lemma_evolves_trans(&v0, &v1, self);
                        }
                        f.set_reg(d, JValue::Obj(o));
                        Ok(StepOutcome::Go(Flow::Next(next)))
                    },
                    None => Err(crate::error::JvmError::Fatal(String::from_str("heap exhausted"))),
                }
            },
            Insn::NewArray(d, size_reg, tid) => {
                let n = f.regs[size_reg as usize].as_int();
                if n < 0 {
                    let e = self.err_neg_arr_size();
                    proof { crate::vm::lemma_grows_evolves(&v0, self); }
                    return Ok(Self::thrown(e));
                }
                self.new_array_into(f, d, tid, n as usize, None, next)
            },
            Insn::FilledNewArray(args, tid) => {
                let count = args.len();
                self.new_array_into(f, 0, tid, count, Some(args), next)
            },
            _ => {
                proof { crate::vm::lemma_evolves_refl(self); }
                Err(crate::error::JvmError::Fatal(String::from_str("instruction not handled here")))
            },
        }
    }

    /// Allocates an array of dex type `tid` with `n` elements: zero-filled
    /// into register `d`, or, for `filled-new-array`, holding the argument
    /// registers' values into the frame's result.
    #[verifier::loop_isolation(false)]
    #[verifier::rlimit(40)]
    fn new_array_into(&mut self, f: &mut Frame, d: u16, tid: u32, n: usize, filled_from: Option<Args>, next: usize)
        -> (r: Result<StepOutcome, crate::error::JvmError>)
        requires
            old(self).wf(),
            frame_ok(*old(f)),
            (old(f).dex as int) < old(self).dexes@.len(),
            filled_from is None ==> (d as int) < old(f).regs@.len(),
            filled_from matches Some(a) ==> args_fit(a, old(f).regs@.len() as int) && n == a.len_spec(),
        ensures
            no_return(r),
            step_post(old(self), final(self), *old(f), *final(f)),
            final(f).err_pc == old(f).err_pc,
    {
        let ghost v0 = *self;
        let dex = f.dex;
        let desc = crate::value::to_owned_string(self.dexes[dex as usize].type_descriptor(tid));
        let is_arr = crate::value::first_char(desc.as_str()) == Some('[');
        let len = desc.unicode_len();
        let elem = if is_arr { crate::value::to_owned_string(desc.as_str().substring_char(1, len)) } else {
            crate::value::to_owned_string(desc.as_str())
        };
        let inner_tid = if is_arr {
            match self.dexes[dex as usize].type_id_of(elem.as_str()) {
                Some(t) => t,
                None => tid,
            }
        } else {
            tid
        };
        let arr_class = self.array_class(dex, inner_tid);
        proof { crate::vm::lemma_grows_evolves(&v0, self); }
        let arr_class = arr_class?;
        let mut data = crate::object::ArrayData::new(elem.as_str(), n);
        match filled_from {
            Some(args) => {
                let wide = crate::value::is_wide_desc(elem.as_str());
                let mut ri: usize = 0;
                let mut i: usize = 0;
                while i < n
                    invariant
                        crate::object::array_len(data) == n,
                        frame_ok(*f),
                        args_fit(args, f.regs@.len() as int),
                        n == args.len_spec(),
                    decreases n - i,
                {
                    if ri >= n {
                        return Err(crate::error::JvmError::Fatal(String::from_str("filled-new-array of wide values")));
                    }
                    let reg = args.reg_at(ri);
                    data.set(i, f.regs[reg]);
                    ri = ri + 1;
                    if wide {
                        ri = ri + 1;
                    }
                    i += 1;
                }
            },
            None => {},
        }
        let ghost v1 = *self;
        match self.alloc_obj(arr_class, Vec::new(), Some(crate::object::Native::Array(data))) {
            Some(o) => {
                proof {
                    crate::vm::lemma_grows_evolves(&v1, self);
                    crate::vm::lemma_evolves_trans(&v0, &v1, self);
                }
                match filled_from {
                    Some(_) => { f.result = JValue::Obj(o); },
                    None => { f.set_reg(d, JValue::Obj(o)); },
                }
                Ok(StepOutcome::Go(Flow::Next(next)))
            },
            None => Err(crate::error::JvmError::Fatal(String::from_str("heap exhausted"))),
        }
    }
}

impl crate::vm::Vm {
    /// The value an `iput-object` stores into a field of type `ty`: a
    /// primitive register value is boxed into the field's box type.
    fn field_store_value(&mut self, ty: u32, v: JValue) -> (r: Result<JValue, crate::error::JvmError>)
        requires
            old(self).wf(),
        ensures
            crate::vm::evolves(old(self), final(self)),
            v.is_null_ref_spec() ==> r == Ok::<JValue, crate::error::JvmError>(JValue::Null) && *final(self) == *old(self),
    {
        if v.is_null_ref() {
            proof { crate::vm::lemma_evolves_refl(self); }
            return Ok(JValue::Null);
        }
        if (ty as usize) >= self.intern.len() {
            proof { crate::vm::lemma_evolves_refl(self); }
            return Ok(v);
        }
        let t = crate::value::to_owned_string(self.intern[ty as usize].as_str());
        let t = t.as_str();
        let boxed = match v {
            JValue::Int(i) => {
                if crate::value::str_eq(t, "Ljava/lang/Integer;") { Some(crate::object::Native::IntBox(i)) }
                else if crate::value::str_eq(t, "Ljava/lang/Boolean;") { Some(crate::object::Native::BoolBox(i != 0)) }
                else if crate::value::str_eq(t, "Ljava/lang/Character;") { Some(crate::object::Native::CharBox(i as u16)) }
                else if crate::value::str_eq(t, "Ljava/lang/Byte;") { Some(crate::object::Native::ByteBox(i as i8)) }
                else if crate::value::str_eq(t, "Ljava/lang/Short;") { Some(crate::object::Native::ShortBox(i as i16)) }
                else { None }
            },
            JValue::Long(l) => if crate::value::str_eq(t, "Ljava/lang/Long;") { Some(crate::object::Native::LongBox(l)) } else { None },
            JValue::Float(b) => if crate::value::str_eq(t, "Ljava/lang/Float;") { Some(crate::object::Native::FloatBox(b)) } else { None },
            _ => None,
        };
        match boxed {
            Some(n) => self.alloc_native(t, n),
            None => {
                proof { crate::vm::lemma_evolves_refl(self); }
                Ok(v)
            },
        }
    }

    /// Static and instance field instructions.
    #[verifier::loop_isolation(false)]
    #[verifier::rlimit(60)]
    fn step_field(&mut self, f: &mut Frame, insn: Insn, next: usize) -> (r: Result<StepOutcome, crate::error::JvmError>)
        requires
            old(self).wf(),
            frame_ok(*old(f)),
            (old(f).dex as int) < old(self).dexes@.len(),
            insn_fits(insn, old(f).regs@.len() as int, old(f).code.switches@.len() as int, old(f).code.arrays@.len() as int),
        ensures
            no_return(r),
            step_post(old(self), final(self), *old(f), *final(f)),
            final(f).err_pc == old(f).err_pc,
    {
        let ghost v0 = *self;
        let dex = f.dex;
        match insn {
            Insn::SGet(_, d, fidx) | Insn::SPut(_, d, fidx) => {
                let fr = self.field_ref(dex, fidx);
                proof { crate::vm::lemma_grows_evolves(&v0, self); }
                let fr = fr?;
                let ghost v1 = *self;
                let acc = self.static_access(fr);
                proof { crate::vm::lemma_evolves_trans(&v0, &v1, self); }
                let (owner, off) = acc?;
                let ghost v2 = *self;
                match self.ensure_class_initialized(owner) {
                    Some(slot) => {
                        proof { crate::vm::lemma_evolves_trans(&v0, &v2, self); }
                        return Ok(StepOutcome::Init(owner, slot));
                    },
                    None => {},
                }
                proof { crate::vm::lemma_evolves_trans(&v0, &v2, self); }
                let ghost v3 = *self;
                match insn {
                    Insn::SGet(..) => {
                        let v = self.static_read(owner, off);
                        proof { crate::vm::lemma_evolves_trans(&v0, &v3, self); }
                        f.set_reg(d, v);
                    },
                    _ => {
                        let v = f.regs[d as usize];
                        self.set_static(owner, off, v);
                        proof { crate::vm::lemma_evolves_trans(&v0, &v3, self); }
                    },
                }
                Ok(StepOutcome::Go(Flow::Next(next)))
            },
            Insn::IGet(_, d, obj, fidx) | Insn::IPut(_, d, obj, fidx) => {
                let o = match f.regs[obj as usize] {
                    JValue::Obj(o) => o,
                    _ => return self.throw_npe(),
                };
                if (o as usize) >= self.arena.objects.len() {
                    proof { crate::vm::lemma_evolves_refl(self); }
                    return Err(crate::error::JvmError::Fatal(String::from_str("dangling reference")));
                }
                let oc = self.arena.objects[o as usize].class;
                let fr = self.field_ref(dex, fidx);
                proof { crate::vm::lemma_grows_evolves(&v0, self); }
                let fr = fr?;
                let off = match self.field_offset(oc, fr.name, fr.ty) {
                    Some(off) => off,
                    None => return Err(crate::error::JvmError::Resolution(String::from_str("no such instance field"))),
                };
                if (off as usize) >= self.arena.objects[o as usize].fields.len() {
                    return Err(crate::error::JvmError::Fatal(String::from_str("field slot missing")));
                }
                match insn {
                    Insn::IGet(..) => {
                        let fv = self.arena.objects[o as usize].fields[off as usize];
                        f.set_reg(d, fv);
                    },
                    _ => {
                        let v = f.regs[d as usize];
                        let is_obj = match insn {
                            Insn::IPut(Width::Obj, ..) => true,
                            _ => false,
                        };
                        let ghost v1 = *self;
                        let stored = if is_obj {
                            let s = self.field_store_value(fr.ty, v);
                            proof { crate::vm::lemma_evolves_trans(&v0, &v1, self); }
                            s?
                        } else {
                            v
                        };
                        let ghost v2 = *self;
                        if (o as usize) >= self.arena.objects.len() || (off as usize) >= self.arena.objects[o as usize].fields.len() {
                            return Err(crate::error::JvmError::Fatal(String::from_str("field slot missing")));
                        }
                        let mut ob = self.take_object(o);
                        ob.fields.set(off as usize, stored);
                        proof { assert(((v2.arena.objects@[o as int]).class as int) < v2.classes@.len()); }
                        self.put_object(o, ob);
                        proof {
                            assert forall|k: int| 0 <= k < v2.arena.objects@.len() implies (#[trigger] self.arena.objects@[k]).class == v2.arena.objects@[k].class by {
                            }
                            lemma_heap_edit(&v2, self);
                            crate::vm::lemma_evolves_trans(&v0, &v2, self);
                        }
                    },
                }
                Ok(StepOutcome::Go(Flow::Next(next)))
            },
            _ => {
                proof { crate::vm::lemma_evolves_refl(self); }
                Err(crate::error::JvmError::Fatal(String::from_str("instruction not handled here")))
            },
        }
    }
}

/// Index of the instruction at code-unit address `pc`: the last one whose
/// address is at most `pc` (the first one if none is).
pub open spec fn insn_at(units: Seq<u32>, pc: int, i: int) -> bool {
    &&& 0 <= i < units.len()
    &&& (i == 0 || units[i] <= pc)
    &&& (i + 1 >= units.len() || units[i + 1] > pc)
}

/// Addresses ascend strictly.
pub open spec fn ascending(units: Seq<u32>) -> bool {
    forall|i: int, j: int| 0 <= i < j < units.len() ==> units[i] < units[j]
}

/// With ascending addresses, the instruction at `pc` is unique.
pub proof fn lemma_insn_at_unique(units: Seq<u32>, pc: int, i: int, j: int)
    requires
        ascending(units),
        insn_at(units, pc, i),
        insn_at(units, pc, j),
    ensures
        i == j,
{
    if i < j {
        assert(units[i + 1] > pc);
        if i + 1 < j {
            assert(units[i + 1] < units[j]);
        }
    } else if j < i {
        assert(units[j + 1] > pc);
        if j + 1 < i {
            assert(units[j + 1] < units[i]);
        }
    }
}

/// The address after instruction `i`.
pub open spec fn next_of(c: CodeItem, i: int) -> usize {
    (if i + 1 < c.units@.len() { c.units@[i + 1] as int } else { c.words as int }) as usize
}

/// The register a plain register instruction writes, and the value.
pub open spec fn reg_write(insn: Insn, regs: Seq<JValue>, result: JValue) -> Option<(int, JValue)> {
    match insn {
        Insn::Move(d, s) => Some((d as int, regs[s as int])),
        Insn::Const(d, lit) => Some((d as int, JValue::Int(lit))),
        Insn::ConstHigh16(d, lit) => Some((d as int, JValue::Int(vstd::wrapping::i32_specs::wrapping_shl(lit, 16)))),
        Insn::ConstWide(d, lit) => Some((d as int, JValue::Long(lit))),
        Insn::MoveResult(d) => Some((d as int, result)),
        Insn::MoveException(d) => Some((d as int, regs[0])),
        Insn::Unop(op, d, s) => match unop_spec(op, regs[s as int]) {
            Some(v) => Some((d as int, v)),
            None => None,
        },
        Insn::Binop(op, d, a, b) => match binop_spec(op, regs[a as int], regs[b as int]) {
            BinopEnd::Value(v) => Some((d as int, v)),
            _ => None,
        },
        Insn::BinopLit(op, d, a, lit) => match (if op == LitOp::Rsub { binop_spec(op.binop_spec(), JValue::Int(lit), regs[a as int]) }
            else { binop_spec(op.binop_spec(), regs[a as int], JValue::Int(lit)) }) {
            BinopEnd::Value(v) => Some((d as int, v)),
            _ => None,
        },
        Insn::Compare(op, d, a, b) => match compare_spec(op, regs[a as int], regs[b as int]) {
            Some(c) => Some((d as int, JValue::Int(c))),
            None => None,
        },
        _ => None,
    }
}

/// Where a branch goes when it is decided without the host: `Some(t)` to
/// address `t`, `None` to the next instruction.
pub open spec fn branch_to(insn: Insn, regs: Seq<JValue>) -> Option<Option<u32>> {
    match insn {
        Insn::Goto(t) => Some(Some(t)),
        Insn::If(op, a, b, t) => match if_spec(op, regs[a as int], regs[b as int]) {
            Some(c) => Some(if c { Some(t) } else { None }),
            None => None,
        },
        Insn::IfZ(op, a, t) => match ifz_spec(op, regs[a as int]) {
            Some(c) => Some(if c { Some(t) } else { None }),
            None => None,
        },
        _ => None,
    }
}

/// The index of the instruction at address `pc` (binary search).
pub fn find_insn(units: &Vec<u32>, pc: usize) -> (r: usize)
    requires
        units@.len() > 0,
        ascending(units@),
    ensures
        insn_at(units@, pc as int, r as int),
{
    let mut lo: usize = 0;
    let mut hi: usize = units.len();
    while lo < hi
        invariant
            0 <= lo <= hi <= units@.len(),
            ascending(units@),
            forall|k: int| 0 <= k < lo ==> units@[k] <= pc,
            forall|k: int| hi <= k < units@.len() ==> units@[k] > pc,
        decreases hi - lo,
    {
        let mid = lo + (hi - lo) / 2;
        if (units[mid] as usize) <= pc {
            lo = mid + 1;
        } else {
            hi = mid;
        }
    }
    if lo == 0 { 0 } else { lo - 1 }
}

/// Whether addresses ascend strictly.
pub fn ascending_exec(units: &Vec<u32>) -> (r: bool)
    ensures
        r == ascending(units@),
{
    let mut i: usize = 1;
    if units.len() == 0 {
        return true;
    }
    while i < units.len()
        invariant
            1 <= i <= units@.len(),
            forall|a: int, b: int| 0 <= a < b < i ==> units@[a] < units@[b],
        decreases units@.len() - i,
    {
        if units[i - 1] >= units[i] {
            return false;
        }
        proof {
            assert forall|a: int, b: int| 0 <= a < b < i + 1 implies units@[a] < units@[b] by {
                if b == i && a < i - 1 {
                    assert(units@[a] < units@[i - 1]);
                }
            }
        }
        i += 1;
    }
    true
}

impl crate::vm::Vm {
    /// Method invocation: resolves the target (receiver checked for null),
    /// starts class initialization for a static call into bytecode, and
    /// hands the call to the run loop.
    #[verifier::rlimit(40)]
    fn step_invoke(&mut self, f: &mut Frame, kind: InvokeKind, midx: u32, args: Args, next: usize)
        -> (r: Result<StepOutcome, crate::error::JvmError>)
        requires
            old(self).wf(),
            frame_ok(*old(f)),
            (old(f).dex as int) < old(self).dexes@.len(),
            args_fit(args, old(f).regs@.len() as int),
        ensures
            no_return(r),
            step_post(old(self), final(self), *old(f), *final(f)),
            final(f).err_pc == old(f).err_pc,
            r matches Ok(StepOutcome::Go(Flow::Call(k, _, _, a, p))) ==> k == kind && p == next,
    {
        let ghost v0 = *self;
        let mref = self.method_ref(f.dex, midx);
        proof { crate::vm::lemma_grows_evolves(&v0, self); }
        let mref = mref?;
        let receiver = if kind == InvokeKind::Static {
            None
        } else {
            if args.len() == 0 {
                return Err(crate::error::JvmError::Fatal(String::from_str("invoke without a receiver")));
            }
            let r = f.regs[args.reg_at(0)];
            if r.is_null_ref() {
                let ghost v1 = *self;
                let t = self.throw_npe();
                proof { crate::vm::lemma_evolves_trans(&v0, &v1, self); }
                return t;
            }
            match r {
                JValue::Obj(o) => Some(o),
                _ => return Err(crate::error::JvmError::Fatal(String::from_str("receiver is not an object"))),
            }
        };
        let ghost v1 = *self;
        let target = self.resolve_target(kind, &mref, receiver, f.class);
        proof {
            crate::vm::lemma_grows_evolves(&v1, self);
            crate::vm::lemma_evolves_trans(&v0, &v1, self);
        }
        let target = target?;
        if kind == InvokeKind::Static {
            match target {
                Target::Bytecode { class, .. } => {
                    if (class as usize) < self.classes.len() {
                        let ghost v2 = *self;
                        let init = self.ensure_class_initialized(class);
                        proof { crate::vm::lemma_evolves_trans(&v0, &v2, self); }
                        match init {
                            Some(slot) => return Ok(StepOutcome::Init(class, slot)),
                            None => {},
                        }
                    }
                },
                _ => {},
            }
        }
        Ok(StepOutcome::Go(Flow::Call(kind, mref, target, args, next)))
    }

    /// Executes the instruction at the frame's `pc`.
    #[verifier::loop_isolation(false)]
    #[verifier::rlimit(80)]
    pub fn step(&mut self, f: &mut Frame) -> (r: Result<StepOutcome, crate::error::JvmError>)
        requires
            old(self).wf(),
            frame_ok(*old(f)),
            (old(f).dex as int) < old(self).dexes@.len(),
        ensures
            step_post(old(self), final(self), *old(f), *final(f)),
            r is Ok ==> final(f).err_pc == old(f).pc,
            r matches Ok(StepOutcome::Go(Flow::Ret(v))) ==> returns_value(*old(f), v),
            forall|i: int| #[trigger] insn_at(old(f).code.units@, old(f).pc as int, i) && old(f).pc < old(f).code.words ==> {
                let insn = old(f).code.insns@[i];
                &&& (reg_write(insn, old(f).regs@, old(f).result) matches Some((d, v)) ==> *final(self) == *old(self)
                    && final(f).regs@ == old(f).regs@.update(d, v)
                    && r == Ok::<StepOutcome, crate::error::JvmError>(StepOutcome::Go(Flow::Next(next_of(old(f).code, i)))))
                &&& (branch_to(insn, old(f).regs@) matches Some(b) ==> *final(self) == *old(self) && final(f).regs@ == old(f).regs@
                    && r == Ok::<StepOutcome, crate::error::JvmError>(StepOutcome::Go(match b {
                        Some(t) => Flow::Jump(t as usize),
                        None => Flow::Next(next_of(old(f).code, i)),
                    })))
                &&& (insn matches Insn::Return(v) ==> r == Ok::<StepOutcome, crate::error::JvmError>(StepOutcome::Go(Flow::Ret(old(f).regs@[v as int]))))
                &&& (insn matches Insn::ReturnVoid ==> r == Ok::<StepOutcome, crate::error::JvmError>(StepOutcome::Go(Flow::Ret(JValue::Null))))
            },
    {
        let ghost v0 = *self;
        let ghost f0 = *f;
        let n = f.code.insns.len();
        if f.pc >= f.code.words as usize || n == 0 {
            proof { crate::vm::lemma_evolves_refl(self); }
            return Err(crate::error::JvmError::Fatal(String::from_str("pc past end of method")));
        }
        f.err_pc = f.pc;
        let idx = find_insn(&f.code.units, f.pc);
        let next: usize = if idx + 1 < n { f.code.units[idx + 1] as usize } else { f.code.words as usize };
        let insn = f.code.insns[idx];
        proof {
            assert(insn_fits(f.code.insns@[idx as int], f.regs@.len() as int, f.code.switches@.len() as int, f.code.arrays@.len() as int));
            assert forall|i: int| #[trigger] insn_at(f0.code.units@, f0.pc as int, i) implies i == idx by {
                lemma_insn_at_unique(f0.code.units@, f0.pc as int, i, idx as int);
            }
            assert(next == next_of(f0.code, idx as int));
        }
        match insn {
            Insn::Nop => {
                proof { crate::vm::lemma_evolves_refl(self); }
                Ok(StepOutcome::Go(Flow::Next(next)))
            },
            Insn::Move(d, s) => {
                let v = f.regs[s as usize];
                f.set_reg(d, v);
                proof { crate::vm::lemma_evolves_refl(self); }
                Ok(StepOutcome::Go(Flow::Next(next)))
            },
            Insn::MoveWide(d, s) => {
                let lo = f.regs[s as usize];
                let hi = f.regs[s as usize + 1];
                f.set_reg(d, lo);
                f.set_reg(d + 1, hi);
                proof { crate::vm::lemma_evolves_refl(self); }
                Ok(StepOutcome::Go(Flow::Next(next)))
            },
            Insn::Const(d, lit) => {
                f.set_reg(d, JValue::Int(lit));
                proof { crate::vm::lemma_evolves_refl(self); }
                Ok(StepOutcome::Go(Flow::Next(next)))
            },
            Insn::ConstHigh16(d, lit) => {
                f.set_reg(d, JValue::Int(lit.wrapping_shl(16)));
                proof { crate::vm::lemma_evolves_refl(self); }
                Ok(StepOutcome::Go(Flow::Next(next)))
            },
            Insn::ConstWide(d, lit) => {
                f.set_reg(d, JValue::Long(lit));
                proof { crate::vm::lemma_evolves_refl(self); }
                Ok(StepOutcome::Go(Flow::Next(next)))
            },
            Insn::ConstWideHigh16(d, lit) => {
                let hi = (lit.wrapping_shl(16) as u32) as i64;
                f.set_reg(d, JValue::Long(hi.wrapping_shl(32)));
                proof { crate::vm::lemma_evolves_refl(self); }
                Ok(StepOutcome::Go(Flow::Next(next)))
            },
            Insn::MoveResult(d) => {
                let v = f.result;
                f.set_reg(d, v);
                proof { crate::vm::lemma_evolves_refl(self); }
                Ok(StepOutcome::Go(Flow::Next(next)))
            },
            Insn::MoveException(d) => {
                let v = f.regs[0];
                f.set_reg(d, v);
                proof { crate::vm::lemma_evolves_refl(self); }
                Ok(StepOutcome::Go(Flow::Next(next)))
            },
            Insn::ConstMethodHandle(..) => {
                proof { crate::vm::lemma_evolves_refl(self); }
                Err(crate::error::JvmError::Fatal(String::from_str("const-method-handle/type unsupported")))
            },
            Insn::Goto(t) => {
                proof { crate::vm::lemma_evolves_refl(self); }
                Ok(StepOutcome::Go(Flow::Jump(t as usize)))
            },
            Insn::PackedSwitch(d, t) => {
                proof { crate::vm::lemma_evolves_refl(self); }
                let v = f.regs[d as usize].as_int();
                let tbl = &f.code.switches[t as usize];
                let k = v.wrapping_sub(tbl.first);
                if k >= 0 && (k as usize) < tbl.targets.len() {
                    Ok(StepOutcome::Go(Flow::Jump(tbl.targets[k as usize] as usize)))
                } else {
                    Ok(StepOutcome::Go(Flow::Next(next)))
                }
            },
            Insn::SparseSwitch(d, t) => {
                proof { crate::vm::lemma_evolves_refl(self); }
                let v = f.regs[d as usize].as_int();
                let tbl = &f.code.switches[t as usize];
                let mut k: usize = 0;
                while k < tbl.keys.len()
                    invariant
                        tbl.keys@.len() <= tbl.targets@.len(),
                    decreases tbl.keys@.len() - k,
                {
                    if tbl.keys[k] == v {
                        return Ok(StepOutcome::Go(Flow::Jump(tbl.targets[k] as usize)));
                    }
                    k += 1;
                }
                Ok(StepOutcome::Go(Flow::Next(next)))
            },
            Insn::Compare(op, d, a, b) => {
                proof { crate::vm::lemma_evolves_refl(self); }
                let va = f.regs[a as usize];
                let vb = f.regs[b as usize];
                match compare_exec(op, va, vb) {
                    Some(c) => {
                        f.set_reg(d, JValue::Int(c));
                        Ok(StepOutcome::Go(Flow::Next(next)))
                    },
                    None => Ok(StepOutcome::Float(FloatWork { op: FloatOp::Compare(op), a: va, b: vb, dst: d, target: 0, next_pc: next })),
                }
            },
            Insn::If(op, a, b, t) => {
                proof { crate::vm::lemma_evolves_refl(self); }
                let va = f.regs[a as usize];
                let vb = f.regs[b as usize];
                match if_exec(op, va, vb) {
                    Some(true) => Ok(StepOutcome::Go(Flow::Jump(t as usize))),
                    Some(false) => Ok(StepOutcome::Go(Flow::Next(next))),
                    None => Ok(StepOutcome::Float(FloatWork { op: FloatOp::If(op), a: va, b: vb, dst: 0, target: t, next_pc: next })),
                }
            },
            Insn::IfZ(op, a, t) => {
                proof { crate::vm::lemma_evolves_refl(self); }
                let va = f.regs[a as usize];
                match ifz_exec(op, va) {
                    Some(true) => Ok(StepOutcome::Go(Flow::Jump(t as usize))),
                    Some(false) => Ok(StepOutcome::Go(Flow::Next(next))),
                    None => Ok(StepOutcome::Float(FloatWork { op: FloatOp::IfZ(op), a: va, b: JValue::Null, dst: 0, target: t, next_pc: next })),
                }
            },
            Insn::Unop(op, d, s) => {
                proof { crate::vm::lemma_evolves_refl(self); }
                let v = f.regs[s as usize];
                match unop_exec(op, v) {
                    Some(x) => {
                        f.set_reg(d, x);
                        Ok(StepOutcome::Go(Flow::Next(next)))
                    },
                    None => Ok(StepOutcome::Float(FloatWork { op: FloatOp::Unop(op), a: v, b: JValue::Null, dst: d, target: 0, next_pc: next })),
                }
            },
            Insn::Binop(op, d, a, b) => {
                let va = f.regs[a as usize];
                let vb = f.regs[b as usize];
                self.arith_into(f, op, d, va, vb, next)
            },
            Insn::BinopLit(op, d, a, lit) => {
                let (va, vb) = if op == LitOp::Rsub { (JValue::Int(lit), f.regs[a as usize]) } else { (f.regs[a as usize], JValue::Int(lit)) };
                self.arith_into(f, op.to_binop(), d, va, vb, next)
            },
            Insn::Return(v) | Insn::ReturnWide(v) => {
                proof { crate::vm::lemma_evolves_refl(self); }
                Ok(StepOutcome::Go(Flow::Ret(f.regs[v as usize])))
            },
            Insn::ReturnVoid => {
                proof { crate::vm::lemma_evolves_refl(self); }
                Ok(StepOutcome::Go(Flow::Ret(JValue::Null)))
            },
            Insn::AGet(..) | Insn::APut(..) | Insn::ArrayLength(..) | Insn::FillArrayData(..) | Insn::MonitorEnter(..)
            | Insn::MonitorExit(..) | Insn::Throw(..) => self.step_heap(f, insn, next),
            Insn::ConstString(..) | Insn::ConstClass(..) | Insn::CheckCast(..) | Insn::InstanceOf(..) | Insn::NewInstance(..)
            | Insn::NewArray(..) | Insn::FilledNewArray(..) => self.step_class(f, insn, next),
            Insn::SGet(..) | Insn::SPut(..) | Insn::IGet(..) | Insn::IPut(..) => self.step_field(f, insn, next),
            Insn::Invoke(kind, midx, args) => self.step_invoke(f, kind, midx, args, next),
        }
    }

    /// Puts `va op vb` into register `d`, or throws `ArithmeticException`,
    /// or hands floating-point operands to the host.
    fn arith_into(&mut self, f: &mut Frame, op: Binop, d: u16, va: JValue, vb: JValue, next: usize)
        -> (r: Result<StepOutcome, crate::error::JvmError>)
        requires
            old(self).wf(),
            (d as int) < old(f).regs@.len(),
        ensures
            no_return(r),
            step_post(old(self), final(self), *old(f), *final(f)),
            final(f).err_pc == old(f).err_pc,
            binop_spec(op, va, vb) matches BinopEnd::Value(v) ==> *final(self) == *old(self)
                && final(f).regs@ == old(f).regs@.update(d as int, v) && r == Ok::<StepOutcome, crate::error::JvmError>(StepOutcome::Go(Flow::Next(next))),
    {
        let ghost v0 = *self;
        match binop_exec(op, va, vb) {
            BinopEnd::Value(v) => {
                f.set_reg(d, v);
                proof { crate::vm::lemma_evolves_refl(self); }
                Ok(StepOutcome::Go(Flow::Next(next)))
            },
            BinopEnd::DivZero => {
                let e = self.err_arithmetic("/ by zero");
                proof { crate::vm::lemma_grows_evolves(&v0, self); }
                Ok(Self::thrown(e))
            },
            BinopEnd::BadOperands => {
                let e = self.err_arithmetic("bad binop operands");
                proof { crate::vm::lemma_grows_evolves(&v0, self); }
                Ok(Self::thrown(e))
            },
            BinopEnd::Host(wide) => {
                proof { crate::vm::lemma_evolves_refl(self); }
                Ok(StepOutcome::Float(FloatWork { op: FloatOp::Binop(op, wide), a: va, b: vb, dst: d, target: 0, next_pc: next }))
            },
        }
    }
}

/// Every frame on a stack can be stepped.
pub open spec fn stack_ok(stack: Seq<Frame>, ndex: int) -> bool {
    forall|k: int| 0 <= k < stack.len() ==> frame_ok(#[trigger] stack[k]) && (stack[k].dex as int) < ndex
}

/// The result of a floating-point instruction computed by the host: a value
/// for the destination register, or whether the branch is taken.
pub enum FloatResult {
    Value(JValue),
    Branch(bool),
}

/// Code address `pc` is where one of the try regions of `c` hands an
/// exception over: one of its typed handlers or its catch-all.
pub open spec fn is_handler_pc(c: CodeItem, pc: int) -> bool {
    exists|i: int| #![trigger c.tries@[i]] 0 <= i < c.tries@.len() && (
        (c.tries@[i].catch_all matches Some(a) && a as int == pc)
        || exists|k: int| #![trigger c.tries@[i].handlers@[k]] 0 <= k < c.tries@[i].handlers@.len()
            && c.tries@[i].handlers@[k].1 as int == pc)
}

/// The frame that unwinding has reached when `n` frames of `s` are left:
/// the throwing frame `f` while none was popped, else the last one popped.
pub open spec fn unwound_frame(f: Frame, s: Seq<Frame>, n: int) -> Frame {
    if n >= s.len() { f } else { s[n] }
}

/// Frame `g` is frame `f` once the host's result `res` of the float work
/// `w` is delivered: a value goes to the destination register and the frame
/// moves on; a comparison branches to the target or falls through.
pub open spec fn float_resumed(f: Frame, g: Frame, w: FloatWork, res: FloatResult) -> bool {
    match res {
        FloatResult::Value(v) => {
            &&& g == (Frame { regs: g.regs, pc: w.next_pc, ..f })
            &&& g.regs@ == f.regs@.update(w.dst as int, v)
        },
        FloatResult::Branch(taken) => g == (Frame { pc: if taken { w.target as usize } else { w.next_pc }, ..f }),
    }
}

impl crate::vm::Vm {
    /// A new frame for method `slot` of class `class` with `args` in its
    /// last registers; the code is checked to fit the frame.
    pub fn make_frame(&self, class: u32, slot: u32, args: &Vec<JValue>, clinit_of: Option<u32>) -> (r: Result<Frame, crate::error::JvmError>)
        requires
            self.wf(),
        ensures
            r matches Ok(f) ==> frame_ok(f) && (f.dex as int) < self.dexes@.len() && f.class == class && f.slot == slot
                && f.clinit_of == clinit_of && f.pc == 0 && f.pending_exc is None,
            r is Ok <==> frame_makeable(self, class, slot),
            r matches Ok(f) ==> frame_of(self, class, slot, args@, clinit_of, f),
    {
        if (class as usize) >= self.classes.len() || (slot as usize) >= self.classes[class as usize].methods.len() {
            return Err(crate::error::JvmError::Resolution(String::from_str("no such method")));
        }
        let m = &self.classes[class as usize].methods[slot as usize];
        let code = match &m.code {
            Some(c) => copy_code(c),
            None => return Err(crate::error::JvmError::Resolution(String::from_str("no code item"))),
        };
        proof {
            lemma_same_code_fits(code, self.classes@[class as int].methods@[slot as int].code->Some_0, code.registers_size as int);
        }
        if code.ins_size > code.registers_size {
            return Err(crate::error::JvmError::Fatal(String::from_str("malformed code item")));
        }
        let regs = Frame::make_regs(args, code.ins_size, code.registers_size);
        if !code_fits_exec(&code, regs.len()) {
            return Err(crate::error::JvmError::Fatal(String::from_str("malformed code item")));
        }
        if (m.dex_idx as usize) >= self.dexes.len() {
            return Err(crate::error::JvmError::Fatal(String::from_str("method of an unknown dex")));
        }
        Ok(Frame {
            class,
            slot,
            dex: m.dex_idx,
            code,
            regs,
            pc: 0,
            err_pc: 0,
            result: JValue::Null,
            pending_exc: None,
            clinit_of,
        })
    }

    /// The handler address in frame `f` for exception `exc` thrown at
    /// `f.err_pc`: the first try region covering the instruction, its first
    /// handler whose type the exception is assignable to, else its
    /// catch-all.
    #[verifier::loop_isolation(false)]
    pub fn find_handler(&mut self, f: &Frame, exc: JValue) -> (r: Result<Option<u32>, crate::error::JvmError>)
        requires
            old(self).wf(),
            (f.dex as int) < old(self).dexes@.len(),
        ensures
            crate::vm::evolves(old(self), final(self)),
            r matches Ok(Some(a)) ==> is_handler_pc(f.code, a as int),
            f.code.tries@.len() == 0 ==> r matches Ok(None),
    {
        let ghost v0 = *self;
        proof { crate::vm::lemma_evolves_refl(self); }
        let units = &f.code.units;
        let addr: u32 = if units.len() > 0 && ascending_exec(units) {
            units[find_insn(units, f.err_pc)]
        } else {
            0
        };
        let obj_class: Option<u32> = match exc {
            JValue::Obj(o) => if (o as usize) < self.arena.objects.len() { Some(self.arena.objects[o as usize].class) } else { None },
            _ => None,
        };
        let tries = &f.code.tries;
        let mut i: usize = 0;
        while i < tries.len()
            invariant
                crate::vm::evolves(&v0, self),
                (f.dex as int) < self.dexes@.len(),
                obj_class matches Some(c) ==> (c as int) < self.classes@.len(),
            decreases tries@.len() - i,
        {
            let t = &tries[i];
            let end = t.start_addr as u64 + t.insn_count as u64;
            if (addr as u64) >= (t.start_addr as u64) && (addr as u64) < end {
                let mut k: usize = 0;
                while k < t.handlers.len()
                    invariant
                        crate::vm::evolves(&v0, self),
                        (f.dex as int) < self.dexes@.len(),
                        obj_class matches Some(c) ==> (c as int) < self.classes@.len(),
                    decreases t.handlers@.len() - k,
                {
                    let (type_idx, haddr) = t.handlers[k];
                    let ghost v1 = *self;
                    let cc = self.ensure_class_by_type(f.dex, type_idx);
                    proof {
                        crate::vm::lemma_grows_evolves(&v1, self);
                        crate::vm::lemma_evolves_trans(&v0, &v1, self);
                    }
                    let catch_class = cc?;
                    match obj_class {
                        Some(oc) => {
                            let ghost v2 = *self;
                            let ok = self.is_assignable(oc, catch_class);
                            proof {
                                crate::vm::lemma_grows_evolves(&v2, self);
                                crate::vm::lemma_evolves_trans(&v0, &v2, self);
                            }
                            if ok? {
                                proof {
                                    assert(f.code.tries@[i as int].handlers@[k as int].1 == haddr);
                                }
                                return Ok(Some(haddr));
                            }
                        },
                        None => {},
                    }
                    k += 1;
                }
                match t.catch_all {
                    Some(a) => {
                        proof { assert(f.code.tries@[i as int].catch_all == Some(a)); }
                        return Ok(Some(a));
                    },
                    None => {},
                }
            }
            i += 1;
        }
        Ok(None)
    }

    /// Unwinds exception `exc` from frame `f` through the frames of `stack`
    /// above `base`: the first frame with a handler continues there with
    /// the exception in register 0. An exception leaving a `<clinit>` frame
    /// fails the run (the class goes back to uninitialized); one leaving
    /// every frame is `Ok(None)`.
    #[verifier::loop_isolation(false)]
    pub fn unwind(&mut self, stack: &mut Vec<Frame>, base: usize, f: Frame, exc: JValue) -> (r: Result<Option<Frame>, crate::error::JvmError>)
        requires
            old(self).wf(),
            frame_ok(f),
            (f.dex as int) < old(self).dexes@.len(),
            stack_ok(old(stack)@, old(self).dexes@.len() as int),
        ensures
            crate::vm::evolves(old(self), final(self)),
            stack_ok(final(stack)@, final(self).dexes@.len() as int),
            final(stack)@.len() <= old(stack)@.len(),
            final(stack)@ == old(stack)@.take(final(stack)@.len() as int),
            final(stack)@.len() < old(stack)@.len() ==> final(stack)@.len() >= base,
            r matches Ok(Some(g)) ==> frame_ok(g) && (g.dex as int) < final(self).dexes@.len(),
            r matches Ok(Some(g)) ==> {
                let h = unwound_frame(f, old(stack)@, final(stack)@.len() as int);
                &&& h.regs@.len() > 0
                &&& g == (Frame { regs: g.regs, pc: g.pc, pending_exc: None, ..h })
                &&& g.regs@ == h.regs@.update(0, exc)
                &&& is_handler_pc(h.code, g.pc as int)
            },
            r matches Ok(None) ==> final(stack)@.len() <= base && f.clinit_of is None
                && forall|j: int| final(stack)@.len() <= j < old(stack)@.len() ==> (#[trigger] old(stack)@[j]).clinit_of is None,
    {
        let ghost v0 = *self;
        let ghost s0 = stack@;
        proof { crate::vm::lemma_evolves_refl(self); }
        let mut cur = f;
        loop
            invariant
                crate::vm::evolves(&v0, self),
                frame_ok(cur),
                (cur.dex as int) < self.dexes@.len(),
                stack_ok(stack@, self.dexes@.len() as int),
                stack@.len() <= s0.len(),
                stack@ == s0.take(stack@.len() as int),
                stack@.len() < s0.len() ==> stack@.len() >= base,
                cur == unwound_frame(f, s0, stack@.len() as int),
                stack@.len() < s0.len() ==> f.clinit_of is None,
                forall|j: int| stack@.len() < j < s0.len() ==> (#[trigger] s0[j]).clinit_of is None,
            decreases stack@.len(),
        {
            let ghost v1 = *self;
            let h = self.find_handler(&cur, exc);
            proof { crate::vm::lemma_evolves_trans(&v0, &v1, self); }
            match h? {
                Some(addr) => {
                    if cur.regs.len() == 0 {
                        return Err(crate::error::JvmError::Fatal(String::from_str("handler in a frame without registers")));
                    }
                    cur.pc = addr as usize;
                    cur.regs.set(0, exc);
                    cur.pending_exc = None;
                    return Ok(Some(cur));
                },
                None => {},
            }
            match cur.clinit_of {
                Some(c) => {
                    if (c as usize) < self.classes.len() {
                        let ghost v2 = *self;
                        self.set_clinit_state(c, 0);
                        proof { crate::vm::lemma_evolves_trans(&v0, &v2, self); }
                    }
                    let o = match exc {
                        JValue::Obj(o) => o,
                        _ => 0,
                    };
                    return Err(crate::error::JvmError::Uncaught(o));
                },
                None => {},
            }
            if stack.len() <= base {
                return Ok(None);
            }
            match stack.pop() {
                Some(g) => {
                    proof { assert(frame_ok(g)); }
                    cur = g;
                },
                None => return Ok(None),
            }
        }
    }

    /// A constructor native hands its result's payload to the receiver
    /// the bytecode allocated.
    fn carry_payload(&mut self, receiver: Option<JValue>, v: JValue)
        requires
            old(self).wf(),
        ensures
            crate::vm::evolves(old(self), final(self)),
            final(self).frames == old(self).frames,
            final(self).host_call == old(self).host_call,
    {
        let ghost v0 = *self;
        match (receiver, v) {
            (Some(JValue::Obj(r)), JValue::Obj(res)) => {
                if (r as usize) < self.arena.objects.len() && (res as usize) < self.arena.objects.len() {
                    let payload = match &self.arena.objects[res as usize].native {
                        Some(n) => Some(n.clone()),
                        None => None,
                    };
                    match payload {
                        Some(n) => {
                            let mut ob = self.take_object(r);
                            ob.native = Some(n);
                            proof { assert(((v0.arena.objects@[r as int]).class as int) < v0.classes@.len()); }
                            self.put_object(r, ob);
                            proof {
                                assert forall|k: int| 0 <= k < v0.arena.objects@.len() implies (#[trigger] self.arena.objects@[k]).class == v0.arena.objects@[k].class by {
                                }
                                lemma_heap_edit(&v0, self);
                            }
                        },
                        None => {
                            proof { crate::vm::lemma_evolves_refl(self); }
                        },
                    }
                } else {
                    proof { crate::vm::lemma_evolves_refl(self); }
                }
            },
            _ => {
                proof { crate::vm::lemma_evolves_refl(self); }
            },
        }
    }
}

impl crate::vm::Vm {
    /// The argument list a call passes: the receiver (instance calls), then
    /// one value per declared argument, read from the argument registers (a
    /// wide argument spans two registers; `dup_wide` passes it twice, as
    /// the callee's register file expects).
    fn call_args(&self, f: &Frame, kind: InvokeKind, args: Args, decl: &Vec<u32>, dup_wide: bool)
        -> (r: Result<Vec<JValue>, crate::error::JvmError>)
        requires
            args_fit(args, f.regs@.len() as int),
        ensures
            r matches Ok(v) ==> (kind != InvokeKind::Static ==> v@.len() >= 1),
    {
        let mut out: Vec<JValue> = Vec::new();
        let n = args.len();
        let mut ri: usize = 0;
        if kind != InvokeKind::Static {
            if n == 0 {
                return Err(crate::error::JvmError::Fatal(String::from_str("invoke without a receiver")));
            }
            out.push(f.regs[args.reg_at(0)]);
            ri = 1;
        }
        let mut k: usize = 0;
        while k < decl.len()
            invariant
                args_fit(args, f.regs@.len() as int),
                n == args.len_spec(),
                kind != InvokeKind::Static ==> out@.len() >= 1,
            decreases decl@.len() - k,
        {
            if ri >= n {
                return Err(crate::error::JvmError::Fatal(String::from_str("argument registers missing")));
            }
            let a = f.regs[args.reg_at(ri)];
            ri = ri + 1;
            let wide = crate::value::is_wide_desc(self.str_of_checked(decl[k]).as_str());
            if wide {
                if dup_wide {
                    out.push(a);
                }
                ri = ri + 1;
            }
            out.push(a);
            k += 1;
        }
        Ok(out)
    }

    /// Runs the interpreter on the frame stack until the frame at index
    /// `base` returns (`Done`), or the host has to compute a floating-point
    /// instruction or run a host native (the frames are then left on the
    /// stack, to be resumed). Each instruction costs one unit of budget.
    #[verifier::loop_isolation(false)]
    #[verifier::rlimit(80)]
    pub fn run_loop(&mut self, base: usize) -> (r: Result<Exec, crate::error::JvmError>)
        requires
            old(self).wf(),
            stack_ok(old(self).frames@, old(self).dexes@.len() as int),
            old(self).frames@.len() > base,
        ensures
            crate::vm::evolves(old(self), final(self)),
            stack_ok(final(self).frames@, final(self).dexes@.len() as int),
            final(self).frames@.len() >= base,
            final(self).frames@.take(base as int) == old(self).frames@.take(base as int),
            final(self).budget <= old(self).budget,
            old(self).budget <= 0 ==> r matches Err(crate::error::JvmError::BudgetExceeded),
            r matches Ok(Exec::Done(v)) ==> final(self).frames@.len() == base
                && exists|fr: Frame| #[trigger] returns_value(fr, v) && same_method(fr, old(self).frames@[base as int]),
            r matches Ok(x) && !(x is Done) ==> final(self).frames@.len() > base,
    {
        let ghost v0 = *self;
        proof { crate::vm::lemma_evolves_refl(self); }
        let mut stack: Vec<Frame> = Vec::new();
        std::mem::swap(&mut stack, &mut self.frames);
        let mut f = match stack.pop() {
            Some(f) => f,
            None => {
                self.frames = stack;
                return Err(crate::error::JvmError::Fatal(String::from_str("run_loop with no frames")));
            },
        };
        let mut budget = self.budget;
        loop
            invariant
                crate::vm::evolves(&v0, self),
                frame_ok(f),
                (f.dex as int) < self.dexes@.len(),
                stack_ok(stack@, self.dexes@.len() as int),
                stack@.len() >= base,
                stack@.take(base as int) == v0.frames@.take(base as int),
                budget <= v0.budget,
                v0.budget <= 0 ==> budget == v0.budget,
                same_method(frame_at(stack@, f, base as int), v0.frames@[base as int]),
            decreases budget,
        {
            let ghost f_before = f;
            if budget <= 0 {
                self.budget = budget;
                self.frames = stack;
                return Err(crate::error::JvmError::BudgetExceeded);
            }
            budget = budget - 1;
            let ghost v1 = *self;
            let outcome = self.step(&mut f);
            proof { crate::vm::lemma_evolves_trans(&v0, &v1, self); }
            let outcome = match outcome {
                Ok(o) => o,
                Err(e) => {
                    self.budget = budget;
                    self.frames = stack;
                    return Err(e);
                },
            };
            match outcome {
                StepOutcome::Go(Flow::Next(pc)) => { f.pc = pc; },
                StepOutcome::Go(Flow::Jump(t)) => { f.pc = t; },
                StepOutcome::Go(Flow::Ret(v)) => {
                    let initialized = f.clinit_of;
                    match initialized {
                        Some(c) => {
                            if (c as usize) < self.classes.len() {
                                let ghost v2 = *self;
                                self.set_clinit_state(c, 2);
                                proof { crate::vm::lemma_evolves_trans(&v0, &v2, self); }
                            }
                        },
                        None => {},
                    }
                    if stack.len() <= base {
                        self.budget = budget;
                        self.frames = stack;
                        return Ok(Exec::Done(v));
                    }
                    match stack.pop() {
                        Some(caller) => {
                            f = caller;
                            if initialized.is_none() {
                                f.result = v;
                            }
                        },
                        None => {
                            self.budget = budget;
                            self.frames = stack;
                            return Ok(Exec::Done(v));
                        },
                    }
                },
                StepOutcome::Go(Flow::Call(kind, mref, target, args, ret_pc)) => {
                    if !args_fit_exec(args, f.regs.len()) {
                        self.budget = budget;
                        self.frames = stack;
                        return Err(crate::error::JvmError::Fatal(String::from_str("argument registers missing")));
                    }
                    match target {
                        Target::Native(a, b, c) => {
                            let call_args = match self.call_args(&f, kind, args, &mref.args, false) {
                                Ok(x) => x,
                                Err(e) => {
                                    self.budget = budget;
                                    self.frames = stack;
                                    return Err(e);
                                },
                            };
                            let receiver = if kind == InvokeKind::Static { None } else { Some(call_args[0]) };
                            let is_init = mref.name == self.hot.init;
                            f.pc = ret_pc;
                            match self.native_of((a, b, c)) {
                                Some(crate::natives::NativeFn::Builtin(id)) => {
                                    let ghost v2 = *self;
                                    let res = crate::natives::call_builtin(self, id, call_args.as_slice());
                                    proof {
                                        crate::vm::lemma_grows_evolves(&v2, self);
                                        crate::vm::lemma_evolves_trans(&v0, &v2, self);
                                    }
                                    match res {
                                        Ok(v) => {
                                            if is_init {
                                                let ghost v3 = *self;
                                                self.carry_payload(receiver, v);
                                                proof { crate::vm::lemma_evolves_trans(&v0, &v3, self); }
                                            }
                                            f.result = v;
                                        },
                                        Err(crate::error::NatErr::Throw(ex)) => {
                                            let ghost v3 = *self;
                                            let u = self.unwind(&mut stack, base, f, JValue::Obj(ex));
                                            proof { crate::vm::lemma_evolves_trans(&v0, &v3, self); }
                                            match u {
                                                Ok(Some(g)) => { f = g; },
                                                Ok(None) => {
                                                    self.budget = budget;
                                                    self.frames = stack;
                                                    return Err(crate::error::JvmError::Uncaught(ex));
                                                },
                                                Err(e) => {
                                                    self.budget = budget;
                                                    self.frames = stack;
                                                    return Err(e);
                                                },
                                            }
                                        },
                                        Err(crate::error::NatErr::Fatal(e)) => {
                                            self.budget = budget;
                                            self.frames = stack;
                                            return Err(e);
                                        },
                                    }
                                },
                                Some(crate::natives::NativeFn::Host(idx)) => {
                                    self.host_call = Some((receiver, is_init));
                                    stack.push(f);
                                    self.budget = budget;
                                    self.frames = stack;
                                    return Ok(Exec::Host(idx, call_args));
                                },
                                Some(crate::natives::NativeFn::Io(idx)) => {
                                    self.host_call = Some((receiver, is_init));
                                    stack.push(f);
                                    self.budget = budget;
                                    self.frames = stack;
                                    return Ok(Exec::Io(idx, call_args));
                                },
                                None => {
                                    self.budget = budget;
                                    self.frames = stack;
                                    return Err(crate::error::JvmError::Fatal(String::from_str("no native registered for the method")));
                                },
                            }
                        },
                        Target::Bytecode { class, slot, args: m_args, .. } => {
                            let call_args = match self.call_args(&f, kind, args, &m_args, true) {
                                Ok(x) => x,
                                Err(e) => {
                                    self.budget = budget;
                                    self.frames = stack;
                                    return Err(e);
                                },
                            };
                            let callee = match self.make_frame(class, slot, &call_args, None) {
                                Ok(g) => g,
                                Err(e) => {
                                    self.budget = budget;
                                    self.frames = stack;
                                    return Err(e);
                                },
                            };
                            f.pc = ret_pc;
                            stack.push(f);
                            f = callee;
                        },
                    }
                },
                StepOutcome::Throw(ex) => {
                    let ghost v2 = *self;
                    let u = self.unwind(&mut stack, base, f, ex);
                    proof { crate::vm::lemma_evolves_trans(&v0, &v2, self); }
                    match u {
                        Ok(Some(g)) => { f = g; },
                        Ok(None) => {
                            self.budget = budget;
                            self.frames = stack;
                            let o = match ex {
                                JValue::Obj(o) => o,
                                _ => 0,
                            };
                            return Err(crate::error::JvmError::Uncaught(o));
                        },
                        Err(e) => {
                            self.budget = budget;
                            self.frames = stack;
                            return Err(e);
                        },
                    }
                },
                StepOutcome::Float(w) => {
                    stack.push(f);
                    self.budget = budget;
                    self.frames = stack;
                    return Ok(Exec::Float(w));
                },
                StepOutcome::Init(class, slot) => {
                    let clinit = match self.make_frame(class, slot, &Vec::new(), Some(class)) {
                        Ok(g) => g,
                        Err(e) => {
                            self.budget = budget;
                            self.frames = stack;
                            return Err(e);
                        },
                    };
                    stack.push(f);
                    f = clinit;
                },
            }
        }
    }
}

impl crate::vm::Vm {
    /// Pushes a frame for method `slot` of `class` with `args`; fails when
    /// the guest stack is full.
    pub fn push_frame(&mut self, class: u32, slot: u32, args: Vec<JValue>, clinit_of: Option<u32>) -> (r: Result<(), crate::error::JvmError>)
        requires
            old(self).wf(),
            stack_ok(old(self).frames@, old(self).dexes@.len() as int),
        ensures
            *final(self) == (crate::vm::Vm { frames: final(self).frames, ..*old(self) }),
            stack_ok(final(self).frames@, final(self).dexes@.len() as int),
            r is Ok ==> final(self).frames@.len() == old(self).frames@.len() + 1,
            r is Err ==> final(self).frames == old(self).frames,
            r is Ok <==> old(self).frames@.len() < old(self).depth_limit && frame_makeable(old(self), class, slot),
            r is Ok ==> final(self).frames@.drop_last() == old(self).frames@
                && frame_of(old(self), class, slot, args@, clinit_of, final(self).frames@.last()),
    {
        if self.frames.len() >= self.depth_limit {
            return Err(crate::error::JvmError::StackOverflow);
        }
        let f = self.make_frame(class, slot, &args, clinit_of)?;
        self.frames.push(f);
        Ok(())
    }

    /// Runs method `slot` of `class` with `args`: a native directly, a
    /// bytecode method on a new frame until it returns or the host has work
    /// to do (see [`Vm::run_loop`]).
    pub fn run(&mut self, class: u32, slot: u32, args: Vec<JValue>) -> (r: Result<Exec, crate::error::JvmError>)
        requires
            old(self).wf(),
            stack_ok(old(self).frames@, old(self).dexes@.len() as int),
        ensures
            crate::vm::evolves(old(self), final(self)),
            stack_ok(final(self).frames@, final(self).dexes@.len() as int),
            old(self).recursion_depth >= old(self).depth_limit ==> r matches Err(crate::error::JvmError::StackOverflow),
            old(self).recursion_depth < old(self).depth_limit && method_exists(old(self), class, slot)
                && old(self).classes@[class as int].methods@[slot as int].native_decl
                ==> (r matches Err(crate::error::JvmError::Resolution(m)) && m@ == crate::resolve::jni_missing_text(
                    old(self).intern@[old(self).classes@[class as int].methods@[slot as int].name as int]@,
                    old(self).intern@[old(self).classes@[class as int].methods@[slot as int].sig as int]@)),
            r matches Ok(Exec::Done(v)) ==> (runs_bytecode(old(self), class, slot) ==> final(self).frames@ == old(self).frames@
                && exists|fr: Frame| #[trigger] returns_value(fr, v) && fr.class == class && fr.slot == slot),
    {
        let ghost v0 = *self;
        proof { crate::vm::lemma_evolves_refl(self); }
        if self.recursion_depth >= self.depth_limit {
            return Err(crate::error::JvmError::StackOverflow);
        }
        if (class as usize) >= self.classes.len() || (slot as usize) >= self.classes[class as usize].methods.len() {
            return Err(crate::error::JvmError::Resolution(String::from_str("no such method")));
        }
        let native_decl = self.classes[class as usize].methods[slot as usize].native_decl;
        let native_key = self.classes[class as usize].methods[slot as usize].native_key;
        if native_decl {
            proof { assert(self.class_ok(self.classes@[class as int])); }
            let m = &self.classes[class as usize].methods[slot as usize];
            return Err(crate::error::JvmError::Resolution(self.jni_missing(m.name, m.sig)));
        }
        match native_key {
            Some(key) => self.call_native_key(key, args),
            None => {
                let base = self.frames.len();
                self.push_frame(class, slot, args, None)?;
                self.run_loop(base)
            },
        }
    }

    /// Calls the native registered under `key` outside any frame: a built-in
    /// runs now (an exception it throws is uncaught), a host native is
    /// handed to the host.
    fn call_native_key(&mut self, key: (u32, u32, u32), args: Vec<JValue>) -> (r: Result<Exec, crate::error::JvmError>)
        requires
            old(self).wf(),
            stack_ok(old(self).frames@, old(self).dexes@.len() as int),
        ensures
            crate::vm::evolves(old(self), final(self)),
            stack_ok(final(self).frames@, final(self).dexes@.len() as int),
    {
        let ghost v0 = *self;
        match self.native_of(key) {
            Some(crate::natives::NativeFn::Builtin(id)) => {
                let ghost fr = self.frames;
                let res = crate::natives::call_builtin(self, id, args.as_slice());
                proof { crate::vm::lemma_grows_evolves(&v0, self); }
                match res {
                    Ok(v) => Ok(Exec::Done(v)),
                    Err(crate::error::NatErr::Throw(ex)) => Err(crate::error::JvmError::Uncaught(ex)),
                    Err(crate::error::NatErr::Fatal(e)) => Err(e),
                }
            },
            Some(crate::natives::NativeFn::Host(idx)) => {
                self.host_call = None;
                proof { crate::vm::lemma_evolves_refl(self); }
                Ok(Exec::Host(idx, args))
            },
            Some(crate::natives::NativeFn::Io(idx)) => {
                self.host_call = None;
                proof { crate::vm::lemma_evolves_refl(self); }
                Ok(Exec::Io(idx, args))
            },
            None => {
                proof { crate::vm::lemma_evolves_refl(self); }
                Err(crate::error::JvmError::Fatal(String::from_str("no native registered for the method")))
            },
        }
    }

    /// Delivers the host's result of a floating-point instruction to the
    /// frame waiting on it.
    pub fn resume_float(&mut self, w: FloatWork, res: FloatResult) -> (r: Result<(), crate::error::JvmError>)
        requires
            stack_ok(old(self).frames@, old(self).dexes@.len() as int),
        ensures
            *final(self) == (crate::vm::Vm { frames: final(self).frames, ..*old(self) }),
            stack_ok(final(self).frames@, final(self).dexes@.len() as int),
            final(self).frames@.len() == old(self).frames@.len(),
            r is Ok <==> old(self).frames@.len() > 0
                && (res is Value ==> (w.dst as int) < old(self).frames@.last().regs@.len()),
            r is Ok ==> final(self).frames@.drop_last() == old(self).frames@.drop_last()
                && float_resumed(old(self).frames@.last(), final(self).frames@.last(), w, res),
            r is Err ==> final(self).frames@ == old(self).frames@,
    {
        let mut f = match self.frames.pop() {
            Some(f) => f,
            None => return Err(crate::error::JvmError::Fatal(String::from_str("no frame to resume"))),
        };
        match res {
            FloatResult::Value(v) => {
                if (w.dst as usize) >= f.regs.len() {
                    self.frames.push(f);
                    return Err(crate::error::JvmError::Fatal(String::from_str("float result register missing")));
                }
                f.regs.set(w.dst as usize, v);
                f.pc = w.next_pc;
            },
            FloatResult::Branch(taken) => {
                f.pc = if taken { w.target as usize } else { w.next_pc };
            },
        }
        self.frames.push(f);
        Ok(())
    }

    /// Delivers a host native's outcome: `Some(v)` when the native was the
    /// whole call, `None` when the frame that called it goes on (the run
    /// loop is then resumed with the same `base`).
    #[verifier::loop_isolation(false)]
    pub fn resume_native(&mut self, base: usize, res: Result<JValue, crate::error::NatErr>) -> (r: Result<Option<JValue>, crate::error::JvmError>)
        requires
            old(self).wf(),
            stack_ok(old(self).frames@, old(self).dexes@.len() as int),
        ensures
            crate::vm::evolves(old(self), final(self)),
            stack_ok(final(self).frames@, final(self).dexes@.len() as int),
            final(self).host_call is None,
            old(self).host_call is None ==> final(self).frames == old(self).frames && match res {
                Ok(v) => r matches Ok(Some(x)) && x == v,
                Err(crate::error::NatErr::Throw(ex)) => r matches Err(crate::error::JvmError::Uncaught(x)) && x == ex,
                Err(crate::error::NatErr::Fatal(e)) => r matches Err(x) && x == e,
            },
            old(self).host_call is Some && old(self).frames@.len() > 0 ==> match res {
                Ok(v) => {
                    &&& r matches Ok(None)
                    &&& final(self).frames@.drop_last() == old(self).frames@.drop_last()
                    &&& final(self).frames@.last() == (Frame { result: v, ..old(self).frames@.last() })
                },
                Err(crate::error::NatErr::Throw(_)) => r matches Ok(o) ==> o is None,
                Err(crate::error::NatErr::Fatal(e)) => r matches Err(x) && x == e
                    && final(self).frames@ == old(self).frames@.drop_last(),
            },
    {
        let ghost v0 = *self;
        proof { crate::vm::lemma_evolves_refl(self); }
        let pending = self.host_call;
        self.host_call = None;
        let (receiver, is_init) = match pending {
            Some(p) => p,
            None => {
                return match res {
                    Ok(v) => Ok(Some(v)),
                    Err(crate::error::NatErr::Throw(ex)) => Err(crate::error::JvmError::Uncaught(ex)),
                    Err(crate::error::NatErr::Fatal(e)) => Err(e),
                };
            },
        };
        let mut stack: Vec<Frame> = Vec::new();
        std::mem::swap(&mut stack, &mut self.frames);
        let mut f = match stack.pop() {
            Some(f) => f,
            None => {
                self.frames = stack;
                return Err(crate::error::JvmError::Fatal(String::from_str("no frame to resume")));
            },
        };
        match res {
            Ok(v) => {
                if is_init {
                    self.carry_payload(receiver, v);
                }
                f.result = v;
                stack.push(f);
                self.frames = stack;
                Ok(None)
            },
            Err(crate::error::NatErr::Throw(ex)) => {
                let u = self.unwind(&mut stack, base, f, JValue::Obj(ex));
                self.host_call = None;
                match u {
                    Ok(Some(g)) => {
                        stack.push(g);
                        self.frames = stack;
                        Ok(None)
                    },
                    Ok(None) => {
                        self.frames = stack;
                        Err(crate::error::JvmError::Uncaught(ex))
                    },
                    Err(e) => {
                        self.frames = stack;
                        Err(e)
                    },
                }
            },
            Err(crate::error::NatErr::Fatal(e)) => {
                self.frames = stack;
                Err(e)
            },
        }
    }

    /// Calls a resolved target with `args`.
    pub fn call_target(&mut self, target: Target, args: Vec<JValue>) -> (r: Result<Exec, crate::error::JvmError>)
        requires
            old(self).wf(),
            stack_ok(old(self).frames@, old(self).dexes@.len() as int),
        ensures
            crate::vm::evolves(old(self), final(self)),
            stack_ok(final(self).frames@, final(self).dexes@.len() as int),
            target matches Target::Bytecode { class, slot, .. } ==> (r matches Ok(Exec::Done(v)) ==> (runs_bytecode(old(self), class, slot)
                ==> final(self).frames@ == old(self).frames@
                && exists|fr: Frame| #[trigger] returns_value(fr, v) && fr.class == class && fr.slot == slot)),
    {
        match target {
            Target::Native(a, b, c) => self.call_native_key((a, b, c), args),
            Target::Bytecode { class, slot, .. } => self.run(class, slot, args),
        }
    }

    /// Calls method `name` with signature `sig` on `receiver` (virtual
    /// dispatch) with `args` after the receiver.
    pub fn invoke_virtual_args(&mut self, receiver: JValue, name: &str, sig: &str, args: Vec<JValue>)
        -> (r: Result<Exec, crate::error::JvmError>)
        requires
            old(self).wf(),
            stack_ok(old(self).frames@, old(self).dexes@.len() as int),
        ensures
            crate::vm::evolves(old(self), final(self)),
            stack_ok(final(self).frames@, final(self).dexes@.len() as int),
            receiver is Null ==> (r matches Err(crate::error::JvmError::Fatal(m)) && m@ == "invoke_virtual on null"@)
                && *final(self) == *old(self),
            receiver is Int || receiver is Long || receiver is Float || receiver is Double ==> r is Err && *final(self) == *old(self),
    {
        let ghost v0 = *self;
        proof { crate::vm::lemma_evolves_refl(self); }
        if receiver.is_null() {
            return Err(crate::error::JvmError::Fatal(String::from_str("invoke_virtual on null")));
        }
        let recv = match receiver {
            JValue::Obj(o) => o,
            _ => return Err(crate::error::JvmError::Fatal(String::from_str("invoke_virtual on a non-object"))),
        };
        let n = self.intern_checked(name);
        proof { crate::vm::lemma_grows_evolves(&v0, self); }
        let n = n?;
        let ghost v1 = *self;
        let s = self.intern_checked(sig);
        proof {
            crate::vm::lemma_grows_evolves(&v1, self);
            crate::vm::lemma_evolves_trans(&v0, &v1, self);
        }
        let s = s?;
        let mref = MethodRef { name: n, sig: s, ret: 0, args: Vec::new(), class_desc: 0 };
        let ghost v2 = *self;
        let target = self.resolve_target(InvokeKind::Virtual, &mref, Some(recv), 0);
        proof {
            crate::vm::lemma_grows_evolves(&v2, self);
            crate::vm::lemma_evolves_trans(&v0, &v2, self);
        }
        let target = target?;
        let mut all: Vec<JValue> = Vec::new();
        all.push(receiver);
        let mut k: usize = 0;
        while k < args.len()
            decreases args@.len() - k,
        {
            all.push(args[k]);
            k += 1;
        }
        let ghost v3 = *self;
        let r = self.call_target(target, all);
        proof { crate::vm::lemma_evolves_trans(&v0, &v3, self); }
        r
    }

    /// Calls method `name` with signature `sig` on `receiver`, no arguments.
    pub fn invoke_virtual(&mut self, receiver: JValue, name: &str, sig: &str) -> (r: Result<Exec, crate::error::JvmError>)
        requires
            old(self).wf(),
            stack_ok(old(self).frames@, old(self).dexes@.len() as int),
        ensures
            crate::vm::evolves(old(self), final(self)),
            stack_ok(final(self).frames@, final(self).dexes@.len() as int),
            receiver is Null ==> (r matches Err(crate::error::JvmError::Fatal(m)) && m@ == "invoke_virtual on null"@)
                && *final(self) == *old(self),
            receiver is Int || receiver is Long || receiver is Float || receiver is Double ==> r is Err && *final(self) == *old(self),
    {
        self.invoke_virtual_args(receiver, name, sig, Vec::new())
    }

    /// Calls static method `name` with signature `sig` of class `class_desc`.
    pub fn invoke_static(&mut self, class_desc: &str, name: &str, sig: &str, args: Vec<JValue>) -> (r: Result<Exec, crate::error::JvmError>)
        requires
            old(self).wf(),
            stack_ok(old(self).frames@, old(self).dexes@.len() as int),
        ensures
            crate::vm::evolves(old(self), final(self)),
            stack_ok(final(self).frames@, final(self).dexes@.len() as int),
            crate::vm::room_spec(old(self)) && old(self).intern@.len() + 3 < 0x7fff_ffff
                && !crate::vm::loaded_desc(old(self), class_desc@) && crate::vm::unprovided(old(self), class_desc@)
                ==> (r matches Err(crate::error::JvmError::Resolution(m)) && m@ == "class not found: "@ + class_desc@),
    {
        let ghost v0 = *self;
        proof { crate::vm::lemma_evolves_refl(self); }
        let n = self.intern_checked(name);
        proof { crate::vm::lemma_grows_evolves(&v0, self); }
        let n = n?;
        let ghost v1 = *self;
        let s = self.intern_checked(sig);
        proof {
            crate::vm::lemma_grows_evolves(&v1, self);
            crate::vm::lemma_evolves_trans(&v0, &v1, self);
        }
        let s = s?;
        let ghost v2 = *self;
        let c = self.intern_checked(class_desc);
        proof {
            crate::vm::lemma_grows_evolves(&v2, self);
            crate::vm::lemma_evolves_trans(&v0, &v2, self);
        }
        let c = c?;
        proof {
            if !crate::vm::loaded_desc(&v0, class_desc@) {
                assert forall|j: int| 0 <= j < self.classes@.len() implies self.classes@[j].descriptor != c by {
                    assert(v0.class_ok(v0.classes@[j]));
                    assert(self.classes@[j] == v0.classes@[j]);
                    if self.classes@[j].descriptor == c {
                        assert(v0.intern@[v0.classes@[j].descriptor as int]@ == class_desc@);
                    }
                }
            }
        }
        let mref = MethodRef { name: n, sig: s, ret: 0, args: Vec::new(), class_desc: c };
        let ghost v3 = *self;
        let target = self.resolve_target(InvokeKind::Static, &mref, None, 0);
        proof {
            crate::vm::lemma_grows_evolves(&v3, self);
            crate::vm::lemma_evolves_trans(&v0, &v3, self);
        }
        let target = target?;
        let ghost v4 = *self;
        let r = self.call_target(target, args);
        proof { crate::vm::lemma_evolves_trans(&v0, &v4, self); }
        r
    }

    /// Runs `<clinit>` (slot `slot`) of class `class` to completion; host
    /// work inside a static initializer run this way is refused.
    fn run_clinit(&mut self, class: u32, slot: u32) -> (r: Result<(), crate::error::JvmError>)
        requires
            old(self).wf(),
            stack_ok(old(self).frames@, old(self).dexes@.len() as int),
        ensures
            crate::vm::evolves(old(self), final(self)),
            stack_ok(final(self).frames@, final(self).dexes@.len() as int),
    {
        let ghost v0 = *self;
        proof { crate::vm::lemma_evolves_refl(self); }
        let base = self.frames.len();
        self.push_frame(class, slot, Vec::new(), Some(class))?;
        let r = self.run_loop(base);
        match r {
            Ok(Exec::Done(_)) => Ok(()),
            Ok(_) => {
                self.frames.truncate(base);
                Err(crate::error::JvmError::Fatal(String::from_str("host work inside a static initializer")))
            },
            Err(e) => {
                self.frames.truncate(base);
                Err(e)
            },
        }
    }

    /// Static field read: initializes the owning class first (running its
    /// `<clinit>`), and materializes a lazy shim value on first read.
    pub fn static_field_get(&mut self, fr: FieldRef) -> (r: Result<JValue, crate::error::JvmError>)
        requires
            old(self).wf(),
            stack_ok(old(self).frames@, old(self).dexes@.len() as int),
            (fr.class_desc as int) < old(self).intern@.len(),
        ensures
            crate::vm::evolves(old(self), final(self)),
            stack_ok(final(self).frames@, final(self).dexes@.len() as int),
            r matches Ok(v) ==> exists|owner: u32, off: u32| (owner as int) < final(self).classes@.len()
                && (off as int) < final(self).classes@[owner as int].statics@.len()
                && #[trigger] final(self).classes@[owner as int].statics@[off as int] == v,
            crate::statics::static_settled(old(self), fr) matches Some(x) ==> r == Ok::<JValue, crate::error::JvmError>(x)
                && *final(self) == *old(self),
    {
        let ghost v0 = *self;
        let (owner, off) = self.static_access(fr)?;
        let ghost v1 = *self;
        match self.ensure_class_initialized(owner) {
            Some(slot) => {
                proof { crate::vm::lemma_evolves_trans(&v0, &v1, self); }
                let ghost v2 = *self;
                let r = self.run_clinit(owner, slot);
                proof { crate::vm::lemma_evolves_trans(&v0, &v2, self); }
                r?;
            },
            None => {
                proof { crate::vm::lemma_evolves_trans(&v0, &v1, self); }
            },
        }
        if (owner as usize) >= self.classes.len() || (off as usize) >= self.classes[owner as usize].statics.len() {
            return Err(crate::error::JvmError::Resolution(String::from_str("static field slot missing")));
        }
        let ghost v3 = *self;
        let v = self.static_read(owner, off);
        proof { crate::vm::lemma_evolves_trans(&v0, &v3, self); }
        Ok(v)
    }

    /// Static field write: initializes the owning class first.
    pub fn static_field_put(&mut self, fr: FieldRef, v: JValue) -> (r: Result<(), crate::error::JvmError>)
        requires
            old(self).wf(),
            stack_ok(old(self).frames@, old(self).dexes@.len() as int),
            (fr.class_desc as int) < old(self).intern@.len(),
        ensures
            crate::vm::evolves(old(self), final(self)),
            stack_ok(final(self).frames@, final(self).dexes@.len() as int),
            r is Ok ==> exists|owner: u32, off: u32| (owner as int) < final(self).classes@.len()
                && (off as int) < final(self).classes@[owner as int].statics@.len()
                && #[trigger] final(self).classes@[owner as int].statics@[off as int] == v,
            crate::statics::static_owner_ready(old(self), fr) ==> r is Ok
                && crate::statics::static_settled(final(self), fr) == Some(v),
    {
        let ghost v0 = *self;
        let (owner, off) = self.static_access(fr)?;
        let ghost v1 = *self;
        match self.ensure_class_initialized(owner) {
            Some(slot) => {
                proof { crate::vm::lemma_evolves_trans(&v0, &v1, self); }
                let ghost v2 = *self;
                let r = self.run_clinit(owner, slot);
                proof { crate::vm::lemma_evolves_trans(&v0, &v2, self); }
                r?;
            },
            None => {
                proof { crate::vm::lemma_evolves_trans(&v0, &v1, self); }
            },
        }
        if (owner as usize) >= self.classes.len() || (off as usize) >= self.classes[owner as usize].statics.len() {
            return Err(crate::error::JvmError::Resolution(String::from_str("static field slot missing")));
        }
        let ghost v3 = *self;
        self.set_static(owner, off, v);
        proof {
            if crate::statics::static_owner_ready(&v0, fr) {
                assert(v3 == v0);
                crate::statics::lemma_slot_same_shape(&v0, self, fr);
            }
            crate::vm::lemma_evolves_trans(&v0, &v3, self);
            assert(self.classes@[owner as int].statics@[off as int] == v);
        }
        Ok(())
    }
}

} // verus!
