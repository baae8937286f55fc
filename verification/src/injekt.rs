//! The injekt registry: which concrete type a `FullTypeReference` subclass
//! stands for, read off the bytecode pattern
//! `new-instance S; invoke getType; move-result; invoke getInstance;
//! move-result r; check-cast r, T`, and the runtime generic signature of a
//! loaded class.

use vstd::prelude::*;

use crate::class::{CodeItem, Method};
use crate::dex::DexFile;
use crate::insn::{Args, Insn};
use crate::value::{str_eq, to_owned_string};
use crate::vm::{lemma_wf_grow, registry_ok, Vm};

verus! {

/// What the scan of one method remembers between instructions.
#[verifier::ext_equal]
pub struct ScanView {
    /// Register -> dex type of the last `new-instance` into it.
    pub last_new: Seq<Option<u32>>,
    /// Register -> subclass type whose `getType()` result it holds.
    pub type_reg: Seq<Option<u32>>,
    /// Subclass type of a `getType()` call awaiting its `move-result`.
    pub pending_get_type: Option<u32>,
    /// Subclass type of a `getInstance()` call awaiting its `move-result`.
    pub want_result: Option<u32>,
    /// Result register and subclass type awaiting the `check-cast`.
    pub pending_inst: Option<(u16, u32)>,
}

/// The scan state at the start of a method with `n` registers.
pub open spec fn scan_start(n: nat) -> ScanView {
    ScanView {
        last_new: Seq::new(n, |i: int| None::<u32>),
        type_reg: Seq::new(n, |i: int| None::<u32>),
        pending_get_type: None,
        want_result: None,
        pending_inst: None,
    }
}

/// Register operand `i` of an argument list (the range form counts up from
/// its first register).
pub open spec fn arg_reg(args: Args, i: int) -> int {
    match args {
        Args::List { regs, .. } => regs@[i] as int,
        Args::Range { first, .. } => first + i,
    }
}

/// Entry `r` of a register table, `None` outside it.
pub open spec fn reg_get(tab: Seq<Option<u32>>, r: int) -> Option<u32> {
    if 0 <= r < tab.len() { tab[r] } else { None }
}

/// Name of the method referenced by method id `m` ("" when out of range).
pub open spec fn method_name(d: DexFile, m: u32) -> Seq<char> {
    let name = d.methods@[m as int].name;
    if (name as int) < d.strings@.len() { d.strings@[name as int]@ } else { Seq::empty() }
}

/// Descriptor of the class owning method id `m`: a type id out of range
/// reads type string 0, a string id out of range reads "".
pub open spec fn method_owner(d: DexFile, m: u32) -> Seq<char> {
    let t = d.methods@[m as int].class;
    let s = if (t as int) < d.types@.len() { d.types@[t as int] } else { 0 };
    if (s as int) < d.strings@.len() { d.strings@[s as int]@ } else { Seq::empty() }
}

/// One instruction of the scan: the next state, and the (subclass type,
/// concrete type) pair it completes, if any.
pub open spec fn scan_step(d: DexFile, st: ScanView, insn: Insn) -> (ScanView, Option<(u32, u32)>) {
    match insn {
        Insn::NewInstance(reg, t) => {
            let last_new = if (reg as int) < st.last_new.len() { st.last_new.update(reg as int, Some(t)) } else { st.last_new };
            (ScanView { last_new, ..st }, None)
        },
        Insn::MoveResult(reg) => {
            let type_reg = match st.pending_get_type {
                Some(sub) => if (reg as int) < st.type_reg.len() { st.type_reg.update(reg as int, Some(sub)) } else { st.type_reg },
                None => st.type_reg,
            };
            let pending_inst = match st.want_result {
                Some(sub) => Some((reg, sub)),
                None => st.pending_inst,
            };
            let last_new = if (reg as int) < st.last_new.len() { st.last_new.update(reg as int, None) } else { st.last_new };
            (ScanView { last_new, type_reg, pending_get_type: None, want_result: None, pending_inst }, None)
        },
        Insn::Invoke(_, m, args) => {
            if (m as int) >= d.methods@.len() {
                (st, None)
            } else if method_name(d, m) == "getType"@ && method_owner(d, m) == "Luy/kohesive/injekt/api/FullTypeReference;"@ {
                match reg_get(st.last_new, arg_reg(args, 0)) {
                    Some(sid) => (ScanView { pending_get_type: Some(sid), ..st }, None),
                    None => (st, None),
                }
            } else if method_name(d, m) == "getInstance"@ && method_owner(d, m) == "Luy/kohesive/injekt/api/InjektFactory;"@ {
                match reg_get(st.type_reg, arg_reg(args, 1)) {
                    Some(sub) => (ScanView { want_result: Some(sub), ..st }, None),
                    None => (st, None),
                }
            } else {
                (st, None)
            }
        },
        Insn::CheckCast(reg, t) => {
            match st.pending_inst {
                Some((r, sub)) => (ScanView { pending_inst: None, ..st }, if r == reg { Some((sub, t)) } else { None }),
                None => (st, None),
            }
        },
        _ => (st, None),
    }
}

/// The pairs the scan completes over `insns` from state `st`, in order.
pub open spec fn scan_run(d: DexFile, insns: Seq<Insn>, st: ScanView) -> Seq<(u32, u32)>
    decreases insns.len(),
{
    if insns.len() == 0 {
        Seq::empty()
    } else {
        let (next, found) = scan_step(d, st, insns[0]);
        let here = match found {
            Some(p) => seq![p],
            None => Seq::empty(),
        };
        here + scan_run(d, insns.subrange(1, insns.len() as int), next)
    }
}

/// The (subclass descriptor, concrete descriptor) pairs of one method.
pub open spec fn method_pairs(vm: &Vm, m: Method) -> Seq<(Seq<char>, Seq<char>)> {
    match m.code {
        Some(code) => if (m.dex_idx as int) < vm.dexes@.len() {
            let d = vm.dexes@[m.dex_idx as int];
            scan_run(d, code.insns@, scan_start(code.registers_size as nat)).map_values(
                |p: (u32, u32)| (d.type_desc(p.0), d.type_desc(p.1)),
            )
        } else {
            Seq::empty()
        },
        None => Seq::empty(),
    }
}

/// The pairs of a list of methods, in order.
pub open spec fn methods_pairs(vm: &Vm, ms: Seq<Method>) -> Seq<(Seq<char>, Seq<char>)>
    decreases ms.len(),
{
    if ms.len() == 0 {
        Seq::empty()
    } else {
        methods_pairs(vm, ms.drop_last()) + method_pairs(vm, ms.last())
    }
}

/// The pairs of the first `n` loaded classes, in class order.
pub open spec fn classes_pairs(vm: &Vm, n: int) -> Seq<(Seq<char>, Seq<char>)>
    decreases n,
{
    if n <= 0 {
        Seq::empty()
    } else {
        classes_pairs(vm, n - 1) + methods_pairs(vm, vm.classes@[n - 1].methods@)
    }
}

/// The registry entry for `key`: the last one recorded.
pub open spec fn registry_get(reg: Seq<(u32, u32)>, key: u32) -> Option<u32>
    decreases reg.len(),
{
    if reg.len() == 0 {
        None
    } else if reg.last().0 == key {
        Some(reg.last().1)
    } else {
        registry_get(reg.drop_last(), key)
    }
}

/// A registry hit is one of the registry's entries.
pub proof fn lemma_registry_get_in(reg: Seq<(u32, u32)>, key: u32)
    ensures
        registry_get(reg, key) matches Some(t) ==> exists|i: int| 0 <= i < reg.len() && #[trigger] reg[i] == (key, t),
    decreases reg.len(),
{
    if reg.len() > 0 && reg.last().0 != key {
        lemma_registry_get_in(reg.drop_last(), key);
        if registry_get(reg, key) is Some {
            let i = choose|i: int| 0 <= i < reg.drop_last().len() && #[trigger] reg.drop_last()[i] == (key, registry_get(reg, key)->Some_0);
            assert(reg[i] == reg.drop_last()[i]);
        }
    } else if reg.len() > 0 {
        assert(reg[reg.len() - 1] == reg.last());
    }
}

/// Entries `reg` record `pairs` by interned id, in order.
pub open spec fn records(vm: &Vm, reg: Seq<(u32, u32)>, pairs: Seq<(Seq<char>, Seq<char>)>) -> bool {
    &&& reg.len() == pairs.len()
    &&& forall|i: int| 0 <= i < reg.len() ==> {
        &&& (#[trigger] reg[i]).0 < vm.intern@.len()
        &&& reg[i].1 < vm.intern@.len()
        &&& vm.intern@[reg[i].0 as int]@ == pairs[i].0
        &&& vm.intern@[reg[i].1 as int]@ == pairs[i].1
    }
}

/// Register operand `i` (below 5) of an argument list.
fn arg_reg_exec(args: &Args, i: usize) -> (r: usize)
    requires
        i < 5,
    ensures
        r as int == arg_reg(*args, i as int),
{
    match args {
        Args::List { regs, .. } => regs[i] as usize,
        Args::Range { first, .. } => *first as usize + i,
    }
}

/// The exec state of the scan of one method.
struct Scan {
    last_new: Vec<Option<u32>>,
    type_reg: Vec<Option<u32>>,
    pending_get_type: Option<u32>,
    want_result: Option<u32>,
    pending_inst: Option<(u16, u32)>,
}

impl Scan {
    spec fn view(&self) -> ScanView {
        ScanView {
            last_new: self.last_new@,
            type_reg: self.type_reg@,
            pending_get_type: self.pending_get_type,
            want_result: self.want_result,
            pending_inst: self.pending_inst,
        }
    }

    fn new(n: usize) -> (r: Scan)
        ensures
            r.view() == scan_start(n as nat),
    {
        let mut last_new: Vec<Option<u32>> = Vec::new();
        let mut type_reg: Vec<Option<u32>> = Vec::new();
        let mut i: usize = 0;
        while i < n
            invariant
                i <= n,
                last_new@ == Seq::new(i as nat, |k: int| None::<u32>),
                type_reg@ == Seq::new(i as nat, |k: int| None::<u32>),
            decreases n - i,
        {
            last_new.push(None);
            type_reg.push(None);
            i += 1;
        }
        Scan { last_new, type_reg, pending_get_type: None, want_result: None, pending_inst: None }
    }

    /// Applies one instruction; returns the pair it completes.
    fn step(&mut self, d: &DexFile, insn: Insn) -> (found: Option<(u32, u32)>)
        ensures
            (final(self).view(), found) == scan_step(*d, old(self).view(), insn),
    {
        match insn {
            Insn::NewInstance(reg, t) => {
                if (reg as usize) < self.last_new.len() {
                    self.last_new.set(reg as usize, Some(t));
                }
                proof {
                    let st = old(self).view();
                    let ln = if (reg as int) < st.last_new.len() { st.last_new.update(reg as int, Some(t)) } else { st.last_new };
                    assert(self.last_new@ =~= ln);
                    assert(self.view() =~= (ScanView { last_new: ln, ..st }));
                }
                None
            },
            Insn::MoveResult(reg) => {
                match self.pending_get_type {
                    Some(sub) => {
                        if (reg as usize) < self.type_reg.len() {
                            self.type_reg.set(reg as usize, Some(sub));
                        }
                    },
                    None => {},
                }
                self.pending_get_type = None;
                match self.want_result {
                    Some(sub) => {
                        self.pending_inst = Some((reg, sub));
                    },
                    None => {},
                }
                self.want_result = None;
                if (reg as usize) < self.last_new.len() {
                    self.last_new.set(reg as usize, None);
                }
                None
            },
            Insn::Invoke(_, m, args) => {
                let mref = match d.method_at(m) {
                    Some(mref) => mref,
                    None => return None,
                };
                let name = match d.string_at(mref.name) {
                    Some(s) => s,
                    None => "",
                };
                let owner_sid: u32 = if (mref.class as usize) < d.types.len() { d.types[mref.class as usize] } else { 0 };
                let owner = match d.string_at(owner_sid) {
                    Some(s) => s,
                    None => "",
                };
                proof {
                    reveal_strlit("");
                    assert(""@ =~= Seq::<char>::empty());
                    assert(name@ == method_name(*d, m));
                    assert(owner@ == method_owner(*d, m));
                }
                if str_eq(name, "getType") && str_eq(owner, "Luy/kohesive/injekt/api/FullTypeReference;") {
                    let recv = arg_reg_exec(&args, 0);
                    if recv < self.last_new.len() {
                        match self.last_new[recv] {
                            Some(sid) => {
                                self.pending_get_type = Some(sid);
                            },
                            None => {},
                        }
                    }
                } else if str_eq(name, "getInstance") && str_eq(owner, "Luy/kohesive/injekt/api/InjektFactory;") {
                    let targ = arg_reg_exec(&args, 1);
                    if targ < self.type_reg.len() {
                        match self.type_reg[targ] {
                            Some(sub) => {
                                self.want_result = Some(sub);
                            },
                            None => {},
                        }
                    }
                }
                None
            },
            Insn::CheckCast(reg, t) => {
                match self.pending_inst {
                    Some((r, sub)) => {
                        self.pending_inst = None;
                        if r == reg { Some((sub, t)) } else { None }
                    },
                    None => None,
                }
            },
            _ => None,
        }
    }
}

/// The (subclass type, concrete type) pairs of one method body.
fn scan_code(d: &DexFile, code: &CodeItem) -> (r: Vec<(u32, u32)>)
    ensures
        r@ == scan_run(*d, code.insns@, scan_start(code.registers_size as nat)),
{
    let mut st = Scan::new(code.registers_size as usize);
    let mut out: Vec<(u32, u32)> = Vec::new();
    let n = code.insns.len();
    let ghost all = code.insns@;
    let mut i: usize = 0;
    proof {
        assert(all.subrange(0, n as int) =~= all);
        assert(out@ + scan_run(*d, all, st.view()) =~= scan_run(*d, all, st.view()));
    }
    while i < n
        invariant
            n == all.len(),
            all == code.insns@,
            i <= n,
            out@ + scan_run(*d, all.subrange(i as int, n as int), st.view()) == scan_run(
                *d,
                all,
                scan_start(code.registers_size as nat),
            ),
        decreases n - i,
    {
        let ghost before = st.view();
        let ghost rest = all.subrange(i as int, n as int);
        let ghost out0 = out@;
        let found = st.step(d, code.insns[i]);
        proof {
            assert(rest[0] == all[i as int]);
            assert(rest.subrange(1, rest.len() as int) =~= all.subrange(i + 1, n as int));
        }
        match found {
            Some(p) => {
                out.push(p);
            },
            None => {},
        }
        proof {
            let tail = scan_run(*d, all.subrange(i + 1, n as int), st.view());
            let here = match found {
                Some(p) => seq![p],
                None => Seq::empty(),
            };
            assert(out@ =~= out0 + here);
            assert(out0 + (here + tail) =~= (out0 + here) + tail);
        }
        i += 1;
    }
    proof {
        assert(all.subrange(n as int, n as int) =~= Seq::<Insn>::empty());
        assert(out@ + Seq::<(u32, u32)>::empty() =~= out@);
    }
    out
}

/// The descriptor pairs as plain sequences.
pub open spec fn pair_views(s: Seq<(String, String)>) -> Seq<(Seq<char>, Seq<char>)> {
    s.map_values(|p: (String, String)| (p.0@, p.1@))
}

/// Everything but the intern table and the injekt registry is unchanged,
/// and the intern table only gained entries.
pub open spec fn registry_post(old_vm: &Vm, new_vm: &Vm) -> bool {
    &&& new_vm.wf()
    &&& old_vm.grows_to(new_vm)
    &&& *new_vm == (Vm {
        intern: new_vm.intern,
        injekt_type_by_subclass: new_vm.injekt_type_by_subclass,
        injekt_scanned_classes: new_vm.injekt_scanned_classes,
        ..*old_vm
    })
}

impl Vm {
    /// The (subclass, concrete type) descriptor pairs of every loaded
    /// method, in class and method order.
    fn collect_injekt_pairs(&self) -> (r: Vec<(String, String)>)
        ensures
            pair_views(r@) == classes_pairs(self, self.classes@.len() as int),
    {
        let mut pairs: Vec<(String, String)> = Vec::new();
        let n = self.classes.len();
        let mut c: usize = 0;
        while c < n
            invariant
                n == self.classes@.len(),
                c <= n,
                pair_views(pairs@) == classes_pairs(self, c as int),
            decreases n - c,
        {
            let ms = &self.classes[c].methods;
            let k = ms.len();
            let mut j: usize = 0;
            proof {
                assert(ms@.take(0) =~= Seq::<Method>::empty());
                assert(pair_views(pairs@) + Seq::empty() =~= pair_views(pairs@));
            }
            while j < k
                invariant
                    n == self.classes@.len(),
                    c < n,
                    ms == &self.classes@[c as int].methods,
                    k == ms@.len(),
                    j <= k,
                    pair_views(pairs@) == classes_pairs(self, c as int) + methods_pairs(self, ms@.take(j as int)),
                decreases k - j,
            {
                let m = &ms[j];
                let ghost before = pairs@;
                let mut added: Vec<(String, String)> = Vec::new();
                match &m.code {
                    Some(code) => {
                        if (m.dex_idx as usize) < self.dexes.len() {
                            let d = &self.dexes[m.dex_idx as usize];
                            let found = scan_code(d, code);
                            let mut q: usize = 0;
                            while q < found.len()
                                invariant
                                    q <= found@.len(),
                                    pair_views(added@) == found@.take(q as int).map_values(
                                        |p: (u32, u32)| (d.type_desc(p.0), d.type_desc(p.1)),
                                    ),
                                decreases found@.len() - q,
                            {
                                let a = to_owned_string(d.type_descriptor(found[q].0));
                                let b = to_owned_string(d.type_descriptor(found[q].1));
                                let ghost a0 = added@;
                                added.push((a, b));
                                proof {
                                    assert(added@ =~= a0.push((a, b)));
                                    assert(pair_views(added@) =~= pair_views(a0).push((a@, b@)));
                                    assert(found@.take(q + 1) =~= found@.take(q as int).push(found@[q as int]));
                                    assert(pair_views(added@) =~= found@.take(q + 1).map_values(
                                        |p: (u32, u32)| (d.type_desc(p.0), d.type_desc(p.1)),
                                    ));
                                }
                                q += 1;
                            }
                            proof {
                                assert(found@.take(found@.len() as int) =~= found@);
                            }
                        }
                    },
                    None => {},
                }
                proof {
                    assert(pair_views(added@) == method_pairs(self, ms@[j as int]));
                }
                let mut q: usize = 0;
                while q < added.len()
                    invariant
                        q <= added@.len(),
                        pair_views(pairs@) == pair_views(before) + pair_views(added@.take(q as int)),
                    decreases added@.len() - q,
                {
                    let ghost p0 = pairs@;
                    let a = to_owned_string(added[q].0.as_str());
                    let b = to_owned_string(added[q].1.as_str());
                    pairs.push((a, b));
                    proof {
                        assert(pairs@ =~= p0.push((a, b)));
                        assert(pair_views(pairs@) =~= pair_views(p0).push((a@, b@)));
                        assert(pair_views(added@.take(q + 1)) =~= pair_views(added@.take(q as int)).push((added@[q as int].0@, added@[q as int].1@)));
                        assert(added@.take(q + 1) =~= added@.take(q as int).push(added@[q as int]));
                        assert(pair_views(pairs@) =~= pair_views(before) + pair_views(added@.take(q + 1)));
                    }
                    q += 1;
                }
                proof {
                    assert(added@.take(added@.len() as int) =~= added@);
                    assert(ms@.take(j + 1).drop_last() =~= ms@.take(j as int));
                    assert(ms@.take(j + 1).last() == ms@[j as int]);
                    assert(pair_views(pairs@) =~= classes_pairs(self, c as int) + methods_pairs(self, ms@.take(j + 1)));
                }
                j += 1;
            }
            proof {
                assert(ms@.take(k as int) =~= ms@);
            }
            c += 1;
        }
        pairs
    }

    /// Rebuilds the injekt registry from the bytecode of every loaded
    /// method: each completed pattern records (subclass, concrete type) by
    /// interned id, later records winning. Recording stops when the intern
    /// table is full.
    pub fn scan_injekt_types(&mut self)
        requires
            old(self).wf(),
        ensures
            registry_post(old(self), final(self)),
            final(self).injekt_scanned_classes == old(self).classes@.len(),
            ({
                let pairs = classes_pairs(old(self), old(self).classes@.len() as int);
                let reg = final(self).injekt_type_by_subclass@;
                let base = old(self).injekt_type_by_subclass@.len();
                &&& reg.len() >= base
                &&& reg.subrange(0, base as int) == old(self).injekt_type_by_subclass@
                &&& reg.len() - base <= pairs.len()
                &&& records(final(self), reg.subrange(base as int, reg.len() as int), pairs.take(reg.len() - base))
                &&& (old(self).intern@.len() + 2 * pairs.len() < 0xffff_fff0 ==> reg.len() - base == pairs.len())
            }),
    {
        let pairs = self.collect_injekt_pairs();
        let ghost pv = pair_views(pairs@);
        let ghost old_vm = *self;
        let base = self.injekt_type_by_subclass.len();
        self.injekt_scanned_classes = self.classes.len();
        let mut i: usize = 0;
        while i < pairs.len() && self.intern.len() < 0xffff_fff0
            invariant
                i <= pairs@.len(),
                pv == pair_views(pairs@),
                base == old_vm.injekt_type_by_subclass@.len(),
                registry_post(&old_vm, self),
                self.injekt_scanned_classes == old_vm.classes@.len(),
                self.injekt_type_by_subclass@.len() == base + i,
                self.injekt_type_by_subclass@.subrange(0, base as int) == old_vm.injekt_type_by_subclass@,
                records(self, self.injekt_type_by_subclass@.subrange(base as int, base + i), pv.take(i as int)),
                self.intern@.len() <= old_vm.intern@.len() + 2 * i,
            decreases pairs@.len() - i,
        {
            let ghost v0 = *self;
            let a = self.intern(pairs[i].0.as_str());
            let b = self.intern(pairs[i].1.as_str());
            proof {
                lemma_wf_grow(&v0, self);
            }
            let ghost v1 = *self;
            self.injekt_type_by_subclass.push((a, b));
            proof {
                assert(registry_ok(self.injekt_type_by_subclass@, self.intern@.len())) by {
                    assert forall|k: int| 0 <= k < self.injekt_type_by_subclass@.len() implies
                        (#[trigger] self.injekt_type_by_subclass@[k]).0 < self.intern@.len()
                        && self.injekt_type_by_subclass@[k].1 < self.intern@.len() by {
                        if k < v1.injekt_type_by_subclass@.len() {
                            assert(self.injekt_type_by_subclass@[k] == v1.injekt_type_by_subclass@[k]);
                        }
                    }
                }
                let reg = self.injekt_type_by_subclass@;
                assert(reg.subrange(0, base as int) =~= old_vm.injekt_type_by_subclass@);
                assert(pv.take(i + 1) =~= pv.take(i as int).push(pv[i as int]));
                let added = reg.subrange(base as int, base + i + 1);
                assert(added =~= v0.injekt_type_by_subclass@.subrange(base as int, base + i).push((a, b)));
                assert forall|k: int| 0 <= k < added.len() implies {
                    &&& (#[trigger] added[k]).0 < self.intern@.len()
                    &&& added[k].1 < self.intern@.len()
                    &&& self.intern@[added[k].0 as int]@ == pv.take(i + 1)[k].0
                    &&& self.intern@[added[k].1 as int]@ == pv.take(i + 1)[k].1
                } by {
                    if k < i {
                        assert(added[k] == v0.injekt_type_by_subclass@.subrange(base as int, base + i)[k]);
                    }
                }
            }
            i += 1;
        }
    }

    /// The concrete type recorded for the `FullTypeReference` subclass whose
    /// interned descriptor is `subclass_desc`; the registry is rebuilt first
    /// when classes were loaded since the last scan.
    pub fn injekt_type_of(&mut self, subclass_desc: u32) -> (r: Option<u32>)
        requires
            old(self).wf(),
        ensures
            registry_post(old(self), final(self)),
            r == registry_get(final(self).injekt_type_by_subclass@, subclass_desc),
            old(self).injekt_scanned_classes == old(self).classes@.len() ==> *final(self) == *old(self),
            old(self).injekt_scanned_classes != old(self).classes@.len() ==> final(self).injekt_scanned_classes
                == old(self).classes@.len(),
    {
        if self.injekt_scanned_classes != self.classes.len() {
            self.scan_injekt_types();
        }
        registry_lookup(&self.injekt_type_by_subclass, subclass_desc)
    }

    /// Runtime generic signature of loaded class `class`: the `Signature`
    /// annotation of its definition in the first dex file that defines it.
    pub fn generic_signature(&self, class: u32) -> (r: Option<String>)
        requires
            self.wf(),
            (class as int) < self.classes@.len(),
        ensures
            ({
                let desc = self.intern@[self.classes@[class as int].descriptor as int]@;
                match r {
                    Some(sig) => exists|d: int, k: int| #[trigger] located(self, desc, d, k)
                        && (self.dexes@[d].classes@[k].generic_signature matches Some(g) && g@ == sig@),
                    None => (exists|d: int, k: int| #[trigger] located(self, desc, d, k)
                        && self.dexes@[d].classes@[k].generic_signature is None)
                        || (self.dexes@.len() <= u32::MAX ==> forall|d: int| 0 <= d < self.dexes@.len()
                            ==> !crate::loader::dex_defines(#[trigger] self.dexes@[d], desc)),
                }
            }),
    {
        let desc = self.str_of(self.classes[class as usize].descriptor);
        match self.class_location(desc) {
            Some((d, k)) => {
                proof {
                    assert(located(self, desc@, d as int, k as int));
                }
                match &self.dexes[d as usize].classes[k].generic_signature {
                    Some(sig) => Some(to_owned_string(sig.as_str())),
                    None => None,
                }
            },
            None => None,
        }
    }
}

/// Class definition `k` of dex `d` is where descriptor `desc` is found:
/// the first dex file that defines it.
pub open spec fn located(vm: &Vm, desc: Seq<char>, d: int, k: int) -> bool {
    &&& 0 <= d < vm.dexes@.len()
    &&& 0 <= k < vm.dexes@[d].classes@.len()
    &&& vm.dexes@[d].type_desc(vm.dexes@[d].classes@[k].class_idx) == desc
    &&& forall|e: int| 0 <= e < d ==> !crate::loader::dex_defines(#[trigger] vm.dexes@[e], desc)
}

/// Looks up the last registry entry for `key`.
pub fn registry_lookup(reg: &Vec<(u32, u32)>, key: u32) -> (r: Option<u32>)
    ensures
        r == registry_get(reg@, key),
{
    let mut i: usize = reg.len();
    proof {
        assert(reg@.take(reg@.len() as int) =~= reg@);
    }
    while i > 0
        invariant
            i <= reg@.len(),
            registry_get(reg@, key) == registry_get(reg@.take(i as int), key),
        decreases i,
    {
        let ghost pre = reg@.take(i as int);
        proof {
            assert(pre.drop_last() =~= reg@.take(i - 1));
        }
        if reg[i - 1].0 == key {
            return Some(reg[i - 1].1);
        }
        i -= 1;
    }
    None
}

} // verus!
