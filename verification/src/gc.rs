//! Mark-and-sweep collection of the object arena.
//!
//! The roots are the interned dex strings, the runtime strings, the static
//! fields of every class, the objects with a monitor entry and the ids the
//! caller names. Every object reachable from a root keeps its slot and
//! contents; every other slot is emptied and handed to the free list.

use vstd::prelude::*;

use crate::object::{filled, payload_refs, refs_of, ArrayData, Native, Object};
use crate::resolve::{count_false, lemma_count_false_set};
use crate::value::JValue;
use crate::vm::Vm;

verus! {

/// `id` is a root of the collection.
pub open spec fn is_root(vm: &Vm, extra: Seq<u32>, id: u32) -> bool {
    ||| exists|i: int| 0 <= i < vm.string_objs@.len() && (#[trigger] vm.string_objs@[i]).1 == id
    ||| exists|i: int| 0 <= i < vm.runtime_strings@.len() && (#[trigger] vm.runtime_strings@[i]).1 == id
    ||| exists|c: int, k: int| 0 <= c < vm.classes@.len() && 0 <= k < vm.classes@[c].statics@.len()
            && #[trigger] vm.classes@[c].statics@[k] == JValue::Obj(id)
    ||| exists|i: int| 0 <= i < vm.monitors@.len() && (#[trigger] vm.monitors@[i]).0 == id
    ||| exists|i: int| 0 <= i < extra.len() && #[trigger] extra[i] == id
}

/// `p` is a chain of live slots starting at a root, each referring to the next.
pub open spec fn gc_path(vm: &Vm, extra: Seq<u32>, p: Seq<u32>) -> bool {
    &&& p.len() > 0
    &&& is_root(vm, extra, p[0])
    &&& forall|i: int| 0 <= i < p.len() ==> (#[trigger] p[i] as int) < vm.arena.objects@.len()
    &&& forall|i: int| 0 <= i < p.len() - 1 ==> refs_of(vm.arena.objects@[p[i] as int]).contains(#[trigger] p[i + 1])
}

/// Object `id` can be reached from a root.
pub open spec fn reachable(vm: &Vm, extra: Seq<u32>, id: u32) -> bool {
    exists|p: Seq<u32>| #[trigger] gc_path(vm, extra, p) && p.last() == id
}

/// Slot `id` is on the arena's free list.
pub open spec fn is_free(vm: &Vm, id: u32) -> bool {
    vm.arena.free@.contains(id)
}

/// The slots a collection of `vm` reclaims: in range, unreachable and not
/// already free.
pub open spec fn collected(vm: &Vm, extra: Seq<u32>, id: u32) -> bool {
    (id as int) < vm.arena.objects@.len() && !reachable(vm, extra, id) && !is_free(vm, id)
}

/// Number of slots below `n` that a collection reclaims.
pub open spec fn count_collected(vm: &Vm, extra: Seq<u32>, n: int) -> nat
    decreases n,
{
    if n <= 0 {
        0
    } else {
        count_collected(vm, extra, n - 1) + if collected(vm, extra, (n - 1) as u32) { 1nat } else { 0nat }
    }
}

proof fn lemma_push_contains(s: Seq<u32>, x: u32, y: u32)
    ensures
        s.push(x).contains(y) <==> (s.contains(y) || x == y),
{
    if s.contains(y) {
        let i = choose|i: int| 0 <= i < s.len() && s[i] == y;
        assert(s.push(x)[i] == y);
    }
    if x == y {
        assert(s.push(x)[s.len() as int] == y);
    }
    if s.push(x).contains(y) {
        let i = choose|i: int| 0 <= i < s.push(x).len() && s.push(x)[i] == y;
        if i < s.len() {
            assert(s[i] == y);
        }
    }
}

/// The ids among `vals[0..k]` that are object references.
pub open spec fn obj_ids(vals: Seq<JValue>, k: int, id: u32) -> bool {
    exists|j: int| 0 <= j < k && vals[j] == JValue::Obj(id)
}

/// Appends the object ids among `vals` to `out`.
fn push_obj_ids(out: &mut Vec<u32>, vals: &Vec<JValue>)
    ensures
        forall|id: u32| final(out)@.contains(id) <==> (old(out)@.contains(id) || obj_ids(vals@, vals@.len() as int, id)),
{
    let ghost start = out@;
    let mut i: usize = 0;
    while i < vals.len()
        invariant
            i <= vals@.len(),
            forall|id: u32| #![trigger out@.contains(id)] #![trigger obj_ids(vals@, i as int, id)]
                out@.contains(id) <==> (start.contains(id) || obj_ids(vals@, i as int, id)),
        decreases vals@.len() - i,
    {
        let ghost o0 = out@;
        let v = vals[i];
        match v {
            JValue::Obj(id) => {
                out.push(id);
            },
            _ => {},
        }
        proof {
            assert forall|y: u32| #[trigger] out@.contains(y) <==> (start.contains(y) || obj_ids(vals@, i + 1, y)) by {
                assert(o0.contains(y) <==> (start.contains(y) || obj_ids(vals@, i as int, y)));
                match v {
                    JValue::Obj(id) => {
                        assert(out@ == o0.push(id));
                        lemma_push_contains(o0, id, y);
                    },
                    _ => {
                        assert(out@ == o0);
                    },
                }
                if obj_ids(vals@, i + 1, y) && !obj_ids(vals@, i as int, y) {
                    let j = choose|j: int| 0 <= j < i + 1 && vals@[j] == JValue::Obj(y);
                    assert(j == i);
                }
                if obj_ids(vals@, i as int, y) {
                    let j = choose|j: int| 0 <= j < i && vals@[j] == JValue::Obj(y);
                    assert(0 <= j < i + 1 && vals@[j] == JValue::Obj(y));
                }
                if v == JValue::Obj(y) {
                    assert(vals@[i as int] == JValue::Obj(y));
                    assert(obj_ids(vals@, i + 1, y));
                }
            }
        }
        i += 1;
    }
}

/// The object ids an object refers to, each at least once.
pub fn collect_refs(o: &Object) -> (r: Vec<u32>)
    ensures
        forall|id: u32| r@.contains(id) <==> refs_of(*o).contains(id),
{
    let mut out: Vec<u32> = Vec::new();
    push_obj_ids(&mut out, &o.fields);
    let pv = payload_values(&o.native);
    push_obj_ids(&mut out, &pv);
    proof {
        assert forall|id: u32| out@.contains(id) <==> refs_of(*o).contains(id) by {
            assert(Seq::<u32>::empty().contains(id) == false);
        }
    }
    out
}

/// The values a payload holds references in, in order.
fn payload_values(n: &Option<Native>) -> (r: Vec<JValue>)
    ensures
        r@ == payload_refs(*n),
{
    match n {
        Some(Native::Array(ArrayData::Obj(v))) => copy_values(v),
        Some(Native::List(v)) => copy_values(v),
        Some(Native::HashSet(v)) => copy_values(v),
        Some(Native::HashMap(m)) => {
            let mut out: Vec<JValue> = Vec::new();
            let mut i: usize = 0;
            while i < m.len()
                invariant
                    i <= m@.len(),
                    out@ == Seq::new(2 * i as nat, |j: int| if j % 2 == 0 { m@[j / 2].0 } else { m@[j / 2].1 }),
                decreases m@.len() - i,
            {
                out.push(m[i].0);
                out.push(m[i].1);
                proof {
                    assert(out@ =~= Seq::new(2 * (i + 1) as nat, |j: int| if j % 2 == 0 { m@[j / 2].0 } else { m@[j / 2].1 }));
                }
                i += 1;
            }
            out
        },
        Some(Native::MapEntry { key, value }) => vec![*key, *value],
        Some(Native::Throwable { message: _, cause }) => vec![*cause],
        Some(Native::Lazy(v)) => vec![*v],
        Some(Native::Thread { name: _, runnable, started: _, alive: _, daemon: _, interrupted: _ }) => vec![*runnable],
        Some(Native::Intent { action: _, data: _, extras }) => {
            let mut out: Vec<JValue> = Vec::new();
            let mut i: usize = 0;
            while i < extras.len()
                invariant
                    i <= extras@.len(),
                    out@ == Seq::new(i as nat, |j: int| extras@[j].1),
                decreases extras@.len() - i,
            {
                out.push(extras[i].1);
                proof {
                    assert(out@ =~= Seq::new((i + 1) as nat, |j: int| extras@[j].1));
                }
                i += 1;
            }
            out
        },
        Some(Native::Activity { intent, finished: _ }) => vec![*intent],
        _ => Vec::new(),
    }
}

/// A copy of a vector of values.
fn copy_values(v: &Vec<JValue>) -> (r: Vec<JValue>)
    ensures
        r@ == v@,
{
    let mut out: Vec<JValue> = Vec::new();
    let mut i: usize = 0;
    while i < v.len()
        invariant
            i <= v@.len(),
            out@ == v@.take(i as int),
        decreases v@.len() - i,
    {
        out.push(v[i]);
        proof {
            assert(v@.take(i + 1) =~= v@.take(i as int).push(v@[i as int]));
        }
        i += 1;
    }
    proof {
        assert(v@.take(v@.len() as int) =~= v@);
    }
    out
}

/// A value refers to no in-range slot, or to a marked one.
spec fn val_marked(marks: Seq<bool>, v: JValue) -> bool {
    match v {
        JValue::Obj(o) => (o as int) < marks.len() ==> marks[o as int],
        _ => true,
    }
}

/// The marking state: a mark per slot and the marked slots still to scan.
struct Marker {
    marks: Vec<bool>,
    stack: Vec<u32>,
}

impl Marker {
    /// Marks are sound for `vm` (each marked slot is reachable), the stack
    /// holds distinct marked slots, and every marked slot off the stack has
    /// all its in-range references marked.
    spec fn ok(&self, vm: &Vm, extra: Seq<u32>) -> bool {
        let n = vm.arena.objects@.len();
        &&& self.marks@.len() == n
        &&& forall|id: u32| (id as int) < n && #[trigger] self.marks@[id as int] ==> reachable(vm, extra, id)
        &&& forall|k: int| 0 <= k < self.stack@.len() ==> (#[trigger] self.stack@[k] as int) < n && self.marks@[self.stack@[k] as int]
        &&& forall|k1: int, k2: int| 0 <= k1 < self.stack@.len() && 0 <= k2 < self.stack@.len() && k1 != k2
            ==> #[trigger] self.stack@[k1] != #[trigger] self.stack@[k2]
        &&& forall|id: u32, r: u32| (id as int) < n && #[trigger] self.marks@[id as int] && !self.stack@.contains(id)
            && #[trigger] refs_of(vm.arena.objects@[id as int]).contains(r) && (r as int) < n ==> self.marks@[r as int]
    }

    /// Marks slot `id` and queues it, unless it is out of range or marked.
    fn seed(&mut self, id: u32)
        ensures
            ((id as usize) < old(self).marks@.len() && !old(self).marks@[id as int]) ==> final(self).marks@
                == old(self).marks@.update(id as int, true) && final(self).stack@ == old(self).stack@.push(id),
            !((id as usize) < old(self).marks@.len() && !old(self).marks@[id as int]) ==> *final(self) == *old(self),
    {
        if (id as usize) < self.marks.len() && !self.marks[id as usize] {
            self.marks.set(id as usize, true);
            self.stack.push(id);
        }
    }
}

/// Seeding a reachable slot keeps the marking sound.
proof fn lemma_seed_ok(m0: Marker, m1: Marker, vm: &Vm, extra: Seq<u32>, id: u32)
    requires
        m0.ok(vm, extra),
        (id as int) < m0.marks@.len() && !m0.marks@[id as int] ==> reachable(vm, extra, id)
            && m1.marks@ == m0.marks@.update(id as int, true) && m1.stack@ == m0.stack@.push(id),
        !((id as int) < m0.marks@.len() && !m0.marks@[id as int]) ==> m1 == m0,
    ensures
        m1.ok(vm, extra),
{
    if (id as int) < m0.marks@.len() && !m0.marks@[id as int] {
        let n = vm.arena.objects@.len();
        assert forall|k1: int, k2: int| 0 <= k1 < m1.stack@.len() && 0 <= k2 < m1.stack@.len() && k1 != k2
            implies #[trigger] m1.stack@[k1] != #[trigger] m1.stack@[k2] by {
            if k1 == m0.stack@.len() as int {
                assert(m0.marks@[m0.stack@[k2] as int]);
            } else if k2 == m0.stack@.len() as int {
                assert(m0.marks@[m0.stack@[k1] as int]);
            } else {
                assert(m1.stack@[k1] == m0.stack@[k1]);
                assert(m1.stack@[k2] == m0.stack@[k2]);
            }
        }
        assert forall|k: int| 0 <= k < m1.stack@.len() implies (#[trigger] m1.stack@[k] as int) < n && m1.marks@[m1.stack@[k] as int] by {
            if k < m0.stack@.len() {
                assert(m1.stack@[k] == m0.stack@[k]);
            }
        }
        assert forall|x: u32, r: u32| (x as int) < n && #[trigger] m1.marks@[x as int] && !m1.stack@.contains(x)
            && #[trigger] refs_of(vm.arena.objects@[x as int]).contains(r) && (r as int) < n implies m1.marks@[r as int] by {
            if x != id {
                if m0.stack@.contains(x) {
                    let k = choose|k: int| 0 <= k < m0.stack@.len() && m0.stack@[k] == x;
                    assert(m1.stack@[k] == x);
                }
                assert(m0.marks@[x as int]);
            } else {
                assert(m1.stack@[m0.stack@.len() as int] == x);
            }
        }
    }
}

/// A root is reachable.
proof fn lemma_root_reachable(vm: &Vm, extra: Seq<u32>, id: u32)
    requires
        is_root(vm, extra, id),
        (id as int) < vm.arena.objects@.len(),
    ensures
        reachable(vm, extra, id),
{
    let p = seq![id];
    assert(gc_path(vm, extra, p));
}

/// A marked closed set holding the roots holds every reachable slot.
proof fn lemma_closed_complete(vm: &Vm, extra: Seq<u32>, marks: Seq<bool>, p: Seq<u32>)
    requires
        marks.len() == vm.arena.objects@.len(),
        forall|id: u32| (id as int) < marks.len() && is_root(vm, extra, id) ==> #[trigger] marks[id as int],
        forall|id: u32, r: u32| (id as int) < marks.len() && #[trigger] marks[id as int]
            && #[trigger] refs_of(vm.arena.objects@[id as int]).contains(r) && (r as int) < marks.len() ==> marks[r as int],
        gc_path(vm, extra, p),
    ensures
        marks[p.last() as int],
    decreases p.len(),
{
    if p.len() > 1 {
        let q = p.drop_last();
        assert forall|i: int| 0 <= i < q.len() implies (#[trigger] q[i] as int) < vm.arena.objects@.len() by {
            assert(q[i] == p[i]);
        }
        assert forall|i: int| 0 <= i < q.len() - 1 implies refs_of(vm.arena.objects@[q[i] as int]).contains(#[trigger] q[i + 1]) by {
            assert(q[i] == p[i]);
            assert(q[i + 1] == p[i + 1]);
        }
        assert(gc_path(vm, extra, q));
        lemma_closed_complete(vm, extra, marks, q);
        let k = p.len() - 2;
        assert(p[k] == q.last());
        assert(refs_of(vm.arena.objects@[p[k] as int]).contains(p[k + 1]));
        assert((p.last() as int) < marks.len());
    } else {
        assert(p[0] == p.last());
    }
}

impl Vm {
    /// Marks every slot reachable from the roots.
    fn mark_from_roots(&self, extra: &[u32]) -> (r: Vec<bool>)
        requires
            self.wf(),
        ensures
            r@.len() == self.arena.objects@.len(),
            forall|id: u32| (id as int) < r@.len() ==> (#[trigger] r@[id as int] <==> reachable(self, extra@, id)),
    {
        let n = self.arena.objects.len();
        let mut m = Marker { marks: filled(false, n), stack: Vec::new() };
        let ghost ex = extra@;
        proof {
            assert(m.ok(self, ex));
        }
        let mut i: usize = 0;
        while i < self.string_objs.len()
            invariant
                m.ok(self, ex),
                n == self.arena.objects@.len(),
                i <= self.string_objs@.len(),
                forall|j: int| 0 <= j < i && (self.string_objs@[j].1 as int) < n ==> m.marks@[self.string_objs@[j].1 as int],
            decreases self.string_objs@.len() - i,
        {
            let id = self.string_objs[i].1;
            let ghost m0 = m;
            m.seed(id);
            proof {
                if (id as int) < n {
                    lemma_root_reachable(self, ex, id);
                }
                lemma_seed_ok(m0, m, self, ex, id);
            }
            i += 1;
        }
        let mut i: usize = 0;
        while i < self.runtime_strings.len()
            invariant
                m.ok(self, ex),
                n == self.arena.objects@.len(),
                i <= self.runtime_strings@.len(),
                forall|j: int| 0 <= j < self.string_objs@.len() && (self.string_objs@[j].1 as int) < n ==> m.marks@[self.string_objs@[j].1 as int],
                forall|j: int| 0 <= j < i && (self.runtime_strings@[j].1 as int) < n ==> m.marks@[self.runtime_strings@[j].1 as int],
            decreases self.runtime_strings@.len() - i,
        {
            let id = self.runtime_strings[i].1;
            let ghost m0 = m;
            m.seed(id);
            proof {
                if (id as int) < n {
                    lemma_root_reachable(self, ex, id);
                }
                lemma_seed_ok(m0, m, self, ex, id);
            }
            i += 1;
        }
        let mut c: usize = 0;
        while c < self.classes.len()
            invariant
                m.ok(self, ex),
                n == self.arena.objects@.len(),
                c <= self.classes@.len(),
                forall|j: int| 0 <= j < self.string_objs@.len() && (self.string_objs@[j].1 as int) < n ==> m.marks@[self.string_objs@[j].1 as int],
                forall|j: int| 0 <= j < self.runtime_strings@.len() && (self.runtime_strings@[j].1 as int) < n ==> m.marks@[self.runtime_strings@[j].1 as int],
                forall|cc: int, k: int| 0 <= cc < c && 0 <= k < self.classes@[cc].statics@.len()
                    ==> val_marked(m.marks@, #[trigger] self.classes@[cc].statics@[k]),
            decreases self.classes@.len() - c,
        {
            let st = &self.classes[c].statics;
            let mut k: usize = 0;
            while k < st.len()
                invariant
                    m.ok(self, ex),
                    n == self.arena.objects@.len(),
                    c < self.classes@.len(),
                    st == &self.classes@[c as int].statics,
                    k <= st@.len(),
                    forall|j: int| 0 <= j < self.string_objs@.len() && (self.string_objs@[j].1 as int) < n ==> m.marks@[self.string_objs@[j].1 as int],
                    forall|j: int| 0 <= j < self.runtime_strings@.len() && (self.runtime_strings@[j].1 as int) < n ==> m.marks@[self.runtime_strings@[j].1 as int],
                    forall|cc: int, kk: int| 0 <= cc < c && 0 <= kk < self.classes@[cc].statics@.len()
                        ==> val_marked(m.marks@, #[trigger] self.classes@[cc].statics@[kk]),
                    forall|kk: int| 0 <= kk < k ==> val_marked(m.marks@, #[trigger] st@[kk]),
                decreases st@.len() - k,
            {
                match st[k] {
                    JValue::Obj(o) => {
                        let ghost m0 = m;
                        m.seed(o);
                        proof {
                            if (o as int) < n {
                                assert(self.classes@[c as int].statics@[k as int] == JValue::Obj(o));
                                lemma_root_reachable(self, ex, o);
                            }
                            lemma_seed_ok(m0, m, self, ex, o);
                        }
                    },
                    _ => {},
                }
                k += 1;
            }
            c += 1;
        }
        let mut i: usize = 0;
        while i < self.monitors.len()
            invariant
                m.ok(self, ex),
                n == self.arena.objects@.len(),
                i <= self.monitors@.len(),
                forall|j: int| 0 <= j < self.string_objs@.len() && (self.string_objs@[j].1 as int) < n ==> m.marks@[self.string_objs@[j].1 as int],
                forall|j: int| 0 <= j < self.runtime_strings@.len() && (self.runtime_strings@[j].1 as int) < n ==> m.marks@[self.runtime_strings@[j].1 as int],
                forall|cc: int, kk: int| 0 <= cc < self.classes@.len() && 0 <= kk < self.classes@[cc].statics@.len()
                    ==> val_marked(m.marks@, #[trigger] self.classes@[cc].statics@[kk]),
                forall|j: int| 0 <= j < i && (self.monitors@[j].0 as int) < n ==> m.marks@[self.monitors@[j].0 as int],
            decreases self.monitors@.len() - i,
        {
            let id = self.monitors[i].0;
            let ghost m0 = m;
            m.seed(id);
            proof {
                if (id as int) < n {
                    lemma_root_reachable(self, ex, id);
                }
                lemma_seed_ok(m0, m, self, ex, id);
            }
            i += 1;
        }
        let mut i: usize = 0;
        while i < extra.len()
            invariant
                m.ok(self, ex),
                n == self.arena.objects@.len(),
                ex == extra@,
                i <= extra@.len(),
                forall|j: int| 0 <= j < self.string_objs@.len() && (self.string_objs@[j].1 as int) < n ==> m.marks@[self.string_objs@[j].1 as int],
                forall|j: int| 0 <= j < self.runtime_strings@.len() && (self.runtime_strings@[j].1 as int) < n ==> m.marks@[self.runtime_strings@[j].1 as int],
                forall|cc: int, kk: int| 0 <= cc < self.classes@.len() && 0 <= kk < self.classes@[cc].statics@.len()
                    ==> val_marked(m.marks@, #[trigger] self.classes@[cc].statics@[kk]),
                forall|j: int| 0 <= j < self.monitors@.len() && (self.monitors@[j].0 as int) < n ==> m.marks@[self.monitors@[j].0 as int],
                forall|j: int| 0 <= j < i && (extra@[j] as int) < n ==> m.marks@[extra@[j] as int],
            decreases extra@.len() - i,
        {
            let id = extra[i];
            let ghost m0 = m;
            m.seed(id);
            proof {
                if (id as int) < n {
                    lemma_root_reachable(self, ex, id);
                }
                lemma_seed_ok(m0, m, self, ex, id);
            }
            i += 1;
        }
        proof {
            assert forall|id: u32| (id as int) < n && is_root(self, ex, id) implies #[trigger] m.marks@[id as int] by {
                if exists|c: int, k: int| 0 <= c < self.classes@.len() && 0 <= k < self.classes@[c].statics@.len()
                    && #[trigger] self.classes@[c].statics@[k] == JValue::Obj(id) {
                    let (c, k) = choose|c: int, k: int| 0 <= c < self.classes@.len() && 0 <= k < self.classes@[c].statics@.len()
                        && #[trigger] self.classes@[c].statics@[k] == JValue::Obj(id);
                    assert(self.classes@[c].statics@[k] == JValue::Obj(id));
                }
            }
        }
        while m.stack.len() > 0
            invariant
                m.ok(self, ex),
                n == self.arena.objects@.len(),
                forall|id: u32| (id as int) < n && is_root(self, ex, id) ==> #[trigger] m.marks@[id as int],
            decreases count_false(m.marks@), m.stack@.len(),
        {
            let ghost s0 = m.stack@;
            let id = match m.stack.pop() {
                Some(x) => x,
                None => 0,
            };
            proof {
                assert(s0.last() == id);
                assert(m.stack@ =~= s0.drop_last());
                assert(!m.stack@.contains(id)) by {
                    if m.stack@.contains(id) {
                        let k = choose|k: int| 0 <= k < m.stack@.len() && m.stack@[k] == id;
                        assert(s0[k] == s0[s0.len() - 1]);
                    }
                }
                assert forall|k: int| 0 <= k < m.stack@.len() implies (#[trigger] m.stack@[k] as int) < n && m.marks@[m.stack@[k] as int] by {
                    assert(m.stack@[k] == s0[k]);
                }
            }
            let ghost m_pop = m;
            proof {
                assert forall|x: u32, r: u32| (x as int) < n && x != id && #[trigger] m.marks@[x as int] && !m.stack@.contains(x)
                    && #[trigger] refs_of(self.arena.objects@[x as int]).contains(r) && (r as int) < n implies m.marks@[r as int] by {
                    if s0.contains(x) {
                        let k = choose|k: int| 0 <= k < s0.len() && s0[k] == x;
                        if k < s0.len() - 1 {
                            assert(m.stack@[k] == x);
                        }
                    }
                }
            }
            let refs = collect_refs(&self.arena.objects[id as usize]);
            let ghost c0 = count_false(m.marks@);
            let mut j: usize = 0;
            while j < refs.len()
                invariant
                    n == self.arena.objects@.len(),
                    (id as int) < n,
                    m.marks@.len() == n,
                    m.marks@[id as int],
                    forall|r: u32| refs@.contains(r) <==> refs_of(self.arena.objects@[id as int]).contains(r),
                    j <= refs@.len(),
                    forall|q: int| 0 <= q < j && (refs@[q] as int) < n ==> m.marks@[refs@[q] as int],
                    // soundness and stack shape, closure for everything but `id`
                    forall|x: u32| (x as int) < n && #[trigger] m.marks@[x as int] ==> reachable(self, ex, x),
                    forall|k: int| 0 <= k < m.stack@.len() ==> (#[trigger] m.stack@[k] as int) < n && m.marks@[m.stack@[k] as int],
                    forall|k1: int, k2: int| 0 <= k1 < m.stack@.len() && 0 <= k2 < m.stack@.len() && k1 != k2
                        ==> #[trigger] m.stack@[k1] != #[trigger] m.stack@[k2],
                    forall|x: u32, r: u32| (x as int) < n && x != id && #[trigger] m.marks@[x as int] && !m.stack@.contains(x)
                        && #[trigger] refs_of(self.arena.objects@[x as int]).contains(r) && (r as int) < n ==> m.marks@[r as int],
                    !m.stack@.contains(id),
                    forall|x: u32| (x as int) < n && #[trigger] m_pop.marks@[x as int] ==> m.marks@[x as int],
                    count_false(m.marks@) <= c0,
                    count_false(m.marks@) == c0 ==> m == m_pop,
                decreases refs@.len() - j,
            {
                let r = refs[j];
                let ghost m0 = m;
                m.seed(r);
                proof {
                    if (r as int) < n && !m0.marks@[r as int] {
                        assert(refs@.contains(r)) by {
                            assert(refs@[j as int] == r);
                        }
                        let p = choose|p: Seq<u32>| #[trigger] gc_path(self, ex, p) && p.last() == id;
                        let p2 = p.push(r);
                        assert(p2[p2.len() - 2] == id);
                        assert forall|i2: int| 0 <= i2 < p2.len() implies (#[trigger] p2[i2] as int) < self.arena.objects@.len() by {
                            if i2 < p.len() {
                                assert(p2[i2] == p[i2]);
                            }
                        }
                        assert forall|i2: int| 0 <= i2 < p2.len() - 1 implies refs_of(self.arena.objects@[p2[i2] as int]).contains(#[trigger] p2[i2 + 1]) by {
                            if i2 < p.len() - 1 {
                                assert(p2[i2] == p[i2]);
                                assert(p2[i2 + 1] == p[i2 + 1]);
                            } else {
                                assert(p2[i2] == p.last());
                            }
                        }
                        assert(gc_path(self, ex, p2));
                        lemma_count_false_set(m0.marks@, r as int);
                        assert(!m.stack@.contains(id)) by {
                            if m.stack@.contains(id) {
                                let k = choose|k: int| 0 <= k < m.stack@.len() && m.stack@[k] == id;
                                if k < m0.stack@.len() {
                                    assert(m0.stack@[k] == id);
                                }
                            }
                        }
                        assert forall|k1: int, k2: int| 0 <= k1 < m.stack@.len() && 0 <= k2 < m.stack@.len() && k1 != k2
                            implies #[trigger] m.stack@[k1] != #[trigger] m.stack@[k2] by {
                            if k1 == m0.stack@.len() as int {
                                assert(m0.marks@[m0.stack@[k2] as int]);
                            } else if k2 == m0.stack@.len() as int {
                                assert(m0.marks@[m0.stack@[k1] as int]);
                            } else {
                                assert(m.stack@[k1] == m0.stack@[k1]);
                                assert(m.stack@[k2] == m0.stack@[k2]);
                            }
                        }
                        assert forall|k: int| 0 <= k < m.stack@.len() implies (#[trigger] m.stack@[k] as int) < n && m.marks@[m.stack@[k] as int] by {
                            if k < m0.stack@.len() {
                                assert(m.stack@[k] == m0.stack@[k]);
                            }
                        }
                        assert forall|x: u32, r2: u32| (x as int) < n && x != id && #[trigger] m.marks@[x as int] && !m.stack@.contains(x)
                            && #[trigger] refs_of(self.arena.objects@[x as int]).contains(r2) && (r2 as int) < n implies m.marks@[r2 as int] by {
                            if x != r {
                                if m0.stack@.contains(x) {
                                    let k = choose|k: int| 0 <= k < m0.stack@.len() && m0.stack@[k] == x;
                                    assert(m.stack@[k] == x);
                                }
                                assert(m0.marks@[x as int]);
                            } else {
                                assert(m.stack@[m0.stack@.len() as int] == x);
                            }
                        }
                    }
                }
                j += 1;
            }
            proof {
                assert forall|x: u32, r: u32| (x as int) < n && #[trigger] m.marks@[x as int] && !m.stack@.contains(x)
                    && #[trigger] refs_of(self.arena.objects@[x as int]).contains(r) && (r as int) < n implies m.marks@[r as int] by {
                    if x == id {
                        assert(refs@.contains(r));
                        let q = choose|q: int| 0 <= q < refs@.len() && refs@[q] == r;
                    }
                }
                assert forall|x: u32| (x as int) < n && is_root(self, ex, x) implies #[trigger] m.marks@[x as int] by {
                    assert(m_pop.marks@[x as int]);
                }
            }
        }
        proof {
            assert forall|id: u32| (id as int) < n implies (#[trigger] m.marks@[id as int] <==> reachable(self, ex, id)) by {
                if reachable(self, ex, id) {
                    let p = choose|p: Seq<u32>| #[trigger] gc_path(self, ex, p) && p.last() == id;
                    assert forall|x: u32, r: u32| (x as int) < m.marks@.len() && #[trigger] m.marks@[x as int]
                        && #[trigger] refs_of(self.arena.objects@[x as int]).contains(r) && (r as int) < m.marks@.len() implies m.marks@[r as int] by {
                        assert(!m.stack@.contains(x));
                    }
                    lemma_closed_complete(self, ex, m.marks@, p);
                }
            }
        }
        m.marks
    }

    /// Which slots are on the free list.
    fn free_slots(&self) -> (r: Vec<bool>)
        requires
            self.wf(),
        ensures
            r@.len() == self.arena.objects@.len(),
            forall|id: u32| (id as int) < r@.len() ==> (#[trigger] r@[id as int] <==> is_free(self, id)),
    {
        let n = self.arena.objects.len();
        let mut f = filled(false, n);
        let mut i: usize = 0;
        while i < self.arena.free.len()
            invariant
                n == self.arena.objects@.len(),
                self.arena.wf(),
                f@.len() == n,
                i <= self.arena.free@.len(),
                forall|id: u32| (id as int) < n ==> (#[trigger] f@[id as int] <==> exists|j: int| 0 <= j < i && self.arena.free@[j] == id),
            decreases self.arena.free@.len() - i,
        {
            let id = self.arena.free[i];
            f.set(id as usize, true);
            proof {
                assert forall|x: u32| (x as int) < n implies (#[trigger] f@[x as int] <==> exists|j: int| 0 <= j < i + 1 && self.arena.free@[j] == x) by {
                    if exists|j: int| 0 <= j < i + 1 && self.arena.free@[j] == x {
                        let j = choose|j: int| 0 <= j < i + 1 && self.arena.free@[j] == x;
                        if j < i {
                            assert(exists|j2: int| 0 <= j2 < i && self.arena.free@[j2] == x);
                        }
                    }
                    if x != id && f@[x as int] {
                        let j = choose|j: int| 0 <= j < i && self.arena.free@[j] == x;
                        assert(0 <= j < i + 1);
                    }
                }
            }
            i += 1;
        }
        f
    }

    /// Collects garbage: every slot unreachable from the roots (the interned
    /// and runtime strings, every class's static fields, the objects holding
    /// a monitor, and `extra`) and not already free is emptied and put on the
    /// free list; every other slot keeps its object. Monitor entries of
    /// slots out of range are dropped. Returns the number of slots
    /// reclaimed. Only between runs: no frame may be live.
    pub fn gc(&mut self, extra: &[u32]) -> (r: usize)
        requires
            old(self).wf(),
            old(self).frames@.len() == 0,
        ensures
            final(self).wf(),
            final(self).arena.objects@.len() == old(self).arena.objects@.len(),
            forall|id: u32| (id as int) < old(self).arena.objects@.len() && !collected(old(self), extra@, id)
                ==> #[trigger] final(self).arena.objects@[id as int] == old(self).arena.objects@[id as int],
            forall|id: u32| collected(old(self), extra@, id) ==> {
                &&& (#[trigger] final(self).arena.objects@[id as int]).class == 0
                &&& final(self).arena.objects@[id as int].fields@.len() == 0
                &&& final(self).arena.objects@[id as int].native is None
            },
            final(self).arena.free@.len() == old(self).arena.free@.len() + r,
            final(self).arena.free@.subrange(0, old(self).arena.free@.len() as int) == old(self).arena.free@,
            forall|id: u32| #[trigger] final(self).arena.free@.contains(id) <==> (old(self).arena.free@.contains(id)
                || collected(old(self), extra@, id)),
            r == count_collected(old(self), extra@, old(self).arena.objects@.len() as int),
            old(self).arena.objects@.len() > 0 ==> final(self).monitors@ == old(self).monitors@.filter(
                |e: (u32, usize)| (e.0 as int) < old(self).arena.objects@.len(),
            ),
            old(self).arena.objects@.len() == 0 ==> final(self).monitors == old(self).monitors,
            *final(self) == (Vm { arena: final(self).arena, monitors: final(self).monitors, ..*old(self) }),
    {
        let n = self.arena.objects.len();
        if n == 0 {
            proof {
                assert forall|id: u32| #[trigger] self.arena.free@.contains(id) <==> (old(self).arena.free@.contains(id)
                    || collected(old(self), extra@, id)) by {
                }
                assert(self.arena.free@.subrange(0, self.arena.free@.len() as int) =~= self.arena.free@);
            }
            return 0;
        }
        let ghost v0 = *self;
        let ghost ex = extra@;
        let marks = self.mark_from_roots(extra);
        let free = self.free_slots();
        let mut freed: usize = 0;
        let mut id: usize = 0;
        while id < n
            invariant
                n == v0.arena.objects@.len(),
                n > 0,
                n < u32::MAX,
                id <= n,
                marks@.len() == n,
                free@.len() == n,
                forall|x: u32| (x as int) < n ==> (#[trigger] marks@[x as int] <==> reachable(&v0, ex, x)),
                forall|x: u32| (x as int) < n ==> (#[trigger] free@[x as int] <==> is_free(&v0, x)),
                self.arena.wf(),
                self.arena.objects@.len() == n,
                *self == (Vm { arena: self.arena, ..v0 }),
                forall|x: u32| (x as int) < n && (id <= x || !collected(&v0, ex, x))
                    ==> #[trigger] self.arena.objects@[x as int] == v0.arena.objects@[x as int],
                forall|x: u32| (x as int) < id && collected(&v0, ex, x) ==> {
                    &&& (#[trigger] self.arena.objects@[x as int]).class == 0
                    &&& self.arena.objects@[x as int].fields@.len() == 0
                    &&& self.arena.objects@[x as int].native is None
                },
                self.arena.free@.len() == v0.arena.free@.len() + freed,
                self.arena.free@.subrange(0, v0.arena.free@.len() as int) == v0.arena.free@,
                forall|x: u32| #[trigger] self.arena.free@.contains(x) <==> (v0.arena.free@.contains(x)
                    || ((x as int) < id && collected(&v0, ex, x))),
                freed == count_collected(&v0, ex, id as int),
                freed <= id,
            decreases n - id,
        {
            proof {
                assert((id as u32) as int == id as int);
                assert(marks@[(id as u32) as int] <==> reachable(&v0, ex, id as u32));
                assert(free@[(id as u32) as int] <==> is_free(&v0, id as u32));
                assert(collected(&v0, ex, id as u32) == (!marks@[id as int] && !free@[id as int]));
            }
            if !marks[id] && !free[id] {
                let ghost a0 = self.arena;
                self.arena.reclaim(id as u32);
                freed += 1;
                proof {
                    assert(self.arena.free@.subrange(0, v0.arena.free@.len() as int) =~= a0.free@.subrange(0, v0.arena.free@.len() as int));
                    assert forall|x: u32| #[trigger] self.arena.free@.contains(x) <==> (v0.arena.free@.contains(x)
                        || ((x as int) < id + 1 && collected(&v0, ex, x))) by {
                        lemma_push_contains(a0.free@, id as u32, x);
                    }
                }
            }
            proof {
                assert(self.arena.objects@.len() == n);
            }
            id += 1;
        }
        proof {
            assert forall|x: u32| (x as int) < self.arena.objects@.len() implies ((#[trigger] self.arena.objects@[x as int]).class as int) < self.classes@.len() by {
                if collected(&v0, ex, x) {
                } else {
                    assert(self.arena.objects@[x as int] == v0.arena.objects@[x as int]);
                }
            }
        }
        let mut kept: Vec<(u32, usize)> = Vec::new();
        let mut i: usize = 0;
        while i < self.monitors.len()
            invariant
                i <= self.monitors@.len(),
                kept@ == self.monitors@.take(i as int).filter(|e: (u32, usize)| (e.0 as int) < n as int),
            decreases self.monitors@.len() - i,
        {
            let e = self.monitors[i];
            if (e.0 as usize) < n {
                kept.push(e);
            }
            proof {
                let f = |e: (u32, usize)| (e.0 as int) < n as int;
                assert(self.monitors@.take(i + 1).drop_last() =~= self.monitors@.take(i as int));
                self.monitors@.take(i as int).lemma_filter_push(e, f);
                assert(self.monitors@.take(i + 1) =~= self.monitors@.take(i as int).push(e));
            }
            i += 1;
        }
        proof {
            assert(self.monitors@.take(self.monitors@.len() as int) =~= self.monitors@);
        }
        self.monitors = kept;
        freed
    }
}

} // verus!
