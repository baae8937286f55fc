//! Field and method resolution: symbolic references from dex id tables,
//! field offsets and static-field owners along the superclass chain.

use vstd::prelude::*;

use crate::class::{pair_get, pair_lookup, pair_put};
use crate::error::JvmError;
use crate::loader::copy_vec;
use crate::value::{str_eq, to_owned_string, JValue};
use crate::vm::{intern_post, load_post, room_spec, FieldRef, MethodRef, Target, Vm, LOAD_DEPTH};

verus! {

/// Offset of instance field `key` (name, type) on class `c` or the nearest
/// superclass that has one.
pub open spec fn offset_in_chain(vm: &Vm, c: u32, key: (u32, u32)) -> Option<u32>
    decreases c,
{
    if (c as int) >= vm.classes@.len() {
        None
    } else {
        match pair_lookup(vm.classes@[c as int].field_offsets@, key) {
            Some(o) => Some(o),
            None => match vm.classes@[c as int].superclass {
                Some(s) => if s < c { offset_in_chain(vm, s, key) } else { None },
                None => None,
            },
        }
    }
}

/// (owner, offset) of static field `key` on class `c` or the nearest
/// superclass that has one.
pub open spec fn static_in_chain(vm: &Vm, c: u32, key: (u32, u32)) -> Option<(u32, u32)>
    decreases c,
{
    if (c as int) >= vm.classes@.len() {
        None
    } else {
        match pair_lookup(vm.classes@[c as int].static_fields@, key) {
            Some(o) => Some(o),
            None => match vm.classes@[c as int].superclass {
                Some(s) => if s < c { static_in_chain(vm, s, key) } else { None },
                None => None,
            },
        }
    }
}

/// Position of the cached method reference for `key`.
fn method_ref_index(refs: &Vec<((u32, u32), MethodRef)>, key: (u32, u32)) -> (r: Option<usize>)
    ensures
        r matches Some(i) ==> i < refs@.len() && refs@[i as int].0 == key
            && forall|j: int| 0 <= j < i ==> refs@[j].0 != key,
        r is None ==> forall|j: int| 0 <= j < refs@.len() ==> refs@[j].0 != key,
{
    let mut i: usize = 0;
    while i < refs.len()
        invariant
            i <= refs@.len(),
            forall|j: int| 0 <= j < i ==> refs@[j].0 != key,
        decreases refs@.len() - i,
    {
        if refs[i].0.0 == key.0 && refs[i].0.1 == key.1 {
            return Some(i);
        }
        i += 1;
    }
    None
}

impl Vm {
    /// Instance field offset for `(name, ty)` on `class_id` or any
    /// superclass.
    pub fn field_offset(&self, class_id: u32, name: u32, ty: u32) -> (r: Option<u32>)
        requires
            self.core_wf(),
        ensures
            r == offset_in_chain(self, class_id, (name, ty)),
    {
        let mut c = class_id;
        loop
            invariant
                self.core_wf(),
                offset_in_chain(self, class_id, (name, ty)) == offset_in_chain(self, c, (name, ty)),
            decreases c,
        {
            if (c as usize) >= self.classes.len() {
                return None;
            }
            match pair_get(&self.classes[c as usize].field_offsets, (name, ty)) {
                Some(o) => return Some(o),
                None => {},
            }
            match self.classes[c as usize].superclass {
                Some(s) => {
                    proof { assert(crate::vm::class_order_ok(self.classes@[c as int], c as int)); }
                    c = s;
                },
                None => return None,
            }
        }
    }

    /// The class that owns static field `fr` as seen from `start`, and its
    /// offset there.
    pub fn static_field_owner(&self, start: u32, fr: FieldRef) -> (r: Result<(u32, u32), JvmError>)
        requires
            self.core_wf(),
        ensures
            r matches Ok(p) ==> static_in_chain(self, start, (fr.name, fr.ty)) == Some(p),
            r is Err ==> static_in_chain(self, start, (fr.name, fr.ty)) is None,
    {
        let mut c = start;
        loop
            invariant
                self.core_wf(),
                static_in_chain(self, start, (fr.name, fr.ty)) == static_in_chain(self, c, (fr.name, fr.ty)),
            decreases c,
        {
            if (c as usize) >= self.classes.len() {
                return Err(JvmError::Resolution(self.no_static_field(fr, start)));
            }
            match pair_get(&self.classes[c as usize].static_fields, (fr.name, fr.ty)) {
                Some(o) => return Ok(o),
                None => {},
            }
            match self.classes[c as usize].superclass {
                Some(s) => {
                    proof { assert(crate::vm::class_order_ok(self.classes@[c as int], c as int)); }
                    c = s;
                },
                None => return Err(JvmError::Resolution(self.no_static_field(fr, start))),
            }
        }
    }

    /// The symbolic reference of field `field_idx` of dex `dex_idx`:
    /// interned name, type descriptor and declaring class descriptor.
    pub fn field_ref(&mut self, dex_idx: u32, field_idx: u32) -> (r: Result<FieldRef, JvmError>)
        requires
            old(self).core_wf(),
            (dex_idx as int) < old(self).dexes@.len(),
        ensures
            intern_post(old(self), final(self)),
            r matches Ok(fr) ==> (fr.name as int) < final(self).intern@.len() && (fr.ty as int) < final(self).intern@.len()
                && (fr.class_desc as int) < final(self).intern@.len(),
            (field_idx as int) >= old(self).dexes@[dex_idx as int].fields@.len() ==> (r matches Err(JvmError::Resolution(m))
                && m@ == "bad field idx "@ + crate::text::unsigned_digits(field_idx as nat, 10)),
            ({
                let d = old(self).dexes@[dex_idx as int];
                &&& (field_idx as int) < d.fields@.len()
                &&& (d.fields@[field_idx as int].name as int) < d.strings@.len()
                &&& room_spec(old(self))
                &&& old(self).intern@.len() + 3 < 0x7fff_ffff
            }) ==> r is Ok,
    {
        match pair_get(&self.field_refs, (dex_idx, field_idx)) {
            Some(fr) => {
                if (fr.name as usize) < self.intern.len() && (fr.ty as usize) < self.intern.len()
                    && (fr.class_desc as usize) < self.intern.len()
                    && (field_idx as usize) < self.dexes[dex_idx as usize].fields.len() {
                    return Ok(fr);
                }
            },
            None => {},
        }
        let f = match self.dexes[dex_idx as usize].field_at(field_idx) {
            Some(f) => f,
            None => return Err(JvmError::Resolution(crate::text::with_number("bad field idx ", field_idx))),
        };
        let name = self.intern_dex_string(dex_idx, f.name)?;
        let ty = self.intern_type(dex_idx, f.ty)?;
        let class_desc = self.intern_type(dex_idx, f.class)?;
        let fr = FieldRef { name, ty, class_desc };
        pair_put(&mut self.field_refs, (dex_idx, field_idx), fr);
        Ok(fr)
    }

    /// The symbolic reference of method `method_idx` of dex `dex_idx`:
    /// interned name, signature, return and argument descriptors, declaring
    /// class descriptor.
    #[verifier::loop_isolation(false)]
    pub fn method_ref(&mut self, dex_idx: u32, method_idx: u32) -> (r: Result<MethodRef, JvmError>)
        requires
            old(self).core_wf(),
            (dex_idx as int) < old(self).dexes@.len(),
        ensures
            intern_post(old(self), final(self)),
            r matches Ok(mr) ==> (mr.name as int) < final(self).intern@.len() && (mr.sig as int) < final(self).intern@.len()
                && (mr.class_desc as int) < final(self).intern@.len()
                && forall|k: int| 0 <= k < mr.args@.len() ==> (#[trigger] mr.args@[k] as int) < final(self).intern@.len(),
            (method_idx as int) >= old(self).dexes@[dex_idx as int].methods@.len() ==> (r matches Err(JvmError::Resolution(m))
                && m@ == "bad method idx "@ + crate::text::unsigned_digits(method_idx as nat, 10)),
            ({
                let d = old(self).dexes@[dex_idx as int];
                &&& (method_idx as int) < d.methods@.len()
                &&& (d.methods@[method_idx as int].name as int) < d.strings@.len()
                &&& (d.methods@[method_idx as int].proto as int) < d.protos@.len()
                &&& room_spec(old(self))
                &&& old(self).intern@.len() + 4 + d.protos@[d.methods@[method_idx as int].proto as int].params@.len() < 0x7fff_ffff
            }) ==> r is Ok,
    {
        let ghost v0 = *self;
        if (method_idx as usize) >= self.dexes[dex_idx as usize].methods.len() {
            return Err(JvmError::Resolution(crate::text::with_number("bad method idx ", method_idx)));
        }
        match method_ref_index(&self.method_refs, (dex_idx, method_idx)) {
            Some(i) => {
                let m = &self.method_refs[i].1;
                let n = self.intern.len();
                let mut ok = (m.name as usize) < n && (m.sig as usize) < n && (m.class_desc as usize) < n;
                let mut k: usize = 0;
                while k < m.args.len()
                    invariant
                        n == self.intern@.len(),
                        k <= m.args@.len(),
                        ok ==> (m.name as int) < n && (m.sig as int) < n && (m.class_desc as int) < n,
                        ok ==> forall|q: int| 0 <= q < k ==> (#[trigger] m.args@[q] as int) < n,
                    decreases m.args@.len() - k,
                {
                    if (m.args[k] as usize) >= n {
                        ok = false;
                    }
                    k += 1;
                }
                if ok {
                    let args = copy_vec(&m.args);
                    assert(forall|q: int| 0 <= q < args@.len() ==> (#[trigger] args@[q] as int) < n);
                    return Ok(MethodRef { name: m.name, sig: m.sig, ret: m.ret, args, class_desc: m.class_desc });
                }
            },
            None => {},
        }
        let mid = match self.dexes[dex_idx as usize].method_at(method_idx) {
            Some(m) => m,
            None => return Err(JvmError::Resolution(crate::text::with_number("bad method idx ", method_idx))),
        };
        let name = self.intern_dex_string(dex_idx, mid.name)?;
        let sig_s = match self.proto_sig(dex_idx, mid.proto) {
            Some(s) => s,
            None => return Err(JvmError::Resolution(String::from_str("bad proto idx"))),
        };
        let sig = self.intern_checked(sig_s.as_str())?;
        let (ret_t, nparams) = {
            let p = &self.dexes[dex_idx as usize].protos[mid.proto as usize];
            (p.return_type, p.params.len())
        };
        let ret = self.intern_type(dex_idx, ret_t)?;
        let mut args: Vec<u32> = Vec::new();
        let mut i: usize = 0;
        while i < nparams
            invariant
                intern_post(&v0, self),
                i <= nparams,
                (dex_idx as int) < self.dexes@.len(),
                (mid.proto as int) < self.dexes@[dex_idx as int].protos@.len(),
                nparams == self.dexes@[dex_idx as int].protos@[mid.proto as int].params@.len(),
                name < self.intern@.len(),
                sig < self.intern@.len(),
                forall|k: int| 0 <= k < args@.len() ==> (#[trigger] args@[k] as int) < self.intern@.len(),
                self.intern@.len() <= v0.intern@.len() + 3 + i,
                self.arena == v0.arena,
                mid == v0.dexes@[dex_idx as int].methods@[method_idx as int],
            decreases nparams - i,
        {
            let t = self.dexes[dex_idx as usize].protos[mid.proto as usize].params[i];
            let a = self.intern_type(dex_idx, t)?;
            args.push(a);
            i += 1;
        }
        let class_desc = self.intern_type(dex_idx, mid.class)?;
        let mr = MethodRef { name, sig, ret, args: copy_vec(&args), class_desc };
        self.method_refs.push(((dex_idx, method_idx), MethodRef { name, sig, ret, args, class_desc }));
        Ok(mr)
    }

    /// Loads the class of dex type `type_id`.
    pub fn ensure_class_by_type(&mut self, dex_idx: u32, type_id: u32) -> (r: Result<u32, JvmError>)
        requires
            old(self).core_wf(),
            (dex_idx as int) < old(self).dexes@.len(),
        ensures
            load_post(old(self), final(self)),
            r matches Ok(c) ==> (c as int) < final(self).classes@.len()
                && final(self).intern@[final(self).classes@[c as int].descriptor as int]@ == old(self).dexes@[dex_idx as int].type_desc(type_id),
            (pair_lookup(old(self).class_by_type@, (dex_idx, type_id)) matches Some(c)
                && (c as int) < old(self).classes@.len()
                && old(self).intern@[old(self).classes@[c as int].descriptor as int]@ == old(self).dexes@[dex_idx as int].type_desc(type_id))
                ==> r == Ok::<u32, JvmError>(pair_lookup(old(self).class_by_type@, (dex_idx, type_id))->Some_0) && *final(self) == *old(self),
            r is Ok && !(old(self).dexes@[dex_idx as int].type_desc(type_id).len() > 0
                && old(self).dexes@[dex_idx as int].type_desc(type_id)[0] == '[')
                ==> pair_lookup(final(self).class_by_type@, (dex_idx, type_id)) == Some(r->Ok_0),
            room_spec(old(self)) && !crate::vm::loaded_desc(old(self), old(self).dexes@[dex_idx as int].type_desc(type_id))
                && crate::vm::unprovided(old(self), old(self).dexes@[dex_idx as int].type_desc(type_id))
                ==> (r matches Err(JvmError::Resolution(m))
                    && m@ == "class not found: "@ + old(self).dexes@[dex_idx as int].type_desc(type_id)),
    {
        self.ensure_type_fuel(dex_idx, type_id, LOAD_DEPTH)
    }

    /// The array class whose elements have dex type `elem_type`.
    pub fn array_class(&mut self, dex_idx: u32, elem_type: u32) -> (r: Result<u32, JvmError>)
        requires
            old(self).core_wf(),
            (dex_idx as int) < old(self).dexes@.len(),
        ensures
            load_post(old(self), final(self)),
            r matches Ok(c) ==> (c as int) < final(self).classes@.len()
                && final(self).intern@[final(self).classes@[c as int].descriptor as int]@ == seq!['['] + old(self).dexes@[dex_idx as int].type_desc(elem_type),
    {
        self.array_class_fuel(dex_idx, elem_type, LOAD_DEPTH)
    }
}


/// Text of class `c`'s descriptor.
pub open spec fn desc_of(vm: &Vm, c: u32) -> Seq<char> {
    vm.intern@[vm.classes@[c as int].descriptor as int]@
}

/// For two array classes, the descriptors of their element types.
pub open spec fn elem_descs(vm: &Vm, a: u32, b: u32) -> Option<(Seq<char>, Seq<char>)> {
    if (a as int) < vm.classes@.len() && (b as int) < vm.classes@.len() {
        match (vm.classes@[a as int].array_elem, vm.classes@[b as int].array_elem) {
            (Some((edx, el)), Some((tdx, tel))) => if (edx as int) < vm.dexes@.len() && (tdx as int) < vm.dexes@.len() {
                Some((vm.dexes@[edx as int].type_desc(el), vm.dexes@[tdx as int].type_desc(tel)))
            } else {
                None
            },
            _ => None,
        }
    } else {
        None
    }
}

/// Class `a` may be assigned to class `b` in at most `n` steps: they are
/// the same class, or a superclass or interface of `a` may be assigned to
/// `b`, or both are array classes (whose element types then decide).
pub open spec fn reach(vm: &Vm, a: u32, b: u32, n: nat) -> bool
    decreases n,
{
    a == b || (n > 0 && (a as int) < vm.classes@.len() && (
        (match vm.classes@[a as int].superclass { Some(s) => reach(vm, s, b, (n - 1) as nat), None => false })
        || (exists|k: int| 0 <= k < vm.classes@[a as int].interfaces@.len()
            && reach(vm, #[trigger] vm.classes@[a as int].interfaces@[k], b, (n - 1) as nat))
        || elem_descs(vm, a, b) is Some))
}

/// Assignability is kept when the VM's tables grow.
pub proof fn lemma_reach_grow(v1: &Vm, v2: &Vm, a: u32, b: u32, n: nat)
    requires
        v1.grows_to(v2),
        v1.dexes == v2.dexes,
        reach(v1, a, b, n),
    ensures
        reach(v2, a, b, n),
    decreases n,
{
    if a != b {
        let c = v1.classes@[a as int];
        assert(v2.classes@[a as int] == c);
        let sup = match c.superclass { Some(s) => reach(v1, s, b, (n - 1) as nat), None => false };
        if sup {
            lemma_reach_grow(v1, v2, c.superclass->Some_0, b, (n - 1) as nat);
        } else if exists|k: int| 0 <= k < c.interfaces@.len() && reach(v1, #[trigger] c.interfaces@[k], b, (n - 1) as nat) {
            let k = choose|k: int| 0 <= k < c.interfaces@.len() && reach(v1, #[trigger] c.interfaces@[k], b, (n - 1) as nat);
            lemma_reach_grow(v1, v2, c.interfaces@[k], b, (n - 1) as nat);
            assert(reach(v2, v2.classes@[a as int].interfaces@[k], b, (n - 1) as nat));
        } else {
            assert(v2.classes@[b as int] == v1.classes@[b as int]);
            assert(elem_descs(v1, a, b) == elem_descs(v2, a, b));
        }
    }
}

/// More steps reach at least as far.
pub proof fn lemma_reach_more(vm: &Vm, a: u32, b: u32, n: nat, m: nat)
    requires
        reach(vm, a, b, n),
        n <= m,
    ensures
        reach(vm, a, b, m),
    decreases n,
{
    if a != b {
        let c = vm.classes@[a as int];
        let sup = match c.superclass { Some(s) => reach(vm, s, b, (n - 1) as nat), None => false };
        if sup {
            lemma_reach_more(vm, c.superclass->Some_0, b, (n - 1) as nat, (m - 1) as nat);
        } else if exists|k: int| 0 <= k < c.interfaces@.len() && reach(vm, #[trigger] c.interfaces@[k], b, (n - 1) as nat) {
            let k = choose|k: int| 0 <= k < c.interfaces@.len() && reach(vm, #[trigger] c.interfaces@[k], b, (n - 1) as nat);
            lemma_reach_more(vm, c.interfaces@[k], b, (n - 1) as nat, (m - 1) as nat);
            assert(reach(vm, c.interfaces@[k], b, (m - 1) as nat));
        }
    }
}

/// `c` is reached from `a` by `k` superclass steps.
pub open spec fn super_chain(vm: &Vm, a: u32, c: u32, k: nat) -> bool
    decreases k,
{
    if k == 0 {
        a == c
    } else {
        (a as int) < vm.classes@.len() && match vm.classes@[a as int].superclass {
            Some(s) => super_chain(vm, s, c, (k - 1) as nat),
            None => false,
        }
    }
}

proof fn lemma_chain_reach(vm: &Vm, a: u32, c: u32, k: nat, b: u32, m: nat)
    requires
        super_chain(vm, a, c, k),
        reach(vm, c, b, m),
    ensures
        reach(vm, a, b, m + k),
    decreases k,
{
    if k > 0 {
        let s = vm.classes@[a as int].superclass->Some_0;
        lemma_chain_reach(vm, s, c, (k - 1) as nat, b, m);
        if a == b {
        } else {
            assert(reach(vm, s, b, (m + k - 1) as nat));
        }
    }
}

proof fn lemma_chain_grow(v1: &Vm, v2: &Vm, a: u32, c: u32, k: nat)
    requires
        v1.grows_to(v2),
        super_chain(v1, a, c, k),
    ensures
        super_chain(v2, a, c, k),
    decreases k,
{
    if k > 0 {
        assert(v2.classes@[a as int] == v1.classes@[a as int]);
        lemma_chain_grow(v1, v2, v1.classes@[a as int].superclass->Some_0, c, (k - 1) as nat);
    }
}

proof fn lemma_chain_step(vm: &Vm, a: u32, c: u32, k: nat, s: u32)
    requires
        super_chain(vm, a, c, k),
        (c as int) < vm.classes@.len(),
        vm.classes@[c as int].superclass == Some(s),
    ensures
        super_chain(vm, a, s, k + 1),
    decreases k,
{
    if k > 0 {
        lemma_chain_step(vm, vm.classes@[a as int].superclass->Some_0, c, (k - 1) as nat, s);
    } else {
        assert(super_chain(vm, s, s, 0));
    }
}

/// Steps of assignability explored from recursion depth `depth`.
pub open spec fn assign_fuel(depth: int) -> nat {
    ((66 - depth) * 66) as nat
}

impl Vm {
    /// Whether an object of class `obj_class` may be used as a `target`:
    /// the classes are the same, `target` is a superclass or (transitively)
    /// an interface, or both are arrays with the same element type or with
    /// assignable element classes.
    pub fn is_assignable(&mut self, obj_class: u32, target: u32) -> (r: Result<bool, JvmError>)
        requires
            old(self).core_wf(),
            (obj_class as int) < old(self).classes@.len(),
            (target as int) < old(self).classes@.len(),
        ensures
            load_post(old(self), final(self)),
            obj_class == target ==> r == Ok::<bool, JvmError>(true),
            r == Ok::<bool, JvmError>(true) ==> reach(final(self), obj_class, target, assign_fuel(0)),
    {
        self.is_assignable_inner(obj_class, target, 0)
    }

    #[verifier::loop_isolation(false)]
    #[verifier::rlimit(40)]
    fn is_assignable_inner(&mut self, obj_class: u32, target: u32, depth: usize) -> (r: Result<bool, JvmError>)
        requires
            old(self).core_wf(),
            (obj_class as int) < old(self).classes@.len(),
            (target as int) < old(self).classes@.len(),
            depth <= 65,
        ensures
            load_post(old(self), final(self)),
            obj_class == target ==> r == Ok::<bool, JvmError>(true),
            r == Ok::<bool, JvmError>(true) ==> reach(final(self), obj_class, target, assign_fuel(depth as int)),
        decreases 65 - depth,
    {
        if obj_class == target {
            return Ok(true);
        }
        if depth > 64 {
            let a = crate::text::with_number("type graph cycle or too deep in assignability check (class ", obj_class);
            let b = crate::text::with_number(" -> ", target);
            let m = crate::value::concat(a.as_str(), b.as_str());
            return Err(JvmError::Resolution(crate::value::concat(m.as_str(), ")")));
        }
        let ghost v0 = *self;
        let target_elem = self.classes[target as usize].array_elem;
        let mut c = obj_class;
        let mut level: usize = 0;
        loop
            invariant
                load_post(&v0, self),
                (c as int) < self.classes@.len(),
                (target as int) < self.classes@.len(),
                self.classes@[target as int].array_elem == target_elem,
                level <= 65,
                super_chain(self, obj_class, c, level as nat),
                depth <= 64,
            decreases 65 - level,
        {
            if level > 64 {
                return Err(JvmError::Resolution(String::from_str("class hierarchy too deep")));
            }
            let lv = level;
            level += 1;
            let array_elem = self.classes[c as usize].array_elem;
            let superclass = self.classes[c as usize].superclass;
            let interfaces = copy_vec(&self.classes[c as usize].interfaces);
            proof {
                assert(self.class_ok(self.classes@[c as int]));
            }
            if c == target {
                proof {
                    lemma_chain_reach(self, obj_class, c, lv as nat, target, 0);
                    lemma_reach_more(self, obj_class, target, lv as nat, assign_fuel(depth as int));
                }
                return Ok(true);
            }
            match array_elem {
                Some((edx, elem)) => {
                    match target_elem {
                        Some((tdx, t_elem)) => {
                            if (edx as usize) >= self.dexes.len() || (tdx as usize) >= self.dexes.len() {
                                return Err(JvmError::Resolution(String::from_str("array element in unknown dex")));
                            }
                            let e_desc = to_owned_string(self.dexes[edx as usize].type_descriptor(elem));
                            let t_desc = to_owned_string(self.dexes[tdx as usize].type_descriptor(t_elem));
                            proof {
                                assert(elem_descs(self, c, target) is Some);
                                assert(reach(self, c, target, 1));
                                lemma_chain_reach(self, obj_class, c, lv as nat, target, 1);
                                lemma_reach_more(self, obj_class, target, (lv + 1) as nat, assign_fuel(depth as int));
                            }
                            if str_eq(e_desc.as_str(), t_desc.as_str()) {
                                return Ok(true);
                            }
                            let e_len = e_desc.unicode_len();
                            let t_len = t_desc.unicode_len();
                            let e_arr = crate::value::first_char(e_desc.as_str()) == Some('[');
                            let t_arr = crate::value::first_char(t_desc.as_str()) == Some('[');
                            if !e_arr && e_len == 1 && t_arr {
                                return Ok(false);
                            }
                            if e_len == 1 || t_len == 1 {
                                return Ok(false);
                            }
                            let ghost v1 = *self;
                            let ec = self.ensure_class_by_type(edx, elem)?;
                            let tc = self.ensure_class_by_type(tdx, t_elem)?;
                            let r = self.is_assignable_inner(ec, tc, depth + 1);
                            proof {
                                lemma_reach_grow(&v1, self, obj_class, target, assign_fuel(depth as int));
                            }
                            return r;
                        },
                        None => {
                            let mut k: usize = 0;
                            while k < interfaces.len()
                                invariant
                                    interfaces@ == self.classes@[c as int].interfaces@,
                                decreases interfaces@.len() - k,
                            {
                                if interfaces[k] == target {
                                    proof {
                                        assert(reach(self, interfaces@[k as int], target, 0));
                                        assert(reach(self, c, target, 1));
                                        lemma_chain_reach(self, obj_class, c, lv as nat, target, 1);
                                        lemma_reach_more(self, obj_class, target, (lv + 1) as nat, assign_fuel(depth as int));
                                    }
                                    return Ok(true);
                                }
                                k += 1;
                            }
                            return Ok(false);
                        },
                    }
                },
                None => {},
            }
            let mut k: usize = 0;
            while k < interfaces.len()
                invariant
                    load_post(&v0, self),
                    (c as int) < self.classes@.len(),
                    (target as int) < self.classes@.len(),
                    self.classes@[target as int].array_elem == target_elem,
                    interfaces@ == self.classes@[c as int].interfaces@,
                    superclass == self.classes@[c as int].superclass,
                    super_chain(self, obj_class, c, lv as nat),
                    forall|q: int| 0 <= q < interfaces@.len() ==> (#[trigger] interfaces@[q] as int) < self.classes@.len(),
                decreases interfaces@.len() - k,
            {
                let i = interfaces[k];
                if i == target {
                    proof {
                        assert(reach(self, interfaces@[k as int], target, 0));
                        assert(reach(self, c, target, 1));
                        lemma_chain_reach(self, obj_class, c, lv as nat, target, 1);
                        lemma_reach_more(self, obj_class, target, (lv + 1) as nat, assign_fuel(depth as int));
                    }
                    return Ok(true);
                }
                let ghost v1 = *self;
                let sub = self.is_assignable_inner(i, target, depth + 1)?;
                proof {
                    lemma_chain_grow(&v1, self, obj_class, c, lv as nat);
                    assert(self.classes@[c as int] == v1.classes@[c as int]);
                    assert(self.classes@[target as int] == v1.classes@[target as int]);
                }
                if sub {
                    proof {
                        let m = assign_fuel(depth + 1);
                        assert(reach(self, interfaces@[k as int], target, m));
                        assert(reach(self, c, target, m + 1));
                        lemma_chain_reach(self, obj_class, c, lv as nat, target, m + 1);
                        lemma_reach_more(self, obj_class, target, (m + 1 + lv) as nat, assign_fuel(depth as int));
                    }
                    return Ok(true);
                }
                k += 1;
            }
            match superclass {
                Some(s) => {
                    proof { lemma_chain_step(self, obj_class, c, lv as nat, s); }
                    c = s;
                },
                None => return Ok(false),
            }
        }
    }
}

/// (class, slot) of the method `key` (name, signature) in the dispatch
/// table of `c` or its nearest superclass that has one.
pub open spec fn dispatch_chain(vm: &Vm, c: u32, key: (u32, u32)) -> Option<(u32, u32)>
    decreases c,
{
    if (c as int) >= vm.classes@.len() {
        None
    } else {
        match pair_lookup(vm.classes@[c as int].dispatch@, key) {
            Some(slot) => Some((c, slot)),
            None => match vm.classes@[c as int].superclass {
                Some(s) => if s < c { dispatch_chain(vm, s, key) } else { None },
                None => None,
            },
        }
    }
}

/// The method at (class, slot) is the one `key` dispatches to in `class`.
pub open spec fn found_at(vm: &Vm, class: u32, slot: u32, key: (u32, u32)) -> bool {
    &&& (class as int) < vm.classes@.len()
    &&& (slot as int) < vm.classes@[class as int].methods@.len()
    &&& pair_lookup(vm.classes@[class as int].dispatch@, key) == Some(slot)
}

/// `t` is the call target of the method at (class, slot).
pub open spec fn target_of(vm: &Vm, t: Target, class: u32, slot: u32) -> bool {
    let m = vm.classes@[class as int].methods@[slot as int];
    match t {
        Target::Native(a, b, c) => m.native_key == Some((a, b, c)),
        Target::Bytecode { class: tc, slot: ts, static_method, .. } => tc == class && ts == slot
            && m.native_key is None && m.code is Some && static_method == m.static_method,
    }
}

/// The class of a virtual call's receiver object.
pub open spec fn receiver_class(vm: &Vm, receiver: Option<u32>) -> Option<u32> {
    match receiver {
        Some(o) => if (o as int) < vm.arena.objects@.len() { Some(vm.arena.objects@[o as int].class) } else { None },
        None => None,
    }
}

/// Number of `false` entries.
pub open spec fn count_false(s: Seq<bool>) -> nat
    decreases s.len(),
{
    if s.len() == 0 { 0 } else { count_false(s.drop_last()) + if s.last() { 0nat } else { 1nat } }
}

pub(crate) proof fn lemma_count_false_set(s: Seq<bool>, i: int)
    requires
        0 <= i < s.len(),
        !s[i],
    ensures
        count_false(s.update(i, true)) + 1 == count_false(s),
    decreases s.len(),
{
    let u = s.update(i, true);
    if i < s.len() - 1 {
        assert(u.drop_last() =~= s.drop_last().update(i, true));
        lemma_count_false_set(s.drop_last(), i);
    } else {
        assert(u.drop_last() =~= s.drop_last());
    }
}

impl Vm {
    /// Default-method search: the first interface (depth-first, last listed
    /// first) reachable from `class_id`'s interfaces whose dispatch table has
    /// `key`.
    pub fn search_interfaces(&self, class_id: u32, key: (u32, u32)) -> (r: Option<(u32, u32)>)
        requires
            self.core_wf(),
            (class_id as int) < self.classes@.len(),
        ensures
            r matches Some((c, s)) ==> (c as int) < self.classes@.len()
                && pair_lookup(self.classes@[c as int].dispatch@, key) == Some(s),
    {
        proof { assert(self.class_ok(self.classes@[class_id as int])); }
        let n = self.classes.len();
        let mut queue = copy_vec(&self.classes[class_id as usize].interfaces);
        let mut seen: Vec<bool> = Vec::new();
        let mut z: usize = 0;
        while z < n
            invariant
                z <= n,
                seen@.len() == z,
            decreases n - z,
        {
            seen.push(false);
            z += 1;
        }
        let ghost mut remaining: nat = count_false(seen@);
        loop
            invariant
                self.core_wf(),
                n == self.classes@.len(),
                seen@.len() == n,
                remaining == count_false(seen@),
                forall|q: int| 0 <= q < queue@.len() ==> (#[trigger] queue@[q] as int) < n,
            decreases remaining, queue@.len(),
        {
            if queue.len() == 0 {
                return None;
            }
            let iface = queue.pop().unwrap();
            let ix = iface as usize;
            if seen[ix] {
                continue;
            }
            proof {
                lemma_count_false_set(seen@, ix as int);
                remaining = (remaining - 1) as nat;
            }
            seen.set(ix, true);
            match pair_get(&self.classes[ix].dispatch, key) {
                Some(s) => return Some((iface, s)),
                None => {},
            }
            proof { assert(self.class_ok(self.classes@[ix as int])); }
            let more = &self.classes[ix].interfaces;
            let mut k: usize = 0;
            while k < more.len()
                invariant
                    forall|q: int| 0 <= q < queue@.len() ==> (#[trigger] queue@[q] as int) < n,
                    forall|q: int| 0 <= q < more@.len() ==> (#[trigger] more@[q] as int) < n,
                decreases more@.len() - k,
            {
                queue.push(more[k]);
                k += 1;
            }
        }
    }
}

/// What a call of the bridgeless `native` method `name` with signature
/// `sig` fails with.
pub open spec fn jni_missing_text(name: Seq<char>, sig: Seq<char>) -> Seq<char> {
    "native method "@ + name + " "@ + sig + " has no JNI bridge (JNI unsupported)"@
}

/// Method `s` of class `c` exists and can be called: it is not a JNI
/// `native` declaration and has a host native or bytecode.
pub open spec fn method_callable(vm: &Vm, c: u32, s: u32) -> bool {
    &&& (c as int) < vm.classes@.len()
    &&& (s as int) < vm.classes@[c as int].methods@.len()
    &&& !vm.classes@[c as int].methods@[s as int].native_decl
    &&& (vm.classes@[c as int].methods@[s as int].native_key is Some || vm.classes@[c as int].methods@[s as int].code is Some)
}

impl Vm {
    /// The call target of the method `(name, sig)` of `mref`, searched from
    /// the receiver's class (virtual, interface), the referenced class
    /// (static, direct), or the superclass of the calling class (super), up
    /// the superclass chain (an interface continuing at `Object`), then
    /// among default interface methods.
    #[verifier::loop_isolation(false)]
    #[verifier::rlimit(30)]
    pub fn resolve_target(&mut self, kind: crate::insn::InvokeKind, mref: &MethodRef, receiver: Option<u32>,
        current_class: u32) -> (r: Result<Target, JvmError>)
        requires
            old(self).core_wf(),
            (mref.class_desc as int) < old(self).intern@.len(),
        ensures
            load_post(old(self), final(self)),
            r matches Ok(t) ==> exists|c: u32, s: u32| found_at(final(self), c, s, (mref.name, mref.sig))
                && #[trigger] target_of(final(self), t, c, s),
            (kind == crate::insn::InvokeKind::Virtual || kind == crate::insn::InvokeKind::Interface)
                && receiver_class(old(self), receiver) is Some
                && dispatch_chain(old(self), receiver_class(old(self), receiver)->Some_0, (mref.name, mref.sig)) is Some
                ==> *final(self) == *old(self) && (r is Ok ==> target_of(final(self), r->Ok_0,
                    dispatch_chain(old(self), receiver_class(old(self), receiver)->Some_0, (mref.name, mref.sig))->Some_0.0,
                    dispatch_chain(old(self), receiver_class(old(self), receiver)->Some_0, (mref.name, mref.sig))->Some_0.1)),
            (kind == crate::insn::InvokeKind::Virtual || kind == crate::insn::InvokeKind::Interface) && (receiver is None
                || (receiver->Some_0 as int) >= old(self).arena.objects@.len()) ==> r is Err,
            ((kind == crate::insn::InvokeKind::Virtual || kind == crate::insn::InvokeKind::Interface)
                && receiver_class(old(self), receiver) is Some
                && (dispatch_chain(old(self), receiver_class(old(self), receiver)->Some_0, (mref.name, mref.sig)) matches Some((c, s))
                && method_callable(old(self), c, s))) ==> r is Ok,
            forall|c0: u32| (kind == crate::insn::InvokeKind::Static || kind == crate::insn::InvokeKind::Direct)
                && #[trigger] crate::vm::is_first_class(old(self), mref.class_desc, c0)
                && (dispatch_chain(old(self), c0, (mref.name, mref.sig)) matches Some((c, s)) && method_callable(old(self), c, s))
                ==> r is Ok && *final(self) == *old(self) && target_of(final(self), r->Ok_0,
                    dispatch_chain(old(self), c0, (mref.name, mref.sig))->Some_0.0,
                    dispatch_chain(old(self), c0, (mref.name, mref.sig))->Some_0.1),
            (kind == crate::insn::InvokeKind::Super && (current_class as int) < old(self).classes@.len()
                && (old(self).classes@[current_class as int].superclass matches Some(sc)
                && (dispatch_chain(old(self), sc, (mref.name, mref.sig)) matches Some((c, s)) && method_callable(old(self), c, s))))
                ==> r is Ok && *final(self) == *old(self) && target_of(final(self), r->Ok_0,
                    dispatch_chain(old(self), old(self).classes@[current_class as int].superclass->Some_0, (mref.name, mref.sig))->Some_0.0,
                    dispatch_chain(old(self), old(self).classes@[current_class as int].superclass->Some_0, (mref.name, mref.sig))->Some_0.1),
            (kind == crate::insn::InvokeKind::Static || kind == crate::insn::InvokeKind::Direct)
                && !(exists|j: int| 0 <= j < old(self).classes@.len() && old(self).classes@[j].descriptor == mref.class_desc)
                && crate::vm::unprovided(old(self), old(self).intern@[mref.class_desc as int]@)
                ==> (r matches Err(JvmError::Resolution(m)) && m@ == "class not found: "@ + old(self).intern@[mref.class_desc as int]@),
    {
        let ghost v0 = *self;
        let key = (mref.name, mref.sig);
        let start: u32 = match kind {
            crate::insn::InvokeKind::Virtual | crate::insn::InvokeKind::Interface => match receiver {
                Some(o) => {
                    if (o as usize) < self.arena.objects.len() {
                        proof { assert(((self.arena.objects@[o as int]).class as int) < self.classes@.len()); }
                        self.arena.objects[o as usize].class
                    } else {
                        return Err(JvmError::Resolution(String::from_str("null receiver for virtual call")));
                    }
                },
                None => return Err(JvmError::Resolution(String::from_str("null receiver for virtual call"))),
            },
            crate::insn::InvokeKind::Static | crate::insn::InvokeKind::Direct => self.ensure_class_by_desc_id(mref.class_desc)?,
            crate::insn::InvokeKind::Super => {
                let sc = if (current_class as usize) < self.classes.len() {
                    self.classes[current_class as usize].superclass
                } else {
                    None
                };
                match sc {
                    Some(s) => {
                        proof { assert(self.class_ok(self.classes@[current_class as int])); }
                        s
                    },
                    None => self.ensure_class_by_desc_id(self.hot.object)?,
                }
            },
        };
        let ghost v1 = *self;
        let ghost mut jumped = false;
        let mut c = start;
        let mut found: Option<(u32, u32)> = None;
        loop
            invariant
                load_post(&v0, self),
                (c as int) < self.classes@.len(),
                (start as int) < self.classes@.len(),
                found matches Some((fc, fs)) ==> (fc as int) < self.classes@.len()
                    && pair_lookup(self.classes@[fc as int].dispatch@, key) == Some(fs),
                !jumped ==> *self == v1,
                !jumped && found is None ==> dispatch_chain(self, start, key) == dispatch_chain(self, c, key),
                !jumped && found is Some ==> dispatch_chain(self, start, key) == found,
                jumped ==> dispatch_chain(&v1, start, key) is None,
            decreases (if found is None { 1int } else { 0int }), c,
        {
            if found.is_some() {
                break;
            }
            match pair_get(&self.classes[c as usize].dispatch, key) {
                Some(s) => {
                    found = Some((c, s));
                },
                None => {
                    proof { assert(crate::vm::class_order_ok(self.classes@[c as int], c as int)); }
                    match self.classes[c as usize].superclass {
                        Some(s) => {
                            proof { assert(self.class_ok(self.classes@[c as int])); }
                            c = s;
                        },
                        None => {
                            if self.classes[c as usize].is_interface {
                                proof {
                                    if !jumped {
                                        assert(dispatch_chain(self, c, key) is None);
                                    }
                                    jumped = true;
                                }
                                let object = self.ensure_class_by_desc_id(self.hot.object)?;
                                if object < c {
                                    c = object;
                                } else {
                                    break;
                                }
                            } else {
                                break;
                            }
                        },
                    }
                },
            }
        }
        let (fc, fs) = match found {
            Some(p) => p,
            None => match self.search_interfaces(start, key) {
                Some(p) => p,
                None => return Err(JvmError::Resolution(crate::value::concat("no method found: ", self.str_of_checked(mref.name).as_str()))),
            },
        };
        proof { assert(self.class_ok(self.classes@[fc as int])); }
        if (fs as usize) >= self.classes[fc as usize].methods.len() {
            return Err(JvmError::Resolution(String::from_str("dispatch slot out of range")));
        }
        let m = &self.classes[fc as usize].methods[fs as usize];
        if m.native_decl {
            return Err(JvmError::Resolution(self.jni_missing(m.name, m.sig)));
        }
        match m.native_key {
            Some(k) => {
                let t = Target::Native(k.0, k.1, k.2);
                assert(target_of(self, t, fc, fs));
                Ok(t)
            },
            None => match &m.code {
                Some(code) => {
                    let t = Target::Bytecode {
                        class: fc,
                        slot: fs,
                        ins_size: code.ins_size,
                        registers: code.registers_size,
                        ret: m.ret,
                        args: copy_vec(&m.args),
                        static_method: m.static_method,
                    };
                    assert(target_of(self, t, fc, fs));
                    Ok(t)
                },
                None => Err(JvmError::Resolution(String::from_str("method has no code"))),
            },
        }
    }

    /// The text of interned id `id` (empty when out of range).
    /// The error text for a call of a `native` method that has no bridge:
    /// the method's name and signature.
    pub fn jni_missing(&self, name: u32, sig: u32) -> (r: String)
        requires
            (name as int) < self.intern@.len(),
            (sig as int) < self.intern@.len(),
        ensures
            r@ == jni_missing_text(self.intern@[name as int]@, self.intern@[sig as int]@),
    {
        let a = crate::value::concat("native method ", self.str_of(name));
        let b = crate::value::concat(a.as_str(), " ");
        let c = crate::value::concat(b.as_str(), self.str_of(sig));
        crate::value::concat(c.as_str(), " has no JNI bridge (JNI unsupported)")
    }

    /// The error text for a static field found in no class from `start` up:
    /// the field's name and type and the class it was looked up in.
    fn no_static_field(&self, fr: FieldRef, start: u32) -> (r: String)
        ensures
            (fr.name as int) < self.intern@.len() && (fr.ty as int) < self.intern@.len() && (start as int) < self.classes@.len()
                && (self.classes@[start as int].descriptor as int) < self.intern@.len()
                ==> r@ == "no static field "@ + self.intern@[fr.name as int]@ + " "@ + self.intern@[fr.ty as int]@ + " in "@
                    + self.intern@[self.classes@[start as int].descriptor as int]@,
    {
        let desc = if (start as usize) < self.classes.len() {
            self.str_of_checked(self.classes[start as usize].descriptor)
        } else {
            String::new()
        };
        let a = crate::value::concat("no static field ", self.str_of_checked(fr.name).as_str());
        let b = crate::value::concat(a.as_str(), " ");
        let c = crate::value::concat(b.as_str(), self.str_of_checked(fr.ty).as_str());
        let d = crate::value::concat(c.as_str(), " in ");
        crate::value::concat(d.as_str(), desc.as_str())
    }

    pub fn str_of_checked(&self, id: u32) -> (r: String)
        ensures
            (id as int) < self.intern@.len() ==> r@ == self.intern@[id as int]@,
    {
        if (id as usize) < self.intern.len() {
            to_owned_string(self.intern[id as usize].as_str())
        } else {
            String::new()
        }
    }
}

} // verus!
