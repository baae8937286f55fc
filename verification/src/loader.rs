//! Loading classes from dex files: superclasses and interfaces, fields and
//! their offsets, static values, methods, and the native entries that fill
//! holes or implement `native` declarations.

use vstd::prelude::*;

use crate::class::{pair_get, pair_lookup, pair_put, Class, Method, ShimLazy, ACC_ABSTRACT, ACC_INTERFACE, ACC_NATIVE, ACC_STATIC};
use crate::dex::{DexFile, EncodedValue};
use crate::natives::{entries_view, entry_view};
use crate::error::JvmError;
use crate::value::{push_char, str_eq, to_owned_string, JValue};
use crate::vm::{class_order_ok, intern_post, lemma_wf_grow, load_post, loaded_desc, room_spec, NativeEntry, Vm, LOAD_DEPTH};

verus! {

/// A copy of a vector of plain values.
pub fn copy_vec<T: Copy>(v: &Vec<T>) -> (r: Vec<T>)
    ensures
        r@ == v@,
{
    let mut out: Vec<T> = Vec::new();
    let mut i: usize = 0;
    while i < v.len()
        invariant
            i <= v@.len(),
            out@ == v@.subrange(0, i as int),
        decreases v@.len() - i,
    {
        out.push(v[i]);
        i += 1;
        assert(out@ =~= v@.subrange(0, i as int));
    }
    assert(v@.subrange(0, v@.len() as int) =~= v@);
    out
}

/// Dex file `d` defines a class with descriptor `desc`.
pub open spec fn dex_defines(d: DexFile, desc: Seq<char>) -> bool {
    exists|k: int| 0 <= k < d.classes@.len() && d.type_desc(#[trigger] d.classes@[k].class_idx) == desc
}

/// Replacing a class record by a well-formed one with the same hierarchy
/// keeps the VM well formed.
pub proof fn lemma_set_class(old_vm: &Vm, new_vm: &Vm, id: int, c: Class)
    requires
        old_vm.core_wf(),
        0 <= id < old_vm.classes@.len(),
        new_vm.classes@ == old_vm.classes@.update(id, c),
        old_vm.class_ok(c),
        class_order_ok(c, id),
        new_vm.intern == old_vm.intern,
        new_vm.arena == old_vm.arena,
        new_vm.hot == old_vm.hot,
        new_vm.injekt_type_by_subclass == old_vm.injekt_type_by_subclass,
    ensures
        new_vm.core_wf(),
        old_vm.wf() ==> new_vm.wf(),
{
    assert forall|k: int| 0 <= k < new_vm.classes@.len() implies new_vm.class_ok(#[trigger] new_vm.classes@[k]) by {
        if k != id {
            assert(old_vm.class_ok(old_vm.classes@[k]));
        }
    }
    assert forall|k: int| 0 <= k < new_vm.classes@.len() implies class_order_ok(#[trigger] new_vm.classes@[k], k) by {
        if k != id {
            assert(class_order_ok(old_vm.classes@[k], k));
        }
    }
    assert forall|o: int| 0 <= o < new_vm.arena.objects@.len() implies ((#[trigger] new_vm.arena.objects@[o]).class as int) < new_vm.classes@.len() by {
        assert(old_vm.arena.objects@[o] == new_vm.arena.objects@[o]);
    }
}

impl Vm {
    /// The dex file with index `dex_idx`.
    pub fn dex_at(&self, dex_idx: u32) -> (r: &DexFile)
        requires
            (dex_idx as int) < self.dexes@.len(),
        ensures
            *r == self.dexes@[dex_idx as int],
    {
        &self.dexes[dex_idx as usize]
    }

    /// Locates a class descriptor across all dex files; earlier dexes win.
    pub fn class_location(&self, desc: &str) -> (r: Option<(u32, usize)>)
        ensures
            r matches Some((d, k)) ==> (d as int) < self.dexes@.len() && (k as int) < self.dexes@[d as int].classes@.len()
                && self.dexes@[d as int].type_desc(self.dexes@[d as int].classes@[k as int].class_idx) == desc@
                && forall|e: int| 0 <= e < d ==> !dex_defines(#[trigger] self.dexes@[e], desc@),
            r matches Some((d, k)) ==> forall|j: int| 0 <= j < k ==> self.dexes@[d as int].type_desc(self.dexes@[d as int].classes@[j].class_idx) != desc@,
            r is None && self.dexes@.len() <= u32::MAX ==> forall|e: int| 0 <= e < self.dexes@.len() ==> !dex_defines(#[trigger] self.dexes@[e], desc@),
    {
        let mut i: usize = 0;
        while i < self.dexes.len()
            invariant
                i <= self.dexes@.len(),
                forall|e: int| 0 <= e < i ==> !dex_defines(#[trigger] self.dexes@[e], desc@),
            decreases self.dexes@.len() - i,
        {
            if i >= u32::MAX as usize {
                return None;
            }
            match self.dexes[i].class_by_descriptor(desc) {
                Some(k) => return Some((i as u32, k)),
                None => {},
            }
            i += 1;
        }
        None
    }

    /// The method signature `(params)ret` of prototype `proto_id`.
    pub fn proto_sig(&self, dex_idx: u32, proto_id: u32) -> (r: Option<String>)
        requires
            (dex_idx as int) < self.dexes@.len(),
        ensures
            r is Some <==> (proto_id as int) < self.dexes@[dex_idx as int].protos@.len(),
            r matches Some(s) ==> s@ == proto_text(self.dexes@[dex_idx as int], self.dexes@[dex_idx as int].protos@[proto_id as int]),
    {
        let d = self.dex_at(dex_idx);
        if (proto_id as usize) >= d.protos.len() {
            return None;
        }
        let p = &d.protos[proto_id as usize];
        let mut s = String::new();
        push_char(&mut s, '(');
        let mut i: usize = 0;
        while i < p.params.len()
            invariant
                i <= p.params@.len(),
                s@ == seq!['('] + descs_text(*d, p.params@.take(i as int)),
            decreases p.params@.len() - i,
        {
            s.append(d.type_descriptor(p.params[i]));
            proof {
                assert(p.params@.take(i + 1).drop_last() == p.params@.take(i as int));
            }
            i += 1;
        }
        proof { assert(p.params@.take(i as int) == p.params@); }
        push_char(&mut s, ')');
        s.append(d.type_descriptor(p.return_type));
        Some(s)
    }
}

/// The descriptors of the type ids `ts` of dex `d`, one after another.
pub open spec fn descs_text(d: DexFile, ts: Seq<u32>) -> Seq<char>
    decreases ts.len(),
{
    if ts.len() == 0 {
        Seq::empty()
    } else {
        descs_text(d, ts.drop_last()) + d.type_desc(ts.last())
    }
}

/// The signature text `(params)ret` of prototype `p` of dex `d`.
pub open spec fn proto_text(d: DexFile, p: crate::dex::ProtoId) -> Seq<char> {
    seq!['('] + descs_text(d, p.params@) + seq![')'] + d.type_desc(p.return_type)
}

proof fn lemma_descs_take(d: DexFile, ts: Seq<u32>, k: int)
    requires
        0 <= k < ts.len(),
    ensures
        descs_text(d, ts.take(k + 1)) == descs_text(d, ts.take(k)) + d.type_desc(ts[k]),
{
    assert(ts.take(k + 1).drop_last() =~= ts.take(k));
}

/// The text of the first `k` descriptors begins the text of the first `j`.
proof fn lemma_descs_prefix(d: DexFile, ts: Seq<u32>, k: int, j: int)
    requires
        0 <= k <= j <= ts.len(),
    ensures
        descs_text(d, ts.take(k)).len() <= descs_text(d, ts.take(j)).len(),
        descs_text(d, ts.take(j)).subrange(0, descs_text(d, ts.take(k)).len() as int) == descs_text(d, ts.take(k)),
    decreases j - k,
{
    if k < j {
        lemma_descs_prefix(d, ts, k, j - 1);
        lemma_descs_take(d, ts, j - 1);
        let a = descs_text(d, ts.take(k));
        let b = descs_text(d, ts.take(j - 1));
        assert(descs_text(d, ts.take(j)).subrange(0, a.len() as int) =~= b.subrange(0, a.len() as int));
    }
}

/// Descriptor text has no parenthesis and ends in no `[` when every
/// descriptor is a field type.
proof fn lemma_descs_chars(d: DexFile, ts: Seq<u32>)
    requires
        forall|m: int| 0 <= m < ts.len() ==> crate::sig::field_desc(#[trigger] d.type_desc(ts[m])),
    ensures
        forall|m: int| 0 <= m < descs_text(d, ts).len() ==> #[trigger] descs_text(d, ts)[m] != ')' && descs_text(d, ts)[m] != '(',
        descs_text(d, ts).len() == 0 || descs_text(d, ts).last() != '[',
    decreases ts.len(),
{
    if ts.len() > 0 {
        let u = ts.drop_last();
        assert forall|m: int| 0 <= m < u.len() implies crate::sig::field_desc(#[trigger] d.type_desc(u[m])) by {
            assert(u[m] == ts[m]);
        }
        lemma_descs_chars(d, u);
        let t = d.type_desc(ts.last());
        assert(crate::sig::field_desc(d.type_desc(ts[ts.len() - 1])));
        crate::sig::lemma_field_desc_chars(t);
        let a = descs_text(d, u);
        assert forall|m: int| 0 <= m < descs_text(d, ts).len() implies #[trigger] descs_text(d, ts)[m] != ')' && descs_text(d, ts)[m] != '(' by {
            if m < a.len() {
                assert(descs_text(d, ts)[m] == a[m]);
            } else {
                assert(descs_text(d, ts)[m] == t[m - a.len()]);
            }
        }
    }
}

/// Splitting the descriptor text from the start of descriptor `k` gives the
/// descriptors from `k` on.
proof fn lemma_split_descs(d: DexFile, ts: Seq<u32>, k: int)
    requires
        0 <= k <= ts.len(),
        forall|m: int| 0 <= m < ts.len() ==> crate::sig::field_desc(#[trigger] d.type_desc(ts[m])),
    ensures
        crate::sig::split_args(descs_text(d, ts), descs_text(d, ts.take(k)).len() as int)
            == ts.skip(k).map_values(|t: u32| d.type_desc(t)),
    decreases ts.len() - k,
{
    let a = descs_text(d, ts);
    assert(ts.take(ts.len() as int) =~= ts);
    if k == ts.len() {
        assert(ts.skip(k).map_values(|t: u32| d.type_desc(t)) =~= Seq::<Seq<char>>::empty());
    } else {
        lemma_split_descs(d, ts, k + 1);
        lemma_descs_take(d, ts, k);
        lemma_descs_prefix(d, ts, k + 1, ts.len() as int);
        let p = descs_text(d, ts.take(k)).len() as int;
        let t = d.type_desc(ts[k]);
        let q = descs_text(d, ts.take(k + 1));
        assert(a.subrange(p, p + t.len()) =~= q.subrange(p, p + t.len()));
        assert(q.subrange(p, p + t.len()) =~= t);
        crate::sig::lemma_split_desc(a, p, t);
        assert(ts.skip(k).map_values(|t: u32| d.type_desc(t))
            =~= seq![t] + ts.skip(k + 1).map_values(|t: u32| d.type_desc(t)));
    }
}

/// The signature text of a prototype parses back into the prototype's
/// parameter descriptors and return descriptor, when every parameter is a
/// field type descriptor.
pub proof fn lemma_proto_sig_parses(d: DexFile, p: crate::dex::ProtoId)
    requires
        forall|m: int| 0 <= m < p.params@.len() ==> crate::sig::field_desc(#[trigger] d.type_desc(p.params@[m])),
    ensures
        crate::sig::sig_parseable(proto_text(d, p)),
        crate::sig::sig_args(proto_text(d, p)) == p.params@.map_values(|t: u32| d.type_desc(t)),
        crate::sig::sig_ret(proto_text(d, p)) == d.type_desc(p.return_type),
{
    let ts = p.params@;
    let a = descs_text(d, ts);
    let text = proto_text(d, p);
    lemma_descs_chars(d, ts);
    assert forall|k: int| 0 <= k < 1 + a.len() implies text[k] != ')' by {
        if k > 0 {
            assert(text[k] == a[k - 1]);
        }
    }
    crate::sig::lemma_find_from_at(text, ')', 0, 1 + a.len() as int);
    crate::sig::lemma_find_from_at(text, '(', 0, 0);
    assert(text.subrange(1, 1 + a.len() as int) =~= a);
    crate::sig::lemma_brackets_terminated(a);
    lemma_split_descs(d, ts, 0);
    assert(ts.take(0) =~= Seq::<u32>::empty());
    assert(ts.skip(0) =~= ts);
    assert(text.subrange(2 + a.len() as int, text.len() as int) =~= d.type_desc(p.return_type));
}

/// Class `k` is the record loaded for class definition `def` of dex `d`:
/// its access flags, superclass and interfaces (by descriptor; a class with
/// no superclass index extends `Object` unless it is `Object`), no array
/// element, not yet initialized and with no `Class` object.
pub open spec fn dex_record(vm: &Vm, k: Class, d: DexFile, def: crate::dex::ClassDef) -> bool {
    &&& k.access_flags == def.access_flags
    &&& k.is_interface == (def.access_flags & ACC_INTERFACE != 0)
    &&& k.is_abstract == (def.access_flags & ACC_ABSTRACT != 0)
    &&& k.array_elem is None
    &&& k.clinit_state == 0
    &&& k.class_obj is None
    &&& k.interfaces@.len() == def.interfaces@.len()
    &&& forall|i: int| 0 <= i < k.interfaces@.len() ==> (k.interfaces@[i] as int) < vm.classes@.len()
        && #[trigger] vm.intern@[vm.classes@[k.interfaces@[i] as int].descriptor as int]@ == d.type_desc(def.interfaces@[i])
    &&& def.superclass_idx != u32::MAX ==> (k.superclass matches Some(s) && (s as int) < vm.classes@.len()
        && vm.intern@[vm.classes@[s as int].descriptor as int]@ == d.type_desc(def.superclass_idx))
    &&& def.superclass_idx == u32::MAX ==> (k.superclass is None <==> k.descriptor == vm.hot.object)
        && (k.superclass matches Some(s) ==> (s as int) < vm.classes@.len() && vm.classes@[s as int].descriptor == vm.hot.object)
}

impl Vm {
    /// Interns the descriptor of dex type `t`.
    pub fn intern_type(&mut self, dex_idx: u32, t: u32) -> (r: Result<u32, JvmError>)
        requires
            old(self).core_wf(),
            (dex_idx as int) < old(self).dexes@.len(),
        ensures
            intern_post(old(self), final(self)),
            r matches Ok(id) ==> (id as int) < final(self).intern@.len()
                && final(self).intern@[id as int]@ == old(self).dexes@[dex_idx as int].type_desc(t),
            r is Ok <==> room_spec(old(self)),
            final(self).intern@.len() <= old(self).intern@.len() + 1,
            *final(self) == (Vm { intern: final(self).intern, ..*old(self) }),
    {
        let d = to_owned_string(self.dexes[dex_idx as usize].type_descriptor(t));
        self.intern_checked(d.as_str())
    }

    /// Interns string `sid` of dex `dex_idx`.
    pub fn intern_dex_string(&mut self, dex_idx: u32, sid: u32) -> (r: Result<u32, JvmError>)
        requires
            old(self).core_wf(),
            (dex_idx as int) < old(self).dexes@.len(),
        ensures
            intern_post(old(self), final(self)),
            r matches Ok(id) ==> (id as int) < final(self).intern@.len() && (sid as int) < old(self).dexes@[dex_idx as int].strings@.len()
                && final(self).intern@[id as int]@ == old(self).dexes@[dex_idx as int].strings@[sid as int]@,
            r is Ok <==> (sid as int) < old(self).dexes@[dex_idx as int].strings@.len() && room_spec(old(self)),
            final(self).intern@.len() <= old(self).intern@.len() + 1,
            *final(self) == (Vm { intern: final(self).intern, ..*old(self) }),
    {
        let d = match self.dexes[dex_idx as usize].string_at(sid) {
            Some(t) => to_owned_string(t),
            None => return Err(JvmError::Resolution(String::from_str("bad string index"))),
        };
        self.intern_checked(d.as_str())
    }

    /// Interned (name, type) of field `field_idx` of dex `dex_idx`.
    pub fn field_name_type(&mut self, dex_idx: u32, field_idx: u32) -> (r: Result<(u32, u32), JvmError>)
        requires
            old(self).core_wf(),
            (dex_idx as int) < old(self).dexes@.len(),
        ensures
            intern_post(old(self), final(self)),
            r matches Ok((n, t)) ==> (n as int) < final(self).intern@.len() && (t as int) < final(self).intern@.len()
                && (field_idx as int) < old(self).dexes@[dex_idx as int].fields@.len()
                && final(self).intern@[n as int]@ == old(self).dexes@[dex_idx as int].strings@[
                    old(self).dexes@[dex_idx as int].fields@[field_idx as int].name as int]@
                && final(self).intern@[t as int]@ == old(self).dexes@[dex_idx as int].type_desc(
                    old(self).dexes@[dex_idx as int].fields@[field_idx as int].ty),
            (field_idx as int) < old(self).dexes@[dex_idx as int].fields@.len()
                && (old(self).dexes@[dex_idx as int].fields@[field_idx as int].name as int) < old(self).dexes@[dex_idx as int].strings@.len()
                && room_spec(old(self)) && old(self).intern@.len() + 1 < 0x7fff_ffff ==> r is Ok,
            (field_idx as int) >= old(self).dexes@[dex_idx as int].fields@.len() ==> r is Err,
    {
        let f = match self.dexes[dex_idx as usize].field_at(field_idx) {
            Some(f) => f,
            None => return Err(JvmError::Resolution(crate::value::concat("bad field idx ", "in class data"))),
        };
        let ghost v0 = *self;
        let name = self.intern_dex_string(dex_idx, f.name)?;
        let ty = self.intern_type(dex_idx, f.ty)?;
        Ok((name, ty))
    }

    /// The method record of dex method `method_idx` declared with
    /// `access_flags`, at `slot` of class `id`.
    #[verifier::loop_isolation(false)]
    pub fn dex_method(&mut self, dex_idx: u32, method_idx: u32, access_flags: u32, slot: u32, id: u32,
        code: Option<crate::class::CodeItem>) -> (r: Result<Method, JvmError>)
        requires
            old(self).core_wf(),
            (dex_idx as int) < old(self).dexes@.len(),
        ensures
            intern_post(old(self), final(self)),
            r matches Ok(m) ==> m.name < final(self).intern@.len() && m.sig < final(self).intern@.len()
                && m.slot == slot && m.class == id && m.native_key is None
                && m.static_method == (access_flags & ACC_STATIC != 0)
                && m.native_decl == (access_flags & ACC_NATIVE != 0),
            r matches Ok(m) ==> (method_idx as int) < old(self).dexes@[dex_idx as int].methods@.len()
                && final(self).intern@[m.name as int]@ == old(self).dexes@[dex_idx as int].strings@[
                    old(self).dexes@[dex_idx as int].methods@[method_idx as int].name as int]@,
            ({
                let d = old(self).dexes@[dex_idx as int];
                &&& (method_idx as int) < d.methods@.len()
                &&& (d.methods@[method_idx as int].name as int) < d.strings@.len()
                &&& (d.methods@[method_idx as int].proto as int) < d.protos@.len()
                &&& room_spec(old(self))
                &&& old(self).intern@.len() + 3 + d.protos@[d.methods@[method_idx as int].proto as int].params@.len() < 0x7fff_ffff
            }) ==> r is Ok,
    {
        let ghost v0 = *self;
        let mid = match self.dexes[dex_idx as usize].method_at(method_idx) {
            Some(m) => m,
            None => return Err(JvmError::Resolution(String::from_str("bad method idx in class data"))),
        };
        let name = self.intern_dex_string(dex_idx, mid.name)?;
        let sig_s = match self.proto_sig(dex_idx, mid.proto) {
            Some(s) => s,
            None => return Err(JvmError::Resolution(String::from_str("bad proto idx"))),
        };
        let sig = self.intern_checked(sig_s.as_str())?;
        let (ret_t, nparams) = {
            let p = &self.dexes[dex_idx as usize].protos[mid.proto as usize];
            (p.return_type, p.params.len())
        };
        let ret = self.intern_type(dex_idx, ret_t)?;
        let mut args: Vec<u32> = Vec::new();
        let mut i: usize = 0;
        while i < nparams
            invariant
                intern_post(&v0, self),
                i <= nparams,
                (dex_idx as int) < self.dexes@.len(),
                (mid.proto as int) < self.dexes@[dex_idx as int].protos@.len(),
                nparams == self.dexes@[dex_idx as int].protos@[mid.proto as int].params@.len(),
                name < self.intern@.len(),
                sig < self.intern@.len(),
                self.intern@.len() <= v0.intern@.len() + 3 + i,
                self.arena == v0.arena,
                mid == v0.dexes@[dex_idx as int].methods@[method_idx as int],
                (method_idx as int) < v0.dexes@[dex_idx as int].methods@.len(),
                self.intern@[name as int]@ == v0.dexes@[dex_idx as int].strings@[mid.name as int]@,
                (mid.name as int) < v0.dexes@[dex_idx as int].strings@.len(),
            decreases nparams - i,
        {
            let t = self.dexes[dex_idx as usize].protos[mid.proto as usize].params[i];
            let a = self.intern_type(dex_idx, t)?;
            args.push(a);
            i += 1;
        }
        Ok(Method {
            slot,
            class: id,
            name,
            sig,
            ret,
            args,
            access_flags,
            static_method: access_flags & ACC_STATIC != 0,
            dex_idx,
            native_key: None,
            native_decl: access_flags & ACC_NATIVE != 0,
            code,
        })
    }
}


/// Fields of a class being loaded: instance fields in offset order,
/// (name, type) -> offset, (name, type) -> (owner, static offset), the
/// class's own static values and their lazy materializers.
pub struct FieldTables {
    pub instance_fields: Vec<(u32, u32, u32)>,
    pub field_offsets: Vec<((u32, u32), u32)>,
    pub static_fields: Vec<((u32, u32), (u32, u32))>,
    pub statics: Vec<JValue>,
    pub statics_lazy: Vec<Option<ShimLazy>>,
}

impl FieldTables {
    /// Every id is interned, every owner is a loaded class.
    pub open spec fn ok(&self, vm: &Vm) -> bool {
        &&& (forall|k: int| 0 <= k < self.instance_fields@.len() ==> (#[trigger] self.instance_fields@[k]).0 < vm.intern@.len()
            && self.instance_fields@[k].1 < vm.intern@.len())
        &&& (forall|k: int| 0 <= k < self.static_fields@.len() ==> (#[trigger] self.static_fields@[k]).1.0 < vm.classes@.len())
        &&& self.statics@.len() == self.statics_lazy@.len()
        &&& self.instance_fields@.len() < 0x7fff_fffe
        &&& self.statics@.len() < 0x7fff_fffe
    }
}

/// The value of a non-object constant; object constants (strings and
/// classes) are materialized on first read.
pub fn encoded_static(ev: EncodedValue, dex_idx: u32) -> (r: (JValue, Option<ShimLazy>))
    ensures
        ev matches EncodedValue::String(s) ==> r == (JValue::Null, Some(ShimLazy::DexString(dex_idx, s))),
        ev matches EncodedValue::Type(t) ==> r == (JValue::Null, Some(ShimLazy::DexType(dex_idx, t))),
        ev matches EncodedValue::Int(v) ==> r == (JValue::Int(v), None::<ShimLazy>),
        ev matches EncodedValue::Long(v) ==> r == (JValue::Long(v), None::<ShimLazy>),
        ev matches EncodedValue::Bool(b) ==> r == (JValue::Int(if b { 1i32 } else { 0i32 }), None::<ShimLazy>),
{
    match ev {
        EncodedValue::Byte(v) => (JValue::Int(v as i32), None),
        EncodedValue::Short(v) => (JValue::Int(v as i32), None),
        EncodedValue::Char(v) => (JValue::Int(v as i32), None),
        EncodedValue::Int(v) => (JValue::Int(v), None),
        EncodedValue::Long(v) => (JValue::Long(v), None),
        EncodedValue::Float(v) => (JValue::Float(v), None),
        EncodedValue::Double(v) => (JValue::Double(v), None),
        EncodedValue::Bool(v) => (JValue::Int(if v { 1 } else { 0 }), None),
        EncodedValue::Null => (JValue::Null, None),
        EncodedValue::String(s) => (JValue::Null, Some(ShimLazy::DexString(dex_idx, s))),
        EncodedValue::Type(t) => (JValue::Null, Some(ShimLazy::DexType(dex_idx, t))),
        EncodedValue::Other => (JValue::Null, None),
    }
}

impl Vm {
    /// Field tables of class `id` loaded from class definition `def_idx`:
    /// the superclass's instance fields and static-field map, then the
    /// class's own static fields (with their encoded initial values) and
    /// instance fields.
    #[verifier::loop_isolation(false)]
    pub fn load_fields(&mut self, dex_idx: u32, def_idx: usize, id: u32, superclass: Option<u32>) -> (r: Result<FieldTables, JvmError>)
        requires
            old(self).core_wf(),
            (dex_idx as int) < old(self).dexes@.len(),
            (def_idx as int) < old(self).dexes@[dex_idx as int].classes@.len(),
            (id as int) < old(self).classes@.len(),
            superclass matches Some(s) ==> (s as int) < old(self).classes@.len(),
        ensures
            intern_post(old(self), final(self)),
            r matches Ok(t) ==> t.ok(final(self)),
    {
        let ghost v0 = *self;
        let mut t = FieldTables {
            instance_fields: Vec::new(),
            field_offsets: Vec::new(),
            static_fields: Vec::new(),
            statics: Vec::new(),
            statics_lazy: Vec::new(),
        };
        match superclass {
            Some(sc) => {
                proof { assert(self.class_ok(self.classes@[sc as int])); }
                t.instance_fields = copy_vec(&self.classes[sc as usize].instance_fields);
                t.field_offsets = copy_vec(&self.classes[sc as usize].field_offsets);
                t.static_fields = copy_vec(&self.classes[sc as usize].static_fields);
            },
            None => {},
        }
        if t.instance_fields.len() >= 0x7fff_fff0 {
            return Err(JvmError::Fatal(String::from_str("too many instance fields")));
        }
        let (sfields, ifields, values) = match &self.dexes[dex_idx as usize].classes[def_idx].class_data {
            Some(cd) => (copy_vec(&cd.static_fields), copy_vec(&cd.instance_fields),
                copy_vec(&self.dexes[dex_idx as usize].classes[def_idx].static_values)),
            None => (Vec::new(), Vec::new(), Vec::new()),
        };
        let mut i: usize = 0;
        while i < sfields.len()
            invariant
                intern_post(&v0, self),
                t.ok(self),
            decreases sfields@.len() - i,
        {
            if t.statics.len() >= 0x7fff_fff0 {
                return Err(JvmError::Fatal(String::from_str("too many static fields")));
            }
            let (name, ty) = self.field_name_type(dex_idx, sfields[i].field_idx)?;
            let off = t.statics.len() as u32;
            let (v, lazy) = if i < values.len() { encoded_static(values[i], dex_idx) } else { (JValue::Null, None) };
            t.statics.push(v);
            t.statics_lazy.push(lazy);
            pair_put(&mut t.static_fields, (name, ty), (id, off));
            proof {
                assert forall|k: int| 0 <= k < t.static_fields@.len() implies (#[trigger] t.static_fields@[k]).1.0 < self.classes@.len() by {
                }
            }
            i += 1;
        }
        let mut j: usize = 0;
        while j < ifields.len()
            invariant
                intern_post(&v0, self),
                t.ok(self),
            decreases ifields@.len() - j,
        {
            if t.instance_fields.len() >= 0x7fff_fff0 {
                return Err(JvmError::Fatal(String::from_str("too many instance fields")));
            }
            let (name, ty) = self.field_name_type(dex_idx, ifields[j].field_idx)?;
            let off = t.instance_fields.len() as u32;
            pair_put(&mut t.field_offsets, (name, ty), off);
            t.instance_fields.push((name, ty, ifields[j].access_flags));
            j += 1;
        }
        Ok(t)
    }
}


/// The methods of a class under construction: every name and signature is
/// interned, every record belongs to class `id` at its own slot, and the
/// dispatch map points at existing slots.
pub open spec fn methods_ok(vm: &Vm, id: u32, ms: Seq<Method>, disp: Seq<((u32, u32), u32)>) -> bool {
    &&& (forall|k: int| 0 <= k < ms.len() ==> (#[trigger] ms[k]).name < vm.intern@.len()
        && ms[k].sig < vm.intern@.len() && ms[k].class == id && ms[k].slot == k)
    &&& (forall|q: (u32, u32)| #[trigger] pair_lookup(disp, q) matches Some(slot) ==> (slot as int) < ms.len())
    &&& ms.len() < 0x7fff_fff0
}

/// (method index, access flags) of each encoded method of a class definition.
/// The encoded direct (`virt` false) or virtual methods of class
/// definition `def_idx`.
pub open spec fn encoded_methods(d: &DexFile, def_idx: int, virt: bool) -> Seq<crate::dex::EncodedMethod> {
    match d.classes@[def_idx].class_data {
        Some(cd) => if virt { cd.virtual_methods@ } else { cd.direct_methods@ },
        None => Seq::empty(),
    }
}

fn method_list(d: &DexFile, def_idx: usize, virt: bool) -> (r: Vec<(u32, u32)>)
    requires
        (def_idx as int) < d.classes@.len(),
    ensures
        r@ == encoded_methods(d, def_idx as int, virt).map_values(|m: crate::dex::EncodedMethod| (m.method_idx, m.access_flags)),
{
    let mut out: Vec<(u32, u32)> = Vec::new();
    match &d.classes[def_idx].class_data {
        Some(cd) => {
            let list = if virt { &cd.virtual_methods } else { &cd.direct_methods };
            let mut i: usize = 0;
            while i < list.len()
                invariant
                    i <= list@.len(),
                    list@ == encoded_methods(d, def_idx as int, virt),
                    out@ =~= list@.take(i as int).map_values(|m: crate::dex::EncodedMethod| (m.method_idx, m.access_flags)),
                decreases list@.len() - i,
            {
                out.push((list[i].method_idx, list[i].access_flags));
                proof {
                    assert(list@.take(i + 1) =~= list@.take(i as int).push(list@[i as int]));
                }
                i += 1;
            }
            proof {
                assert(list@.take(list@.len() as int) =~= list@);
            }
        },
        None => {
            proof {
                assert(out@ =~= encoded_methods(d, def_idx as int, virt).map_values(|m: crate::dex::EncodedMethod| (m.method_idx, m.access_flags)));
            }
        },
    }
    out
}

/// The code item of encoded method `i` of a class definition.
fn method_code(d: &DexFile, def_idx: usize, virt: bool, i: usize) -> (r: Option<crate::class::CodeItem>)
    requires
        (def_idx as int) < d.classes@.len(),
    ensures
        r is Some <==> (i as int) < encoded_methods(d, def_idx as int, virt).len()
            && encoded_methods(d, def_idx as int, virt)[i as int].code is Some,
{
    match &d.classes[def_idx].class_data {
        Some(cd) => {
            let list = if virt { &cd.virtual_methods } else { &cd.direct_methods };
            if i < list.len() {
                match &list[i].code {
                    Some(c) => Some(c.clone()),
                    None => None,
                }
            } else {
                None
            }
        },
        None => None,
    }
}

/// Index of the entry of `fb` with this name and signature.
fn find_key(fb: &Vec<NativeEntry>, name: &str, sig: &str) -> (r: Option<usize>)
    ensures
        r matches Some(k) ==> k < fb@.len() && fb@[k as int].name@ == name@ && fb@[k as int].sig@ == sig@,
        r is None ==> forall|q: int| 0 <= q < fb@.len() ==> !(fb@[q].name@ == name@ && fb@[q].sig@ == sig@),
{
    let mut k: usize = 0;
    while k < fb.len()
        invariant
            k <= fb@.len(),
            forall|q: int| 0 <= q < k ==> !(fb@[q].name@ == name@ && fb@[q].sig@ == sig@),
        decreases fb@.len() - k,
    {
        if str_eq(fb[k].name, name) && str_eq(fb[k].sig, sig) {
            return Some(k);
        }
        k += 1;
    }
    None
}

/// The candidate natives of class `desc`: built-ins, then host-registered.
pub open spec fn native_cands(vm: &Vm, desc: Seq<char>) -> Seq<(Seq<char>, Seq<char>, Seq<char>, bool, crate::natives::NativeFn)> {
    crate::vm::of_class(crate::natives::builtin_table(), desc) + crate::vm::of_class(entries_view(vm.host_natives@), desc)
}

/// `x` is one of `v`.
pub open spec fn has_entry(v: Seq<(Seq<char>, Seq<char>, Seq<char>, bool, crate::natives::NativeFn)>,
    x: (Seq<char>, Seq<char>, Seq<char>, bool, crate::natives::NativeFn)) -> bool {
    exists|w: int| 0 <= w < v.len() && v[w] == x
}

/// Some entry of `v` has the name and signature of `x`.
pub open spec fn has_key(v: Seq<(Seq<char>, Seq<char>, Seq<char>, bool, crate::natives::NativeFn)>,
    x: (Seq<char>, Seq<char>, Seq<char>, bool, crate::natives::NativeFn)) -> bool {
    exists|w: int| 0 <= w < v.len() && v[w].1 == x.1 && v[w].2 == x.2
}

impl Vm {
    /// Appends the direct (then, with `virt`, the virtual) methods of class
    /// definition `def_idx` to class `id`'s method table.
    #[verifier::loop_isolation(false)]
    fn load_method_list(&mut self, dex_idx: u32, def_idx: usize, id: u32, virt: bool,
        methods: &mut Vec<Method>, dispatch: &mut Vec<((u32, u32), u32)>) -> (r: Result<(), JvmError>)
        requires
            old(self).core_wf(),
            (dex_idx as int) < old(self).dexes@.len(),
            (def_idx as int) < old(self).dexes@[dex_idx as int].classes@.len(),
            methods_ok(old(self), id, old(methods)@, old(dispatch)@),
        ensures
            intern_post(old(self), final(self)),
            methods_ok(final(self), id, final(methods)@, final(dispatch)@),
    {
        let ghost v0 = *self;
        let list = method_list(&self.dexes[dex_idx as usize], def_idx, virt);
        let mut i: usize = 0;
        while i < list.len()
            invariant
                intern_post(&v0, self),
                methods_ok(self, id, methods@, dispatch@),
            decreases list@.len() - i,
        {
            if methods.len() >= 0x7fff_ffe0 {
                return Err(JvmError::Fatal(String::from_str("too many methods")));
            }
            let slot = methods.len() as u32;
            let code = method_code(&self.dexes[dex_idx as usize], def_idx, virt, i);
            let ghost v1 = *self;
            let m = self.dex_method(dex_idx, list[i].0, list[i].1, slot, id, code)?;
            let key = (m.name, m.sig);
            methods.push(m);
            pair_put(dispatch, key, slot);
            i += 1;
        }
        Ok(())
    }

    /// Native entries of class `desc`, later entries with the same name and
    /// signature replacing earlier ones, in first-occurrence order.
    #[verifier::rlimit(40)]
    fn native_fallbacks(&self, desc: &str) -> (r: Vec<NativeEntry>)
        ensures
            forall|k: int| 0 <= k < r@.len() ==> (#[trigger] r@[k]).class@ == desc@,
            forall|k: int| 0 <= k < r@.len() ==> #[trigger] has_entry(native_cands(self, desc@), entry_view(r@[k])),
            forall|k: int| 0 <= k < native_cands(self, desc@).len() ==> #[trigger] has_key(entries_view(r@), native_cands(self, desc@)[k]),
            forall|a: int, b: int| 0 <= a < b < r@.len() ==> !(r@[a].name@ == r@[b].name@ && r@[a].sig@ == r@[b].sig@),
    {
        let cands = crate::vm::native_candidates(&self.host_natives, desc);
        let ghost cv = entries_view(cands@);
        let mut fb: Vec<NativeEntry> = Vec::new();
        let mut i: usize = 0;
        while i < cands.len()
            invariant
                forall|k: int| 0 <= k < cands@.len() ==> (#[trigger] cands@[k]).class@ == desc@,
                forall|k: int| 0 <= k < fb@.len() ==> (#[trigger] fb@[k]).class@ == desc@,
                cv == entries_view(cands@),
                cv == native_cands(self, desc@),
                i <= cands@.len(),
                forall|k: int| 0 <= k < fb@.len() ==> #[trigger] has_entry(cv, entry_view(fb@[k])),
                forall|k: int| 0 <= k < i ==> #[trigger] has_key(entries_view(fb@), cv[k]),
                forall|a: int, b: int| 0 <= a < b < fb@.len() ==> !(fb@[a].name@ == fb@[b].name@ && fb@[a].sig@ == fb@[b].sig@),
            decreases cands@.len() - i,
        {
            let e = cands[i];
            proof {
                assert(cv[i as int] == entry_view(e));
                assert(has_entry(cv, entry_view(e)));
            }
            let ghost fb0 = fb@;
            match find_key(&fb, e.name, e.sig) {
                Some(k) => {
                    fb.set(k, e);
                    proof {
                        assert forall|q: int| 0 <= q < i + 1 implies #[trigger] has_key(entries_view(fb@), cv[q]) by {
                            if q < i as int {
                                assert(has_key(entries_view(fb0), cv[q]));
                                let w = choose|w: int| 0 <= w < entries_view(fb0).len() && entries_view(fb0)[w].1 == cv[q].1 && entries_view(fb0)[w].2 == cv[q].2;
                                if w == k as int {
                                    assert(entries_view(fb@)[w] == entry_view(e));
                                } else {
                                    assert(fb@[w] == fb0[w]);
                                }
                                assert(entries_view(fb@)[w].1 == entries_view(fb0)[w].1);
                                assert(entries_view(fb@)[w].2 == entries_view(fb0)[w].2);
                            } else {
                                assert(entries_view(fb@)[k as int] == entry_view(e));
                            }
                        }
                        assert forall|q: int| 0 <= q < fb@.len() implies #[trigger] has_entry(cv, entry_view(fb@[q])) by {
                            if q != k as int {
                                assert(fb@[q] == fb0[q]);
                            }
                        }
                        assert forall|a: int, b: int| 0 <= a < b < fb@.len() implies !(fb@[a].name@ == fb@[b].name@ && fb@[a].sig@ == fb@[b].sig@) by {
                            if a != k as int && b != k as int {
                                assert(fb@[a] == fb0[a] && fb@[b] == fb0[b]);
                            } else if a == k as int {
                                assert(fb@[b] == fb0[b]);
                            } else {
                                assert(fb@[a] == fb0[a]);
                            }
                        }
                    }
                },
                None => {
                    fb.push(e);
                    proof {
                        assert forall|q: int| 0 <= q < i + 1 implies #[trigger] has_key(entries_view(fb@), cv[q]) by {
                            if q < i as int {
                                assert(has_key(entries_view(fb0), cv[q]));
                                let w = choose|w: int| 0 <= w < entries_view(fb0).len() && entries_view(fb0)[w].1 == cv[q].1 && entries_view(fb0)[w].2 == cv[q].2;
                                assert(entries_view(fb@)[w] == entries_view(fb0)[w]);
                            } else {
                                assert(entries_view(fb@)[fb0.len() as int] == entry_view(e));
                            }
                        }
                        assert forall|q: int| 0 <= q < fb@.len() implies #[trigger] has_entry(cv, entry_view(fb@[q])) by {
                            if q < fb0.len() {
                                assert(fb@[q] == fb0[q]);
                            }
                        }
                        assert forall|a: int, b: int| 0 <= a < b < fb@.len() implies !(fb@[a].name@ == fb@[b].name@ && fb@[a].sig@ == fb@[b].sig@) by {
                            assert(fb@[a] == fb0[a]);
                            if b < fb0.len() {
                                assert(fb@[b] == fb0[b]);
                            }
                        }
                    }
                },
            }
            i += 1;
        }
        fb
    }

    /// Gives class `id` the native entries for its descriptor: an entry
    /// implements a matching method declared `native` (same staticness) and
    /// otherwise adds a method the dex class does not declare.
    #[verifier::loop_isolation(false)]
    fn add_native_fallbacks(&mut self, id: u32, desc_id: u32, desc: &str,
        methods: &mut Vec<Method>, dispatch: &mut Vec<((u32, u32), u32)>) -> (r: Result<(), JvmError>)
        requires
            old(self).core_wf(),
            (desc_id as int) < old(self).intern@.len(),
            methods_ok(old(self), id, old(methods)@, old(dispatch)@),
        ensures
            intern_post(old(self), final(self)),
            methods_ok(final(self), id, final(methods)@, final(dispatch)@),
    {
        let ghost v0 = *self;
        let fb = self.native_fallbacks(desc);
        let mut i: usize = 0;
        while i < fb.len()
            invariant
                intern_post(&v0, self),
                (desc_id as int) < self.intern@.len(),
                methods_ok(self, id, methods@, dispatch@),
            decreases fb@.len() - i,
        {
            let e = fb[i];
            let name = self.intern_checked(e.name)?;
            let sig = self.intern_checked(e.sig)?;
            match pair_get(dispatch, (name, sig)) {
                Some(slot) => {
                    let s = slot as usize;
                    if methods[s].native_decl && methods[s].static_method == !e.instance {
                        let mut m = Method {
                            slot: 0, class: 0, name: 0, sig: 0, ret: 0, args: Vec::new(), access_flags: 0,
                            static_method: false, dex_idx: 0, native_key: None, native_decl: false, code: None,
                        };
                        methods.set_and_swap(s, &mut m);
                        m.native_key = Some((desc_id, name, sig));
                        m.native_decl = false;
                        methods.set_and_swap(s, &mut m);
                    }
                },
                None => {
                    if methods.len() >= 0x7fff_ffe0 {
                        return Err(JvmError::Fatal(String::from_str("too many methods")));
                    }
                    let slot = methods.len() as u32;
                    let m = self.native_method(id, desc_id, slot, e)?;
                    let key = (m.name, m.sig);
                    methods.push(m);
                    pair_put(dispatch, key, slot);
                },
            }
            i += 1;
        }
        Ok(())
    }
}


/// In a well-formed VM two interned ids with the same text are the same id.
pub proof fn lemma_unique_id(vm: &Vm, a: u32, b: u32)
    requires
        vm.core_wf(),
        (a as int) < vm.intern@.len(),
        (b as int) < vm.intern@.len(),
        vm.intern@[a as int]@ == vm.intern@[b as int]@,
    ensures
        a == b,
{
    if a != b {
        assert(vm.intern@[a as int]@ != vm.intern@[b as int]@);
    }
}

/// Whether `(dex, def)` is among the classes being loaded.
fn loading_has(v: &Vec<(u32, usize)>, key: (u32, usize)) -> (r: bool)
    ensures
        r == v@.contains(key),
{
    let mut i: usize = 0;
    while i < v.len()
        invariant
            i <= v@.len(),
            forall|j: int| 0 <= j < i ==> v@[j] != key,
        decreases v@.len() - i,
    {
        if v[i].0 == key.0 && v[i].1 == key.1 {
            assert(v@[i as int] == key);
            return true;
        }
        i += 1;
    }
    false
}

impl Vm {
    /// The array class whose elements have dex type `elem_type`: a subclass
    /// of `Object` implementing `Cloneable` and `Serializable`.
    pub fn array_class_fuel(&mut self, dex_idx: u32, elem_type: u32, fuel: u32) -> (r: Result<u32, JvmError>)
        requires
            old(self).core_wf(),
            (dex_idx as int) < old(self).dexes@.len(),
            fuel > 0,
        ensures
            load_post(old(self), final(self)),
            r matches Ok(c) ==> (c as int) < final(self).classes@.len()
                && final(self).intern@[final(self).classes@[c as int].descriptor as int]@ == seq!['['] + old(self).dexes@[dex_idx as int].type_desc(elem_type),
            room_spec(old(self)) && old(self).intern@.len() + 1 < 0x7fff_ffff
                && (exists|j: int| 0 <= j < old(self).classes@.len() && old(self).classes@[j].descriptor == old(self).hot.object)
                && loaded_desc(old(self), "Ljava/lang/Cloneable;"@) && loaded_desc(old(self), "Ljava/io/Serializable;"@) ==> r is Ok,
        decreases fuel, 0u32,
    {
        let ghost v0 = *self;
        let mut desc = String::new();
        push_char(&mut desc, '[');
        desc.append(self.dexes[dex_idx as usize].type_descriptor(elem_type));
        let desc_id = self.intern_checked(desc.as_str())?;
        match pair_get(&self.array_classes, (dex_idx, elem_type)) {
            Some(c) => {
                if (c as usize) < self.classes.len() && self.classes[c as usize].descriptor == desc_id {
                    return Ok(c);
                }
            },
            None => {},
        }
        let ghost v1 = *self;
        proof {
            if loaded_desc(&v0, "Ljava/lang/Cloneable;"@) {
                crate::vm::lemma_loaded_kept(&v0, &v1, "Ljava/lang/Cloneable;"@);
            }
            if loaded_desc(&v0, "Ljava/io/Serializable;"@) {
                crate::vm::lemma_loaded_kept(&v0, &v1, "Ljava/io/Serializable;"@);
            }
        }
        let object = self.ensure_class_fuel(self.hot.object, fuel - 1)?;
        let cloneable = self.ensure_class_fuel_desc("Ljava/lang/Cloneable;", fuel - 1)?;
        let serializable = self.ensure_class_fuel_desc("Ljava/io/Serializable;", fuel - 1)?;
        let id = self.push_class_with(desc_id, Some(object), vec![cloneable, serializable], 0, Some((dex_idx, elem_type)))?;
        pair_put(&mut self.array_classes, (dex_idx, elem_type), id);
        Ok(id)
    }

    /// Loads the class of dex type `type_id`, remembering the answer.
    pub fn ensure_type_fuel(&mut self, dex_idx: u32, type_id: u32, fuel: u32) -> (r: Result<u32, JvmError>)
        requires
            old(self).core_wf(),
            (dex_idx as int) < old(self).dexes@.len(),
        ensures
            load_post(old(self), final(self)),
            r matches Ok(c) ==> (c as int) < final(self).classes@.len()
                && final(self).intern@[final(self).classes@[c as int].descriptor as int]@ == old(self).dexes@[dex_idx as int].type_desc(type_id),
            (pair_lookup(old(self).class_by_type@, (dex_idx, type_id)) matches Some(c)
                && (c as int) < old(self).classes@.len()
                && old(self).intern@[old(self).classes@[c as int].descriptor as int]@ == old(self).dexes@[dex_idx as int].type_desc(type_id))
                ==> r == Ok::<u32, JvmError>(pair_lookup(old(self).class_by_type@, (dex_idx, type_id))->Some_0) && *final(self) == *old(self),
            r is Ok && !(old(self).dexes@[dex_idx as int].type_desc(type_id).len() > 0
                && old(self).dexes@[dex_idx as int].type_desc(type_id)[0] == '[')
                ==> pair_lookup(final(self).class_by_type@, (dex_idx, type_id)) == Some(r->Ok_0),
            fuel > 0 && room_spec(old(self)) && !loaded_desc(old(self), old(self).dexes@[dex_idx as int].type_desc(type_id))
                && crate::vm::unprovided(old(self), old(self).dexes@[dex_idx as int].type_desc(type_id))
                ==> (r matches Err(JvmError::Resolution(m))
                    && m@ == "class not found: "@ + old(self).dexes@[dex_idx as int].type_desc(type_id)),
        decreases fuel, 3u32,
    {
        match pair_get(&self.class_by_type, (dex_idx, type_id)) {
            Some(c) => {
                if (c as usize) < self.classes.len() {
                    proof { assert(self.class_ok(self.classes@[c as int])); }
                    let d = self.classes[c as usize].descriptor;
                    if str_eq(self.str_of(d), self.dexes[dex_idx as usize].type_descriptor(type_id)) {
                        proof {
                            assert(self.intern@[self.classes@[c as int].descriptor as int]@ == self.dexes@[dex_idx as int].type_desc(type_id));
                        }
                        return Ok(c);
                    }
                }
            },
            None => {},
        }
        if fuel == 0 {
            return Err(JvmError::Resolution(String::from_str("class hierarchy too deep")));
        }
        let ghost v0 = *self;
        let desc = to_owned_string(self.dexes[dex_idx as usize].type_descriptor(type_id));
        let desc_id = self.intern_checked(desc.as_str())?;
        let ghost v1 = *self;
        if crate::value::first_char(desc.as_str()) == Some('[') {
            match self.find_class(desc_id) {
                Some(c) => {
                    pair_put(&mut self.class_by_type, (dex_idx, type_id), c);
                    return Ok(c);
                },
                None => {},
            }
            let n = desc.unicode_len();
            let inner = desc.as_str().substring_char(1, n);
            proof {
                assert(desc@ =~= seq!['['] + inner@);
            }
            return match self.dexes[dex_idx as usize].type_id_of(inner) {
                Some(t) => self.array_class_fuel(dex_idx, t, fuel),
                None => self.ensure_class_fuel(desc_id, fuel),
            };
        }
        proof {
            if !loaded_desc(&v0, desc@) {
                assert forall|j: int| 0 <= j < self.classes@.len() implies self.classes@[j].descriptor != desc_id by {
                    assert(v0.class_ok(v0.classes@[j]));
                    assert(self.classes@[j] == v0.classes@[j]);
                    if self.classes@[j].descriptor == desc_id {
                        assert(v0.intern@[v0.classes@[j].descriptor as int]@ == desc@);
                    }
                }
            }
        }
        let c = self.ensure_class_fuel(desc_id, fuel)?;
        pair_put(&mut self.class_by_type, (dex_idx, type_id), c);
        Ok(c)
    }

    /// Interns `desc` and loads the class it names with the given fuel.
    pub fn ensure_class_fuel_desc(&mut self, desc: &str, fuel: u32) -> (r: Result<u32, JvmError>)
        requires
            old(self).core_wf(),
        ensures
            load_post(old(self), final(self)),
            r matches Ok(c) ==> (c as int) < final(self).classes@.len(),
            room_spec(old(self)) && loaded_desc(old(self), desc@) ==> r is Ok && final(self).arena == old(self).arena
                && final(self).classes == old(self).classes && final(self).intern@ == old(self).intern@,
        decreases fuel, 2u32,
    {
        proof {
            if loaded_desc(old(self), desc@) {
                let c = choose|c: int| 0 <= c < old(self).classes@.len() && #[trigger] old(self).intern@[old(self).classes@[c].descriptor as int]@ == desc@;
                assert(old(self).class_ok(old(self).classes@[c]));
            }
        }
        let id = self.intern_checked(desc)?;
        proof {
            if loaded_desc(old(self), desc@) {
                let c = choose|c: int| 0 <= c < old(self).classes@.len() && #[trigger] old(self).intern@[old(self).classes@[c].descriptor as int]@ == desc@;
                assert(old(self).class_ok(old(self).classes@[c]));
                let d = old(self).classes@[c].descriptor as int;
                assert(self.intern@ == old(self).intern@);
                if d != id as int {
                    assert(self.intern@[d]@ != self.intern@[id as int]@);
                }
                assert(self.classes@[c].descriptor == id);
            }
        }
        self.ensure_class_fuel(id, fuel)
    }

    /// Loads class definition `def_idx` of dex `dex_idx`: its superclass and
    /// interfaces first, then a class record with its fields, static values,
    /// methods and native entries.
    #[verifier::loop_isolation(false)]
    #[verifier::rlimit(40)]
    pub fn load_dex_class(&mut self, dex_idx: u32, def_idx: usize, fuel: u32) -> (r: Result<u32, JvmError>)
        requires
            old(self).core_wf(),
            (dex_idx as int) < old(self).dexes@.len(),
            (def_idx as int) < old(self).dexes@[dex_idx as int].classes@.len(),
            fuel > 0,
        ensures
            load_post(old(self), final(self)),
            r matches Ok(c) ==> (c as int) < final(self).classes@.len()
                && final(self).intern@[final(self).classes@[c as int].descriptor as int]@
                    == old(self).dexes@[dex_idx as int].type_desc(old(self).dexes@[dex_idx as int].classes@[def_idx as int].class_idx),
            r matches Ok(c) ==> (c as int) < old(self).classes@.len() || dex_record(final(self), final(self).classes@[c as int],
                old(self).dexes@[dex_idx as int], old(self).dexes@[dex_idx as int].classes@[def_idx as int]),
        decreases fuel, 0u32,
    {
        let ghost v0 = *self;
        let class_idx = self.dexes[dex_idx as usize].classes[def_idx].class_idx;
        let super_idx = self.dexes[dex_idx as usize].classes[def_idx].superclass_idx;
        let flags = self.dexes[dex_idx as usize].classes[def_idx].access_flags;
        let desc = to_owned_string(self.dexes[dex_idx as usize].type_descriptor(class_idx));
        let desc_id = self.intern_checked(desc.as_str())?;
        match self.find_class(desc_id) {
            Some(c) => {
                pair_put(&mut self.class_by_type, (dex_idx, class_idx), c);
                return Ok(c);
            },
            None => {},
        }
        if loading_has(&self.loading, (dex_idx, def_idx)) {
            return Err(JvmError::Resolution(String::from_str("cyclic class hierarchy")));
        }
        self.loading.push((dex_idx, def_idx));
        let superclass = if super_idx == u32::MAX {
            if desc_id == self.hot.object {
                None
            } else {
                Some(self.ensure_class_fuel(self.hot.object, fuel - 1)?)
            }
        } else {
            Some(self.ensure_type_fuel(dex_idx, super_idx, fuel - 1)?)
        };
        let ghost d = v0.dexes@[dex_idx as int];
        let ghost def = d.classes@[def_idx as int];
        proof {
            assert(super_idx == u32::MAX ==> (superclass is None <==> desc_id == self.hot.object));
        }
        let iface_types = copy_vec(&self.dexes[dex_idx as usize].classes[def_idx].interfaces);
        let mut interfaces: Vec<u32> = Vec::new();
        let mut i: usize = 0;
        while i < iface_types.len()
            invariant
                load_post(&v0, self),
                (desc_id as int) < self.intern@.len(),
                self.intern@[desc_id as int]@ == desc@,
                superclass matches Some(s) ==> (s as int) < self.classes@.len(),
                forall|k: int| 0 <= k < interfaces@.len() ==> (interfaces@[k] as int) < self.classes@.len(),
                iface_types@ == def.interfaces@,
                interfaces@.len() == i,
                i <= iface_types@.len(),
                forall|k: int| 0 <= k < interfaces@.len() ==> #[trigger] self.intern@[self.classes@[interfaces@[k] as int].descriptor as int]@
                    == d.type_desc(iface_types@[k]),
                super_idx != u32::MAX ==> (superclass matches Some(s) && self.intern@[self.classes@[s as int].descriptor as int]@
                    == d.type_desc(super_idx)),
                super_idx == u32::MAX ==> (superclass matches Some(s) ==> self.classes@[s as int].descriptor == self.hot.object),
            decreases iface_types@.len() - i,
        {
            let ghost vi = *self;
            let c = self.ensure_type_fuel(dex_idx, iface_types[i], fuel - 1)?;
            proof {
                assert forall|k: int| 0 <= k < interfaces@.len() implies #[trigger] self.intern@[self.classes@[interfaces@[k] as int].descriptor as int]@
                    == d.type_desc(iface_types@[k]) by {
                    assert(self.classes@[interfaces@[k] as int] == vi.classes@[interfaces@[k] as int]);
                }
            }
            interfaces.push(c);
            i += 1;
        }
        let ifaces = copy_vec(&interfaces);
        let id = self.push_class_with(desc_id, superclass, interfaces, flags, None)?;
        pair_put(&mut self.class_by_type, (dex_idx, class_idx), id);
        let ghost v1 = *self;
        let t = self.load_fields(dex_idx, def_idx, id, superclass)?;
        let mut methods: Vec<Method> = Vec::new();
        let mut dispatch: Vec<((u32, u32), u32)> = Vec::new();
        self.load_method_list(dex_idx, def_idx, id, false, &mut methods, &mut dispatch)?;
        self.load_method_list(dex_idx, def_idx, id, true, &mut methods, &mut dispatch)?;
        self.add_native_fallbacks(id, desc_id, desc.as_str(), &mut methods, &mut dispatch)?;
        let c = Class {
            id,
            descriptor: desc_id,
            superclass,
            interfaces: ifaces,
            access_flags: flags,
            is_interface: flags & ACC_INTERFACE != 0,
            is_abstract: flags & ACC_ABSTRACT != 0,
            array_elem: None,
            instance_fields: t.instance_fields,
            field_offsets: t.field_offsets,
            static_fields: t.static_fields,
            statics: t.statics,
            statics_lazy: t.statics_lazy,
            clinit_state: 0,
            class_obj: None,
            methods,
            dispatch,
        };
        let ghost v2 = *self;
        proof {
            assert(self.class_ok(c));
        }
        self.classes.set(id as usize, c);
        proof {
            lemma_set_class(&v2, self, id as int, c);
        }
        self.loading.pop();
        Ok(id)
    }
}

} // verus!
