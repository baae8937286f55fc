//! What the embedder asks of the VM between runs: named instance fields of
//! objects, the bytes inside an object graph, the guest's output, and the
//! classes an extension is entered through.

use vstd::prelude::*;

use crate::object::{ArrayData, Native, Object};
use vstd::string::StringSliceAdditionalSpecFns;
use crate::value::JValue;
use crate::class::{pair_lookup, pair_put, Method};
use crate::error::JvmError;
use crate::loader::lemma_set_class;
use crate::vm::{field_named, loaded_desc, native_lookup, payload_spec, room_spec, NativeEntry, Vm};

verus! {

/// The slot of the instance field `name` of object `obj`: the first field
/// of that name in the object's class.
pub open spec fn field_slot(vm: &Vm, obj: u32, name: Seq<char>, k: int) -> bool {
    &&& (obj as int) < vm.arena.objects@.len()
    &&& (vm.arena.objects@[obj as int].class as int) < vm.classes@.len()
    &&& field_named(vm, vm.classes@[vm.arena.objects@[obj as int].class as int], name, k)
}

/// No instance field of object `obj`'s class is called `name` (or `obj`
/// names no object).
pub open spec fn no_field_slot(vm: &Vm, obj: u32, name: Seq<char>) -> bool {
    (obj as int) >= vm.arena.objects@.len() || forall|k: int| !#[trigger] field_slot(vm, obj, name, k)
}

/// The bytes of a byte array, each as its unsigned value.
pub open spec fn unsigned_bytes(v: Seq<i8>) -> Seq<u8> {
    v.map_values(|b: i8| b as u8)
}

/// What a search for a byte array from `v` at `depth` finds: the array
/// itself, nothing when `v` carries another payload, else the first find
/// among its fields, at most four references deep.
pub open spec fn bytes_in(vm: &Vm, v: JValue, depth: nat) -> Option<Seq<u8>>
    decreases 5 - depth, 0nat,
{
    if depth > 4 {
        None
    } else {
        match payload_spec(vm, v) {
            Some(Native::Array(ArrayData::Byte(bs))) => Some(unsigned_bytes(bs@)),
            Some(_) => None,
            None => match v {
                JValue::Obj(id) => if (id as int) < vm.arena.objects@.len() {
                    bytes_in_fields(vm, vm.arena.objects@[id as int].fields@, depth + 1, 0)
                } else {
                    None
                },
                _ => None,
            },
        }
    }
}

/// The first find among `fields[i..]`, each searched at `depth`.
pub open spec fn bytes_in_fields(vm: &Vm, fields: Seq<JValue>, depth: nat, i: int) -> Option<Seq<u8>>
    decreases 5 - depth, fields.len() - i,
{
    if depth > 5 || i >= fields.len() || i < 0 {
        None
    } else {
        match bytes_in(vm, fields[i], depth) {
            Some(b) => Some(b),
            None => bytes_in_fields(vm, fields, depth, i + 1),
        }
    }
}

/// Native entry `e` is registered under the interned key `key`: the key
/// names the entry's class, method name and signature, the natives table
/// maps it to the entry's implementation (and every other key as before),
/// and the first loaded class with that descriptor, if any, gained the
/// method at the end of its method list; every other class is unchanged.
pub open spec fn registered(old_vm: &Vm, vm: &Vm, e: NativeEntry, key: (u32, u32, u32)) -> bool {
    &&& key.0 < vm.intern@.len() && key.1 < vm.intern@.len() && key.2 < vm.intern@.len()
    &&& vm.intern@[key.0 as int]@ == e.class@
    &&& vm.intern@[key.1 as int]@ == e.name@
    &&& vm.intern@[key.2 as int]@ == e.sig@
    &&& native_lookup(vm.natives@, key) == Some(e.f)
    &&& forall|q: (u32, u32, u32)| q != key ==> #[trigger] native_lookup(vm.natives@, q) == native_lookup(old_vm.natives@, q)
    &&& forall|c: int| 0 <= c < old_vm.classes@.len() ==> {
        let oc = old_vm.classes@[c];
        let nc = #[trigger] vm.classes@[c];
        if oc.descriptor == key.0 && forall|j: int| 0 <= j < c ==> old_vm.classes@[j].descriptor != key.0 {
            &&& nc.methods@.len() == oc.methods@.len() + 1
            &&& nc.methods@.subrange(0, oc.methods@.len() as int) == oc.methods@
            &&& nc.methods@.last().native_key == Some(key)
            &&& nc.methods@.last().static_method == !e.instance
            &&& pair_lookup(nc.dispatch@, (key.1, key.2)) == Some(oc.methods@.len() as u32)
        } else {
            nc == oc
        }
    }
}

impl Vm {
    /// Appends `s` (UTF-8) to the guest's standard output.
    pub fn write_out(&mut self, s: &str)
        ensures
            final(self).out@ == old(self).out@ + s.spec_bytes(),
            *final(self) == (Vm { out: final(self).out, ..*old(self) }),
    {
        let b = s.as_bytes();
        let mut i: usize = 0;
        let ghost o0 = self.out@;
        while i < b.len()
            invariant
                i <= b@.len(),
                b@ == s.spec_bytes(),
                self.out@ == o0 + b@.take(i as int),
                *self == (Vm { out: self.out, ..*old(self) }),
                o0 == old(self).out@,
            decreases b@.len() - i,
        {
            self.out.push(b[i]);
            proof {
                assert(b@.take(i + 1) =~= b@.take(i as int).push(b@[i as int]));
                assert(self.out@ =~= o0 + b@.take(i + 1));
            }
            i += 1;
        }
        proof {
            assert(b@.take(b@.len() as int) =~= b@);
        }
    }

    /// The instance field `name` of object `obj`: its slot's value, `None`
    /// when the class has no such field or the object lacks the slot (host
    /// shim objects carry no dex fields).
    pub fn instance_field(&self, obj: u32, name: &str) -> (r: Option<JValue>)
        requires
            self.wf(),
        ensures
            r matches Some(v) ==> exists|k: int| #[trigger] field_slot(self, obj, name@, k)
                && k < self.arena.objects@[obj as int].fields@.len() && v == self.arena.objects@[obj as int].fields@[k],
            r is None ==> no_field_slot(self, obj, name@) || exists|k: int| #[trigger] field_slot(self, obj, name@, k)
                && k >= self.arena.objects@[obj as int].fields@.len(),
    {
        match self.instance_field_id(obj, name) {
            Some((k, v)) => {
                if k < self.arena.objects[obj as usize].fields.len() {
                    Some(v)
                } else {
                    None
                }
            },
            None => None,
        }
    }

    /// The slot of instance field `name` of object `obj` and its value
    /// (`Null` when the object lacks the slot).
    pub fn instance_field_id(&self, obj: u32, name: &str) -> (r: Option<(usize, JValue)>)
        requires
            self.wf(),
        ensures
            r matches Some((k, v)) ==> field_slot(self, obj, name@, k as int) && v == (if (k as int)
                < self.arena.objects@[obj as int].fields@.len() {
                self.arena.objects@[obj as int].fields@[k as int]
            } else {
                JValue::Null
            }),
            r is None ==> no_field_slot(self, obj, name@),
    {
        if (obj as usize) >= self.arena.objects.len() {
            return None;
        }
        let o = &self.arena.objects[obj as usize];
        proof {
            assert((o.class as int) < self.classes@.len());
        }
        match self.class_field_offset(o.class, name) {
            Some(k) => {
                let v = if (k as usize) < o.fields.len() { o.fields[k as usize] } else { JValue::Null };
                Some((k as usize, v))
            },
            None => {
                proof {
                    assert forall|k: int| !#[trigger] field_slot(self, obj, name@, k) by {
                        if field_slot(self, obj, name@, k) {
                            assert(self.intern@[self.classes@[o.class as int].instance_fields@[k].0 as int]@ == name@);
                        }
                    }
                }
                None
            },
        }
    }

    /// Overwrites the instance field `name` of object `obj` with `v`;
    /// `false` (and nothing changed) when there is no such field slot.
    pub fn instance_field_set(&mut self, obj: u32, name: &str, v: JValue) -> (r: bool)
        requires
            old(self).wf(),
        ensures
            final(self).wf(),
            r ==> exists|k: int| #[trigger] field_slot(old(self), obj, name@, k)
                && k < old(self).arena.objects@[obj as int].fields@.len()
                && final(self).arena.objects@[obj as int].fields@ == old(self).arena.objects@[obj as int].fields@.update(k, v),
            r ==> final(self).arena.objects@.len() == old(self).arena.objects@.len()
                && final(self).arena.objects@[obj as int].class == old(self).arena.objects@[obj as int].class
                && final(self).arena.objects@[obj as int].native == old(self).arena.objects@[obj as int].native
                && forall|j: int| 0 <= j < old(self).arena.objects@.len() && j != obj ==> final(self).arena.objects@[j] == old(self).arena.objects@[j],
            !r ==> *final(self) == *old(self) && (no_field_slot(old(self), obj, name@) || exists|k: int|
                #[trigger] field_slot(old(self), obj, name@, k) && k >= old(self).arena.objects@[obj as int].fields@.len()),
            r ==> *final(self) == (Vm { arena: final(self).arena, ..*old(self) }),
            final(self).arena.free == old(self).arena.free,
    {
        let (k, _) = match self.instance_field_id(obj, name) {
            Some(x) => x,
            None => return false,
        };
        if k >= self.arena.objects[obj as usize].fields.len() {
            return false;
        }
        let ghost v0 = *self;
        let mut o = Object { class: 0, fields: Vec::new(), native: None };
        self.arena.objects.set_and_swap(obj as usize, &mut o);
        o.fields.set(k, v);
        self.arena.objects.set_and_swap(obj as usize, &mut o);
        proof {
            assert(self.arena.objects@[obj as int].fields@ =~= v0.arena.objects@[obj as int].fields@.update(k as int, v));
            assert forall|x: int| 0 <= x < self.arena.objects@.len() implies ((#[trigger] self.arena.objects@[x]).class as int) < self.classes@.len() by {
                if x != obj {
                    assert(self.arena.objects@[x] == v0.arena.objects@[x]);
                }
            }
        }
        true
    }

    /// The bytes of the first byte array found from `v`, searching through
    /// instance fields at most four references deep (e.g. a response body
    /// object wrapping a byte container).
    pub fn object_bytes(&self, v: JValue) -> (r: Option<Vec<u8>>)
        ensures
            r matches Some(b) ==> bytes_in(self, v, 0) == Some(b@),
            r is None ==> bytes_in(self, v, 0) is None,
    {
        self.bytes_walk(v, 0)
    }

    fn bytes_walk(&self, v: JValue, depth: usize) -> (r: Option<Vec<u8>>)
        requires
            depth <= 5,
        ensures
            r matches Some(b) ==> bytes_in(self, v, depth as nat) == Some(b@),
            r is None ==> bytes_in(self, v, depth as nat) is None,
        decreases 5 - depth,
    {
        if depth > 4 {
            return None;
        }
        match self.payload_of(v) {
            Some(Native::Array(ArrayData::Byte(bs))) => {
                let mut out: Vec<u8> = Vec::new();
                let mut i: usize = 0;
                while i < bs.len()
                    invariant
                        i <= bs@.len(),
                        out@ == unsigned_bytes(bs@.take(i as int)),
                    decreases bs@.len() - i,
                {
                    out.push(#[verifier::truncate] (bs[i] as u8));
                    proof {
                        assert(bs@.take(i + 1) =~= bs@.take(i as int).push(bs@[i as int]));
                        assert(out@ =~= unsigned_bytes(bs@.take(i + 1)));
                    }
                    i += 1;
                }
                proof {
                    assert(bs@.take(bs@.len() as int) =~= bs@);
                }
                Some(out)
            },
            Some(_) => None,
            None => {
                match v {
                    JValue::Obj(id) => {
                        if (id as usize) >= self.arena.objects.len() {
                            return None;
                        }
                        let fields = &self.arena.objects[id as usize].fields;
                        let mut i: usize = 0;
                        while i < fields.len()
                            invariant
                                depth <= 4,
                                v == JValue::Obj(id),
                                payload_spec(self, v) is None,
                                (id as int) < self.arena.objects@.len(),
                                fields == &self.arena.objects@[id as int].fields,
                                i <= fields@.len(),
                                bytes_in_fields(self, fields@, (depth + 1) as nat, 0)
                                    == bytes_in_fields(self, fields@, (depth + 1) as nat, i as int),
                            decreases fields@.len() - i,
                        {
                            match self.bytes_walk(fields[i], depth + 1) {
                                Some(b) => {
                                    proof {
                                        assert(bytes_in_fields(self, fields@, (depth + 1) as nat, i as int) == Some(b@));
                                        assert(payload_spec(self, v) is None);
                                        assert(bytes_in(self, v, depth as nat) == bytes_in_fields(self, fields@, (depth + 1) as nat, 0));
                                    }
                                    return Some(b);
                                },
                                None => {},
                            }
                            i += 1;
                        }
                        None
                    },
                    _ => None,
                }
            },
        }
    }

    /// Registers a host API: a native method of the shim class `e.class`
    /// callable from dex code. The native is recorded under the interned
    /// (class, name, signature) key; when that class is already loaded it
    /// also gains the method, so resolution finds it. Fails only when the
    /// VM's tables are full.
    pub fn register_native(&mut self, e: NativeEntry) -> (r: Result<(), JvmError>)
        requires
            old(self).wf(),
        ensures
            final(self).wf(),
            old(self).intern@.len() <= final(self).intern@.len(),
            forall|j: int| 0 <= j < old(self).intern@.len() ==> #[trigger] final(self).intern@[j] == old(self).intern@[j],
            final(self).classes@.len() == old(self).classes@.len(),
            final(self).arena == old(self).arena,
            final(self).dexes == old(self).dexes,
            final(self).frames == old(self).frames,
            final(self).hot == old(self).hot,
            final(self).perms == old(self).perms,
            r is Ok ==> final(self).host_natives@ == old(self).host_natives@.push(e),
            r is Ok ==> exists|key: (u32, u32, u32)| #[trigger] registered(old(self), final(self), e, key),
            room_spec(old(self)) && old(self).intern@.len() + 3 < 0x7fff_ffff && !loaded_desc(old(self), e.class@) ==> r is Ok,
            room_spec(old(self))
                && old(self).intern@.len() + 6 + (if crate::sig::sig_parseable(e.sig@) { crate::sig::sig_args(e.sig@).len() } else { 0 }) < 0x7fff_ffff
                && (forall|c: int| 0 <= c < old(self).classes@.len() ==> (#[trigger] old(self).classes@[c]).methods@.len() < 0x7fff_ffe0)
                ==> r is Ok,
    {
        let ghost v0 = *self;
        let class = self.intern_checked(e.class)?;
        let name = self.intern_checked(e.name)?;
        let sig = self.intern_checked(e.sig)?;
        let key = (class, name, sig);
        self.set_native(key, e.f);
        self.host_natives.push(e);
        let ghost v1 = *self;
        assert(v1.classes == v0.classes);
        match self.find_class(class) {
            Some(cid) => {
                proof {
                    assert(v0.class_ok(v0.classes@[cid as int]));
                    assert(self.intern@[class as int]@ == e.class@);
                    assert(v0.intern@[v0.classes@[cid as int].descriptor as int]@ == e.class@);
                    assert(loaded_desc(&v0, e.class@));
                }
                let slot_len = self.classes[cid as usize].methods.len();
                if slot_len >= 0x7fff_ffe0 {
                    return Err(JvmError::Fatal(String::from_str("too many methods")));
                }
                let slot = slot_len as u32;
                let m = self.native_method(cid, class, slot, e)?;
                let ghost v2 = *self;
                proof {
                    assert(v2.classes == v0.classes);
                    assert(v2.class_ok(v2.classes@[cid as int]));
                    assert(crate::vm::class_order_ok(v2.classes@[cid as int], cid as int));
                }
                let mut k = self.take_class(cid);
                let ghost k0 = k;
                let mkey = (m.name, m.sig);
                let ghost mg = m;
                k.methods.push(m);
                pair_put(&mut k.dispatch, mkey, slot);
                self.classes.set(cid as usize, k);
                proof {
                    assert(v2.class_ok(k)) by {
                        assert forall|j: int| 0 <= j < k.methods@.len() implies (#[trigger] k.methods@[j]).name < v2.intern@.len()
                            && k.methods@[j].sig < v2.intern@.len() by {
                            if j < k0.methods@.len() {
                                assert(k.methods@[j] == k0.methods@[j]);
                            }
                        }
                    }
                    assert(self.classes@ =~= v2.classes@.update(cid as int, k));
                    lemma_set_class(&v2, self, cid as int, k);
                    crate::loader::lemma_unique_id(self, mg.name, name);
                    crate::loader::lemma_unique_id(self, mg.sig, sig);
                    assert(k.methods@.subrange(0, k0.methods@.len() as int) =~= k0.methods@);
                    assert forall|c: int| 0 <= c < v0.classes@.len() implies {
                        let oc = v0.classes@[c];
                        let nc = #[trigger] self.classes@[c];
                        if oc.descriptor == key.0 && forall|j: int| 0 <= j < c ==> v0.classes@[j].descriptor != key.0 {
                            &&& nc.methods@.len() == oc.methods@.len() + 1
                            &&& nc.methods@.subrange(0, oc.methods@.len() as int) == oc.methods@
                            &&& nc.methods@.last().native_key == Some(key)
                            &&& nc.methods@.last().static_method == !e.instance
                            &&& pair_lookup(nc.dispatch@, (key.1, key.2)) == Some(oc.methods@.len() as u32)
                        } else {
                            nc == oc
                        }
                    } by {
                        if c != cid {
                            if v0.classes@[c].descriptor == key.0 && forall|j: int| 0 <= j < c ==> v0.classes@[j].descriptor != key.0 {
                                if c > cid {
                                    assert(v0.classes@[cid as int].descriptor == key.0);
                                }
                            }
                        }
                    }
                    assert(registered(&v0, self, e, key));
                }
                Ok(())
            },
            None => {
                proof {
                    assert(registered(&v0, self, e, key));
                }
                Ok(())
            },
        }
    }
}

} // verus!
