//! The VM: class loading and resolution, interning, the object arena,
//! strings and exceptions.

use vstd::prelude::*;

use crate::class::{
    find_shim, shim_classes, Class, Method, ShimDef, ShimLazy, ShimValue, ACC_ABSTRACT,
    ACC_INTERFACE, ACC_PUBLIC, ACC_STATIC,
};
use crate::dex::DexFile;
use crate::error::JvmError;
use crate::natives::{builtin_table, entries_view, entry_view, NativeFn};
use crate::object::{Arena, Native, Object};
use crate::value::{dotted_name, push_char, str_eq, to_owned_string, JValue};

verus! {

/// A native method: the class it belongs to, its name and signature, whether
/// it takes a receiver, and the implementation.
#[derive(Debug, Clone, Copy)]
pub struct NativeEntry {
    pub class: &'static str,
    pub name: &'static str,
    pub sig: &'static str,
    /// true = instance method (receiver in `args[0]`).
    pub instance: bool,
    pub f: NativeFn,
}

/// Pre-interned ids for names the VM checks frequently.
#[derive(Debug, Clone, Copy)]
pub struct Hot {
    pub clinit: u32,
    pub init: u32,
    pub object: u32,
    pub string: u32,
    pub throwable: u32,
    pub npe: u32,
    pub arithmetic: u32,
    pub aioobe: u32,
    pub ioobe: u32,
    pub cce: u32,
    pub nas: u32,
    pub uoe: u32,
    pub iae: u32,
    pub string_builder: u32,
    pub class_: u32,
    pub default_ctor_marker: u32,
}

/// A resolved method reference (signature data pulled from the dex tables).
#[derive(Debug, Clone)]
pub struct MethodRef {
    pub name: u32,
    pub sig: u32,
    pub ret: u32,
    pub args: Vec<u32>,
    /// Interned descriptor of the method ref's class.
    pub class_desc: u32,
}

/// Where a call lands: a native (its key) or a bytecode method.
#[derive(Debug, Clone)]
pub enum Target {
    Native(u32, u32, u32),
    Bytecode { class: u32, slot: u32, ins_size: u16, registers: u16, ret: u32, args: Vec<u32>, static_method: bool },
}

/// A resolved field reference.
#[derive(Debug, Clone, Copy)]
pub struct FieldRef {
    pub name: u32,
    pub ty: u32,
    /// Interned descriptor of the field's declaring class.
    pub class_desc: u32,
}

pub struct Vm {
    /// All dex files of the loaded program; earlier files win on duplicates.
    pub dexes: Vec<DexFile>,
    /// The host shim classes.
    pub shims: Vec<ShimDef>,
    pub intern: Vec<String>,
    pub classes: Vec<Class>,
    /// (dex index, dex type id) -> loaded class id.
    pub class_by_type: Vec<((u32, u32), u32)>,
    pub arena: Arena,
    /// (dex index, dex string id) -> String object.
    pub string_objs: Vec<((u32, u32), u32)>,
    pub runtime_strings: Vec<(String, u32)>,
    /// (class, name, sig) -> native implementation.
    pub natives: Vec<((u32, u32, u32), NativeFn)>,
    /// Monitor enter counts per object.
    pub monitors: Vec<(u32, usize)>,
    pub method_refs: Vec<((u32, u32), MethodRef)>,
    pub field_refs: Vec<((u32, u32), FieldRef)>,
    /// Bytes written to the guest's standard output.
    pub out: Vec<u8>,
    pub budget: i64,
    pub depth_limit: usize,
    pub recursion_depth: usize,
    pub hot: Hot,
    /// Host-registered natives (see [`Vm::register_native`]).
    pub host_natives: Vec<NativeEntry>,
    /// Sandbox capability grants checked by host natives.
    pub perms: Vec<crate::permission::Permission>,
    pub array_classes: Vec<((u32, u32), u32)>,
    /// FullTypeReference subclass descriptor -> concrete type descriptor.
    pub injekt_type_by_subclass: Vec<(u32, u32)>,
    /// Class count when the injekt registry was last rebuilt.
    pub injekt_scanned_classes: usize,
    pub loading: Vec<(u32, usize)>,
    /// The interpreter's frame stack (the running frame is not on it).
    pub frames: Vec<crate::interp::Frame>,
    /// A host native the run is waiting on: its receiver, and whether it
    /// is a constructor (whose payload the receiver takes over).
    pub host_call: Option<(Option<JValue>, bool)>,
}

/// A class's superclass and interfaces were loaded before it.
pub open spec fn class_order_ok(c: Class, i: int) -> bool {
    &&& (c.superclass matches Some(s) ==> (s as int) < i)
    &&& forall|k: int| 0 <= k < c.interfaces@.len() ==> (#[trigger] c.interfaces@[k] as int) < i
}

/// No string occurs twice in an intern table.
pub open spec fn intern_unique(tab: Seq<String>) -> bool {
    forall|i: int, j: int| 0 <= i < tab.len() && 0 <= j < tab.len() && i != j ==> #[trigger] tab[i]@ != #[trigger] tab[j]@
}

/// Every injekt registry entry names two interned strings.
pub open spec fn registry_ok(reg: Seq<(u32, u32)>, n: nat) -> bool {
    forall|i: int| 0 <= i < reg.len() ==> (#[trigger] reg[i]).0 < n && reg[i].1 < n
}

/// Index of the first string equal to `s` in an intern table.
pub open spec fn first_with(tab: Seq<String>, s: Seq<char>, r: int) -> bool {
    &&& 0 <= r < tab.len()
    &&& tab[r]@ == s
    &&& forall|j: int| 0 <= j < r ==> tab[j]@ != s
}

impl Vm {
    /// A class record refers only to interned strings and loaded classes.
    pub open spec fn class_ok(&self, c: Class) -> bool {
        &&& (c.descriptor as int) < self.intern@.len()
        &&& (c.superclass matches Some(s) ==> (s as int) < self.classes@.len())
        &&& (forall|i: int| 0 <= i < c.interfaces@.len() ==> (#[trigger] c.interfaces@[i] as int) < self.classes@.len())
        &&& (forall|k: int| 0 <= k < c.methods@.len() ==> (#[trigger] c.methods@[k]).name < self.intern@.len() && c.methods@[k].sig < self.intern@.len())
        &&& (forall|k: int| 0 <= k < c.instance_fields@.len() ==> (#[trigger] c.instance_fields@[k]).0 < self.intern@.len() && c.instance_fields@[k].1 < self.intern@.len())
        &&& c.statics@.len() == c.statics_lazy@.len()
        &&& c.instance_fields@.len() < u32::MAX
        &&& (forall|k: int| 0 <= k < c.static_fields@.len() ==> (#[trigger] c.static_fields@[k]).1.0 < self.classes@.len())
    }

    /// Well-formedness of a running VM: the core invariant, and the bootstrap
    /// classes are loaded.
    pub open spec fn wf(&self) -> bool {
        &&& self.core_wf()
        &&& self.classes@.len() > 0
        &&& (self.hot.string as int) < self.classes@.len()
    }

    /// Every id stored anywhere names an existing entry.
    pub open spec fn core_wf(&self) -> bool {
        &&& self.arena.wf()
        &&& self.classes@.len() < u32::MAX
        &&& self.intern@.len() < u32::MAX
        &&& self.arena.objects@.len() < u32::MAX
        &&& (self.hot.object as int) < self.intern@.len()
        &&& (self.hot.clinit as int) < self.intern@.len()
        &&& (self.hot.init as int) < self.intern@.len()
        &&& self.intern@.len() > 0
        &&& intern_unique(self.intern@)
        &&& registry_ok(self.injekt_type_by_subclass@, self.intern@.len())
        &&& forall|c: int| 0 <= c < self.classes@.len() ==> self.class_ok(#[trigger] self.classes@[c])
        &&& forall|c: int| 0 <= c < self.classes@.len() ==> class_order_ok(#[trigger] self.classes@[c], c)
        &&& forall|o: int| 0 <= o < self.arena.objects@.len() ==> ((#[trigger] self.arena.objects@[o]).class as int) < self.classes@.len()
    }

    /// Two VM states have the same tables up to growth: the intern table,
    /// class list and arena only gained entries.
    pub open spec fn grows_to(&self, other: &Vm) -> bool {
        &&& self.intern@.len() <= other.intern@.len()
        &&& forall|j: int| 0 <= j < self.intern@.len() ==> #[trigger] other.intern@[j] == self.intern@[j]
        &&& self.classes@.len() <= other.classes@.len()
        &&& forall|j: int| 0 <= j < self.classes@.len() ==> #[trigger] other.classes@[j] == self.classes@[j]
    }

    /// The parts of the VM that class loading leaves alone.
    pub open spec fn same_env(&self, other: &Vm) -> bool {
        &&& self.arena == other.arena
        &&& self.dexes == other.dexes
        &&& self.shims == other.shims
        &&& self.hot == other.hot
        &&& self.natives == other.natives
        &&& self.host_natives == other.host_natives
        &&& self.runtime_strings == other.runtime_strings
        &&& self.string_objs == other.string_objs
        &&& self.perms == other.perms
        &&& self.frames == other.frames
        &&& self.injekt_type_by_subclass == other.injekt_type_by_subclass
        &&& self.budget == other.budget
        &&& self.depth_limit == other.depth_limit
        &&& self.recursion_depth == other.recursion_depth
    }

    /// As [`Vm::same_env`], but the native table may differ.
    pub open spec fn same_env_but_natives(&self, other: &Vm) -> bool {
        &&& self.arena == other.arena
        &&& self.dexes == other.dexes
        &&& self.shims == other.shims
        &&& self.hot == other.hot
        &&& self.host_natives == other.host_natives
        &&& self.runtime_strings == other.runtime_strings
        &&& self.string_objs == other.string_objs
        &&& self.perms == other.perms
        &&& self.frames == other.frames
        &&& self.injekt_type_by_subclass == other.injekt_type_by_subclass
        &&& self.budget == other.budget
        &&& self.depth_limit == other.depth_limit
        &&& self.recursion_depth == other.recursion_depth
    }

    // ---- interning ----

    /// Interns `s`: returns the id of the first table entry equal to `s`,
    /// appending `s` when it is not present yet.
    pub fn intern(&mut self, s: &str) -> (r: u32)
        requires
            old(self).intern@.len() < u32::MAX,
        ensures
            first_with(final(self).intern@, s@, r as int),
            intern_unique(old(self).intern@) ==> intern_unique(final(self).intern@),
            final(self).intern@.len() <= old(self).intern@.len() + 1,
            final(self).intern@.len() >= old(self).intern@.len(),
            forall|j: int| 0 <= j < old(self).intern@.len() ==> final(self).intern@[j] == old(self).intern@[j],
            (exists|j: int| 0 <= j < old(self).intern@.len() && old(self).intern@[j]@ == s@) ==> final(self).intern@ == old(self).intern@,
            final(self).classes == old(self).classes,
            old(self).same_env(final(self)),
            final(self).class_by_type == old(self).class_by_type,
            final(self).array_classes == old(self).array_classes,
            final(self).monitors == old(self).monitors,
            *final(self) == (Vm { intern: final(self).intern, ..*old(self) }),
    {
        let mut i: usize = 0;
        while i < self.intern.len()
            invariant
                i <= self.intern@.len(),
                self.intern@.len() < u32::MAX,
                forall|j: int| 0 <= j < i ==> self.intern@[j]@ != s@,
            decreases self.intern@.len() - i,
        {
            if str_eq(self.intern[i].as_str(), s) {
                return i as u32;
            }
            i += 1;
        }
        let id = self.intern.len() as u32;
        self.intern.push(to_owned_string(s));
        id
    }

    /// The string with id `id`.
    pub fn str_of(&self, id: u32) -> (r: &str)
        requires
            (id as int) < self.intern@.len(),
        ensures
            r@ == self.intern@[id as int]@,
    {
        self.intern[id as usize].as_str()
    }

    /// Dotted class name for a class id, e.g. `a.b.Main`.
    pub fn class_desc_str(&self, class: u32) -> (r: String)
        requires
            self.wf(),
            (class as int) < self.classes@.len(),
        ensures
            r@ == crate::value::dotted_spec(self.intern@[self.classes@[class as int].descriptor as int]@),
    {
        let c = &self.classes[class as usize];
        assert(self.class_ok(self.classes@[class as int]));
        dotted_name(self.str_of(c.descriptor))
    }

    /// `Class.methodName(args)ret` for a class id + method slot.
    pub fn method_desc_str(&self, class: u32, slot: u32) -> (r: String)
        requires
            self.wf(),
            (class as int) < self.classes@.len(),
            (slot as int) < self.classes@[class as int].methods@.len(),
        ensures
            r@ == crate::value::dotted_spec(self.intern@[self.classes@[class as int].descriptor as int]@)
                + seq!['.'] + self.intern@[self.classes@[class as int].methods@[slot as int].name as int]@
                + self.intern@[self.classes@[class as int].methods@[slot as int].sig as int]@,
    {
        let cls = &self.classes[class as usize];
        assert(self.class_ok(self.classes@[class as int]));
        let m = &cls.methods[slot as usize];
        assert(m.name < self.intern@.len());
        let mut s = dotted_name(self.str_of(cls.descriptor));
        push_char(&mut s, '.');
        s.append(self.str_of(m.name));
        s.append(self.str_of(m.sig));
        s
    }
}


/// Room left in the VM's tables (checked before operations that grow them).
pub open spec fn room_spec(vm: &Vm) -> bool {
    &&& vm.intern@.len() < 0x7fff_ffff
    &&& vm.classes@.len() < 0x7fff_ffff
    &&& vm.arena.objects@.len() < 0x7fff_ffff
}

/// Depth of superclass/interface loading followed before giving up.
pub const LOAD_DEPTH: u32 = 64;

impl Vm {
    /// The tables have room to grow.
    pub fn has_room(&self) -> (r: bool)
        ensures
            r == room_spec(self),
    {
        self.intern.len() < 0x7fff_ffff && self.classes.len() < 0x7fff_ffff
            && self.arena.objects.len() < 0x7fff_ffff
    }

    /// Id of the first loaded class whose descriptor has id `desc_id`.
    pub fn find_class(&self, desc_id: u32) -> (r: Option<u32>)
        requires
            self.classes@.len() < u32::MAX,
        ensures
            r matches Some(c) ==> (c as int) < self.classes@.len() && self.classes@[c as int].descriptor == desc_id
                && forall|j: int| 0 <= j < c ==> self.classes@[j].descriptor != desc_id,
            r is None ==> forall|j: int| 0 <= j < self.classes@.len() ==> self.classes@[j].descriptor != desc_id,
    {
        let mut i: usize = 0;
        while i < self.classes.len()
            invariant
                i <= self.classes@.len(),
                self.classes@.len() < u32::MAX,
                forall|j: int| 0 <= j < i ==> self.classes@[j].descriptor != desc_id,
            decreases self.classes@.len() - i,
        {
            if self.classes[i].descriptor == desc_id {
                return Some(i as u32);
            }
            i += 1;
        }
        None
    }

    /// Whether a native entry (built-in or host-registered) names class `desc`.
    fn natives_name_class(&self, desc: &str) -> (r: bool)
        ensures
            r == ((exists|i: int| 0 <= i < self.host_natives@.len() && #[trigger] self.host_natives@[i].class@ == desc@)
                || (exists|j: int| 0 <= j < builtin_table().len() && #[trigger] builtin_table()[j].0 == desc@)),
    {
        let host = &self.host_natives;
        let mut i: usize = 0;
        while i < host.len()
            invariant
                host == &self.host_natives,
                i <= host@.len(),
                forall|k: int| 0 <= k < i ==> host@[k].class@ != desc@,
            decreases host@.len() - i,
        {
            if str_eq(host[i].class, desc) {
                return true;
            }
            i += 1;
        }
        let builtin = crate::natives::builtin_entries();
        let mut j: usize = 0;
        while j < builtin.len()
            invariant
                j <= builtin@.len(),
                entries_view(builtin@) == builtin_table(),
                forall|k: int| 0 <= k < self.host_natives@.len() ==> self.host_natives@[k].class@ != desc@,
                forall|k: int| 0 <= k < j ==> builtin_table()[k].0 != desc@,
            decreases builtin@.len() - j,
        {
            if str_eq(builtin[j].class, desc) {
                proof {
                    assert(builtin_table().len() == builtin@.len());
                    assert(builtin_table()[j as int] == entry_view(builtin@[j as int]));
                    assert(builtin_table()[j as int].0 == desc@);
                }
                return true;
            }
            proof {
                assert(builtin_table()[j as int] == entry_view(builtin@[j as int]));
            }
            j += 1;
        }
        proof {
            assert(builtin_table().len() == builtin@.len());
        }
        false
    }

    /// `desc` is provided by the host: a shim class or a class with natives.
    pub fn shim_or_native(&self, desc: &str) -> (r: bool)
        ensures
            (exists|i: int| 0 <= i < self.shims@.len() && self.shims@[i].desc@ == desc@) ==> r,
            r == host_provided(self, desc@),
    {
        if find_shim(&self.shims, desc).is_some() {
            return true;
        }
        self.natives_name_class(desc)
    }
}


/// Class `desc` is provided by the host: a shim class, or a class that a
/// host-registered or built-in native belongs to.
pub open spec fn host_provided(vm: &Vm, desc: Seq<char>) -> bool {
    ||| exists|i: int| 0 <= i < vm.shims@.len() && vm.shims@[i].desc@ == desc
    ||| exists|i: int| 0 <= i < vm.host_natives@.len() && #[trigger] vm.host_natives@[i].class@ == desc
    ||| exists|j: int| 0 <= j < builtin_table().len() && #[trigger] builtin_table()[j].0 == desc
}

/// Nothing can provide class `desc`: it is no array, no dex defines it and
/// the host does not provide it.
pub open spec fn unprovided(vm: &Vm, desc: Seq<char>) -> bool {
    &&& !(desc.len() > 0 && desc[0] == '[')
    &&& vm.dexes@.len() <= u32::MAX
    &&& forall|e: int| 0 <= e < vm.dexes@.len() ==> !crate::loader::dex_defines(#[trigger] vm.dexes@[e], desc)
    &&& !host_provided(vm, desc)
}

/// Growing the tables keeps every old class record well formed.
pub proof fn lemma_wf_grow(old_vm: &Vm, new_vm: &Vm)
    requires
        old_vm.core_wf(),
        old_vm.grows_to(new_vm),
        new_vm.arena == old_vm.arena,
        new_vm.hot == old_vm.hot,
        new_vm.injekt_type_by_subclass == old_vm.injekt_type_by_subclass,
        intern_unique(new_vm.intern@),
        new_vm.intern@.len() < u32::MAX,
        new_vm.classes@.len() < u32::MAX,
        forall|c: int| old_vm.classes@.len() <= c < new_vm.classes@.len() ==> new_vm.class_ok(#[trigger] new_vm.classes@[c]),
        forall|c: int| old_vm.classes@.len() <= c < new_vm.classes@.len() ==> class_order_ok(#[trigger] new_vm.classes@[c], c),
    ensures
        new_vm.core_wf(),
        old_vm.wf() ==> new_vm.wf(),
{
    assert forall|c: int| 0 <= c < new_vm.classes@.len() implies new_vm.class_ok(#[trigger] new_vm.classes@[c]) by {
        if c < old_vm.classes@.len() {
            assert(old_vm.class_ok(old_vm.classes@[c]));
            assert(new_vm.classes@[c] == old_vm.classes@[c]);
            let cl = new_vm.classes@[c];
            assert forall|k: int| 0 <= k < cl.methods@.len() implies (#[trigger] cl.methods@[k]).name < new_vm.intern@.len()
                && cl.methods@[k].sig < new_vm.intern@.len() by {
                assert(old_vm.intern@.len() <= new_vm.intern@.len());
            }
            assert forall|k: int| 0 <= k < cl.instance_fields@.len() implies (#[trigger] cl.instance_fields@[k]).0 < new_vm.intern@.len()
                && cl.instance_fields@[k].1 < new_vm.intern@.len() by {
            }
            assert forall|i: int| 0 <= i < cl.interfaces@.len() implies (#[trigger] cl.interfaces@[i] as int) < new_vm.classes@.len() by {
            }
            assert forall|k: int| 0 <= k < cl.static_fields@.len() implies (#[trigger] cl.static_fields@[k]).1.0 < new_vm.classes@.len() by {
            }
        }
    }
    assert forall|o: int| 0 <= o < new_vm.arena.objects@.len() implies ((#[trigger] new_vm.arena.objects@[o]).class as int) < new_vm.classes@.len() by {
        assert(old_vm.arena.objects@[o] == new_vm.arena.objects@[o]);
    }
}

/// Two class records agree on everything but the state that running code
/// changes: static values, initialization state and the cached `Class`
/// object.
pub open spec fn same_shape(a: Class, b: Class) -> bool {
    &&& a.id == b.id
    &&& a.descriptor == b.descriptor
    &&& a.superclass == b.superclass
    &&& a.interfaces == b.interfaces
    &&& a.access_flags == b.access_flags
    &&& a.is_interface == b.is_interface
    &&& a.is_abstract == b.is_abstract
    &&& a.array_elem == b.array_elem
    &&& a.instance_fields == b.instance_fields
    &&& a.field_offsets == b.field_offsets
    &&& a.static_fields == b.static_fields
    &&& a.statics@.len() == b.statics@.len()
    &&& a.statics_lazy@.len() == b.statics_lazy@.len()
    &&& a.methods == b.methods
    &&& a.dispatch == b.dispatch
}

/// The VM after running code: still well formed, the tables grew, class
/// records kept their shape, and the environment is the same.
pub open spec fn evolves(old_vm: &Vm, new_vm: &Vm) -> bool {
    &&& new_vm.wf()
    &&& old_vm.intern@.len() <= new_vm.intern@.len()
    &&& (forall|j: int| 0 <= j < old_vm.intern@.len() ==> #[trigger] new_vm.intern@[j] == old_vm.intern@[j])
    &&& old_vm.classes@.len() <= new_vm.classes@.len()
    &&& (forall|j: int| 0 <= j < old_vm.classes@.len() ==> same_shape(old_vm.classes@[j], #[trigger] new_vm.classes@[j]))
    &&& old_vm.arena.objects@.len() <= new_vm.arena.objects@.len()
    &&& new_vm.dexes == old_vm.dexes
    &&& new_vm.hot == old_vm.hot
    &&& new_vm.natives == old_vm.natives
    &&& new_vm.host_natives == old_vm.host_natives
    &&& new_vm.perms == old_vm.perms
}

/// Running code twice is running code.
pub proof fn lemma_evolves_trans(a: &Vm, b: &Vm, c: &Vm)
    requires
        evolves(a, b),
        evolves(b, c),
    ensures
        evolves(a, c),
{
    assert forall|j: int| 0 <= j < a.classes@.len() implies same_shape(a.classes@[j], #[trigger] c.classes@[j]) by {
        assert(same_shape(a.classes@[j], b.classes@[j]));
        assert(same_shape(b.classes@[j], c.classes@[j]));
    }
    assert forall|j: int| 0 <= j < a.intern@.len() implies #[trigger] c.intern@[j] == a.intern@[j] by {
        assert(b.intern@[j] == a.intern@[j]);
    }
}

/// Allocation and class loading are running code.
pub proof fn lemma_grows_evolves(a: &Vm, b: &Vm)
    requires
        b.wf(),
        a.grows_to(b),
        a.arena.objects@.len() <= b.arena.objects@.len(),
        b.dexes == a.dexes,
        b.hot == a.hot,
        b.natives == a.natives,
        b.host_natives == a.host_natives,
        b.perms == a.perms,
    ensures
        evolves(a, b),
{
    assert forall|j: int| 0 <= j < a.classes@.len() implies same_shape(a.classes@[j], #[trigger] b.classes@[j]) by {
        assert(b.classes@[j] == a.classes@[j]);
    }
}

/// Nothing changed.
pub proof fn lemma_evolves_refl(a: &Vm)
    requires
        a.wf(),
    ensures
        evolves(a, a),
{
    assert forall|j: int| 0 <= j < a.classes@.len() implies same_shape(a.classes@[j], #[trigger] a.classes@[j]) by {
    }
}

/// Replacing a class record by one of the same shape keeps the VM well
/// formed.
pub proof fn lemma_reshape_class(a: &Vm, b: &Vm, id: int, c: Class)
    requires
        a.wf(),
        0 <= id < a.classes@.len(),
        same_shape(a.classes@[id], c),
        b.classes@ == a.classes@.update(id, c),
        b.intern == a.intern,
        b.arena == a.arena,
        b.hot == a.hot,
        b.injekt_type_by_subclass == a.injekt_type_by_subclass,
    ensures
        b.wf(),
{
    assert(a.class_ok(a.classes@[id]));
    assert(class_order_ok(a.classes@[id], id));
    assert forall|k: int| 0 <= k < b.classes@.len() implies b.class_ok(#[trigger] b.classes@[k]) by {
        assert(a.class_ok(a.classes@[k]));
    }
    assert forall|k: int| 0 <= k < b.classes@.len() implies class_order_ok(#[trigger] b.classes@[k], k) by {
        assert(class_order_ok(a.classes@[k], k));
    }
    assert forall|o: int| 0 <= o < b.arena.objects@.len() implies ((#[trigger] b.arena.objects@[o]).class as int) < b.classes@.len() by {
        assert(a.arena.objects@[o] == b.arena.objects@[o]);
    }
}

/// Loading state carried through a class load.
pub open spec fn load_post(old_vm: &Vm, new_vm: &Vm) -> bool {
    &&& new_vm.core_wf()
    &&& (old_vm.wf() ==> new_vm.wf())
    &&& old_vm.grows_to(new_vm)
    &&& old_vm.same_env(new_vm)
}

/// `c` is the first loaded class with descriptor id `d`.
pub open spec fn is_first_class(vm: &Vm, d: u32, c: u32) -> bool {
    &&& (c as int) < vm.classes@.len()
    &&& vm.classes@[c as int].descriptor == d
    &&& forall|j: int| 0 <= j < c ==> vm.classes@[j].descriptor != d
}

/// Some loaded class has descriptor `desc`.
pub open spec fn loaded_desc(vm: &Vm, desc: Seq<char>) -> bool {
    exists|c: int| 0 <= c < vm.classes@.len() && #[trigger] vm.intern@[vm.classes@[c].descriptor as int]@ == desc
}

/// A loaded descriptor stays loaded while the class list stays and the
/// intern table only grows.
pub proof fn lemma_loaded_kept(a: &Vm, b: &Vm, desc: Seq<char>)
    requires
        a.core_wf(),
        loaded_desc(a, desc),
        b.classes == a.classes,
        a.intern@.len() <= b.intern@.len(),
        forall|j: int| 0 <= j < a.intern@.len() ==> #[trigger] b.intern@[j] == a.intern@[j],
    ensures
        loaded_desc(b, desc),
{
    let c = choose|c: int| 0 <= c < a.classes@.len() && #[trigger] a.intern@[a.classes@[c].descriptor as int]@ == desc;
    assert(a.class_ok(a.classes@[c]));
    assert(b.intern@[b.classes@[c].descriptor as int]@ == desc);
}

impl Vm {
    /// Loads (or finds) the class with descriptor id `desc_id`, following at
    /// most `fuel` levels of superclasses and interfaces.
    pub fn ensure_class_fuel(&mut self, desc_id: u32, fuel: u32) -> (r: Result<u32, JvmError>)
        requires
            old(self).core_wf(),
            (desc_id as int) < old(self).intern@.len(),
        ensures
            load_post(old(self), final(self)),
            r matches Ok(c) ==> (c as int) < final(self).classes@.len() && final(self).classes@[c as int].descriptor == desc_id,
            (exists|j: int| 0 <= j < old(self).classes@.len() && old(self).classes@[j].descriptor == desc_id) ==> r is Ok
                && *final(self) == *old(self),
            forall|c0: u32| #[trigger] is_first_class(old(self), desc_id, c0) ==> r == Ok::<u32, JvmError>(c0),
            fuel > 0 && !(exists|j: int| 0 <= j < old(self).classes@.len() && old(self).classes@[j].descriptor == desc_id)
                && unprovided(old(self), old(self).intern@[desc_id as int]@)
                ==> (r matches Err(JvmError::Resolution(m)) && m@ == "class not found: "@ + old(self).intern@[desc_id as int]@),
        decreases fuel, 1u32,
    {
        if let Some(c) = self.find_class(desc_id) {
            return Ok(c);
        }
        if fuel == 0 {
            return Err(JvmError::Resolution(String::from_str("class hierarchy too deep")));
        }
        let desc = to_owned_string(self.str_of(desc_id));
        if crate::value::first_char(desc.as_str()) == Some('[') {
            // link the array class to the element type of the first dex
            // that names it, so nested-array assignability terminates
            let n = desc.unicode_len();
            let inner = desc.as_str().substring_char(1, n);
            proof { assert(desc@ =~= seq!['['] + inner@); }
            let mut di: usize = 0;
            while di < self.dexes.len()
                invariant
                    self.core_wf(),
                    *self == *old(self),
                    fuel > 0,
                    (desc_id as int) < self.intern@.len(),
                    desc@ == self.intern@[desc_id as int]@,
                    desc@ == seq!['['] + inner@,
                    forall|j: int| 0 <= j < self.classes@.len() ==> self.classes@[j].descriptor != desc_id,
                decreases self.dexes@.len() - di,
            {
                if di >= u32::MAX as usize {
                    break;
                }
                match self.dexes[di].type_id_of(inner) {
                    Some(t) => {
                        let r = self.array_class_fuel(di as u32, t, fuel);
                        proof {
                            if let Ok(c) = r {
                                crate::loader::lemma_unique_id(self, self.classes@[c as int].descriptor, desc_id);
                            }
                        }
                        return r;
                    },
                    None => {},
                }
                di += 1;
            }
            return self.synth_array_class(desc_id, fuel);
        }
        match self.class_location(desc.as_str()) {
            Some((dx, k)) => {
                proof {
                    assert(crate::loader::dex_defines(self.dexes@[dx as int], desc@));
                }
                let r = self.load_dex_class(dx, k, fuel);
                proof {
                    if let Ok(c) = r {
                        crate::loader::lemma_unique_id(self, self.classes@[c as int].descriptor, desc_id);
                    }
                }
                return r;
            },
            None => {},
        }
        if self.shim_or_native(desc.as_str()) {
            return self.load_shim_class(desc_id, fuel);
        }
        Err(JvmError::Resolution(crate::value::concat("class not found: ", desc.as_str())))
    }

    /// Interns `desc` and loads the class it names.
    pub fn ensure_class_by_desc(&mut self, desc: &str) -> (r: Result<u32, JvmError>)
        requires
            old(self).core_wf(),
        ensures
            load_post(old(self), final(self)),
            r matches Ok(c) ==> (c as int) < final(self).classes@.len()
                && final(self).intern@[final(self).classes@[c as int].descriptor as int]@ == desc@,
            room_spec(old(self)) && loaded_desc(old(self), desc@) ==> r is Ok && final(self).arena == old(self).arena
                && final(self).classes == old(self).classes && final(self).intern@ == old(self).intern@,
            room_spec(old(self)) && !loaded_desc(old(self), desc@) && unprovided(old(self), desc@)
                ==> (r matches Err(JvmError::Resolution(m)) && m@ == "class not found: "@ + desc@),
    {
        if !self.has_room() {
            return Err(JvmError::Fatal(String::from_str("VM tables exhausted")));
        }
        let ghost old_vm = *self;
        let id = self.intern(desc);
        proof { lemma_wf_grow(&old_vm, self); }
        proof {
            if !loaded_desc(old(self), desc@) {
                assert forall|j: int| 0 <= j < self.classes@.len() implies self.classes@[j].descriptor != id by {
                    assert(old(self).class_ok(old(self).classes@[j]));
                    if self.classes@[j].descriptor == id {
                        assert(old(self).intern@[old(self).classes@[j].descriptor as int]@ == desc@);
                    }
                }
            }
            if loaded_desc(old(self), desc@) {
                let c = choose|c: int| 0 <= c < old(self).classes@.len() && #[trigger] old(self).intern@[old(self).classes@[c].descriptor as int]@ == desc@;
                assert(old(self).class_ok(old(self).classes@[c]));
                let d = old(self).classes@[c].descriptor as int;
                assert(self.intern@ == old(self).intern@);
                if d != id as int {
                    assert(self.intern@[d]@ != self.intern@[id as int]@);
                }
                assert(self.classes@[c].descriptor == id);
            }
        }
        self.ensure_class_fuel(id, LOAD_DEPTH)
    }

    /// Loads the class with descriptor id `desc_id`.
    pub fn ensure_class_by_desc_id(&mut self, desc_id: u32) -> (r: Result<u32, JvmError>)
        requires
            old(self).core_wf(),
            (desc_id as int) < old(self).intern@.len(),
        ensures
            load_post(old(self), final(self)),
            r matches Ok(c) ==> (c as int) < final(self).classes@.len() && final(self).classes@[c as int].descriptor == desc_id,
            (exists|j: int| 0 <= j < old(self).classes@.len() && old(self).classes@[j].descriptor == desc_id) ==> r is Ok
                && *final(self) == *old(self),
            forall|c0: u32| #[trigger] is_first_class(old(self), desc_id, c0) ==> r == Ok::<u32, JvmError>(c0),
            !(exists|j: int| 0 <= j < old(self).classes@.len() && old(self).classes@[j].descriptor == desc_id)
                && unprovided(old(self), old(self).intern@[desc_id as int]@)
                ==> (r matches Err(JvmError::Resolution(m)) && m@ == "class not found: "@ + old(self).intern@[desc_id as int]@),
    {
        self.ensure_class_fuel(desc_id, LOAD_DEPTH)
    }

    /// A plain array class for an array descriptor no dex defines: a subclass
    /// of `Object` implementing `Cloneable` and `Serializable`.
    pub(crate) fn synth_array_class(&mut self, desc_id: u32, fuel: u32) -> (r: Result<u32, JvmError>)
        requires
            old(self).core_wf(),
            (desc_id as int) < old(self).intern@.len(),
            fuel > 0,
        ensures
            load_post(old(self), final(self)),
            r matches Ok(c) ==> (c as int) < final(self).classes@.len() && final(self).classes@[c as int].descriptor == desc_id,
            room_spec(old(self))
                && (exists|j: int| 0 <= j < old(self).classes@.len() && old(self).classes@[j].descriptor == old(self).hot.object)
                && loaded_desc(old(self), "Ljava/lang/Cloneable;"@) && loaded_desc(old(self), "Ljava/io/Serializable;"@) ==> r is Ok,
        decreases fuel, 0u32,
    {
        let object = self.ensure_class_fuel(self.hot.object, fuel - 1)?;
        let cloneable = self.ensure_desc_fuel("Ljava/lang/Cloneable;", fuel - 1)?;
        let serializable = self.ensure_desc_fuel("Ljava/io/Serializable;", fuel - 1)?;
        self.push_class_with(desc_id, Some(object), vec![cloneable, serializable], 0, None)
    }

    /// Interns `desc` and loads it with the given fuel.
    pub(crate) fn ensure_desc_fuel(&mut self, desc: &str, fuel: u32) -> (r: Result<u32, JvmError>)
        requires
            old(self).core_wf(),
        ensures
            load_post(old(self), final(self)),
            r matches Ok(c) ==> (c as int) < final(self).classes@.len()
                && final(self).intern@[final(self).classes@[c as int].descriptor as int]@ == desc@,
            room_spec(old(self)) && loaded_desc(old(self), desc@) ==> r is Ok && final(self).arena == old(self).arena
                && final(self).classes == old(self).classes && final(self).intern@ == old(self).intern@,
        decreases fuel, 2u32,
    {
        if !self.has_room() {
            return Err(JvmError::Fatal(String::from_str("VM tables exhausted")));
        }
        let ghost old_vm = *self;
        let id = self.intern(desc);
        proof { lemma_wf_grow(&old_vm, self); }
        proof {
            if loaded_desc(old(self), desc@) {
                let c = choose|c: int| 0 <= c < old(self).classes@.len() && #[trigger] old(self).intern@[old(self).classes@[c].descriptor as int]@ == desc@;
                assert(old(self).class_ok(old(self).classes@[c]));
                let d = old(self).classes@[c].descriptor as int;
                assert(self.intern@ == old(self).intern@);
                if d != id as int {
                    assert(self.intern@[d]@ != self.intern@[id as int]@);
                }
                assert(self.classes@[c].descriptor == id);
            }
        }
        self.ensure_class_fuel(id, fuel)
    }

    /// Appends a member-less class record with the given hierarchy.
    pub(crate) fn push_class_with(&mut self, desc_id: u32, superclass: Option<u32>, interfaces: Vec<u32>, flags: u32,
        array_elem: Option<(u32, u32)>) -> (r: Result<u32, JvmError>)
        requires
            old(self).core_wf(),
            (desc_id as int) < old(self).intern@.len(),
            superclass matches Some(s) ==> (s as int) < old(self).classes@.len(),
            forall|i: int| 0 <= i < interfaces@.len() ==> (interfaces@[i] as int) < old(self).classes@.len(),
        ensures
            load_post(old(self), final(self)),
            r matches Ok(c) ==> (c as int) == old(self).classes@.len() && final(self).classes@ == old(self).classes@.push(
                final(self).classes@[c as int]) && final(self).classes@[c as int].descriptor == desc_id
                && final(self).classes@[c as int].superclass == superclass
                && final(self).classes@[c as int].interfaces@ == interfaces@
                && final(self).intern@ == old(self).intern@,
            r is Ok <==> room_spec(old(self)),
    {
        if !self.has_room() {
            return Err(JvmError::Fatal(String::from_str("VM tables exhausted")));
        }
        let id = self.classes.len() as u32;
        let mut c = Class::empty(id, desc_id);
        c.superclass = superclass;
        c.interfaces = interfaces;
        c.access_flags = flags;
        c.is_interface = flags & ACC_INTERFACE != 0;
        c.is_abstract = flags & ACC_ABSTRACT != 0;
        c.array_elem = array_elem;
        let ghost old_vm = *self;
        self.classes.push(c);
        proof {
            assert(self.classes@[id as int] == c);
            assert(self.class_ok(c));
            lemma_wf_grow(&old_vm, self);
        }
        Ok(id)
    }
}


/// Only the intern table grew.
pub open spec fn intern_post(old_vm: &Vm, new_vm: &Vm) -> bool {
    &&& load_post(old_vm, new_vm)
    &&& new_vm.classes == old_vm.classes
}

/// The entries among `v` that belong to class `desc`, in order.
pub open spec fn of_class(v: Seq<(Seq<char>, Seq<char>, Seq<char>, bool, NativeFn)>, desc: Seq<char>)
    -> Seq<(Seq<char>, Seq<char>, Seq<char>, bool, NativeFn)> {
    v.filter(|t: (Seq<char>, Seq<char>, Seq<char>, bool, NativeFn)| t.0 == desc)
}

proof fn lemma_of_class_step(v: Seq<(Seq<char>, Seq<char>, Seq<char>, bool, NativeFn)>, desc: Seq<char>, i: int)
    requires
        0 <= i < v.len(),
    ensures
        of_class(v.take(i + 1), desc) == if v[i].0 == desc { of_class(v.take(i), desc).push(v[i]) } else { of_class(v.take(i), desc) },
{
    assert(v.take(i + 1).drop_last() =~= v.take(i));
    reveal_with_fuel(Seq::filter, 1);
}

/// Appends to `out` the entries of `src` that belong to class `desc`.
fn push_of_class(out: &mut Vec<NativeEntry>, src: &Vec<NativeEntry>, desc: &str)
    ensures
        entries_view(final(out)@) == entries_view(old(out)@) + of_class(entries_view(src@), desc@),
{
    let ghost sv = entries_view(src@);
    let ghost o0 = entries_view(out@);
    let mut i: usize = 0;
    proof {
        assert(sv.take(0) =~= Seq::<(Seq<char>, Seq<char>, Seq<char>, bool, NativeFn)>::empty());
        assert(of_class(sv.take(0), desc@) =~= Seq::<(Seq<char>, Seq<char>, Seq<char>, bool, NativeFn)>::empty());
        assert(entries_view(out@) =~= o0 + of_class(sv.take(0), desc@));
    }
    while i < src.len()
        invariant
            i <= src@.len(),
            sv == entries_view(src@),
            entries_view(out@) == o0 + of_class(sv.take(i as int), desc@),
        decreases src@.len() - i,
    {
        proof {
            lemma_of_class_step(sv, desc@, i as int);
        }
        let ghost before = out@;
        if str_eq(src[i].class, desc) {
            out.push(src[i]);
            proof {
                assert(entries_view(out@) =~= entries_view(before).push(entry_view(src@[i as int])));
                assert(entries_view(out@) =~= o0 + of_class(sv.take(i + 1), desc@));
            }
        }
        i += 1;
    }
    proof {
        assert(sv.take(src@.len() as int) =~= sv);
    }
}

/// Candidate native entries for class `desc`: built-ins, then host-registered.
pub fn native_candidates(host: &Vec<NativeEntry>, desc: &str) -> (r: Vec<NativeEntry>)
    ensures
        forall|k: int| 0 <= k < r@.len() ==> (#[trigger] r@[k]).class@ == desc@,
        entries_view(r@) == of_class(builtin_table(), desc@) + of_class(entries_view(host@), desc@),
{
    let builtin = crate::natives::builtin_entries();
    let mut out: Vec<NativeEntry> = Vec::new();
    proof {
        assert(entries_view(out@) =~= Seq::<(Seq<char>, Seq<char>, Seq<char>, bool, NativeFn)>::empty());
    }
    push_of_class(&mut out, &builtin, desc);
    push_of_class(&mut out, host, desc);
    proof {
        assert(entries_view(out@) =~= of_class(builtin_table(), desc@) + of_class(entries_view(host@), desc@));
        assert forall|k: int| 0 <= k < out@.len() implies (#[trigger] out@[k]).class@ == desc@ by {
            let t = entries_view(out@)[k];
            let a = of_class(builtin_table(), desc@);
            let b = of_class(entries_view(host@), desc@);
            if k < a.len() {
                builtin_table().lemma_filter_pred(|t: (Seq<char>, Seq<char>, Seq<char>, bool, NativeFn)| t.0 == desc@, k);
            } else {
                entries_view(host@).lemma_filter_pred(|t: (Seq<char>, Seq<char>, Seq<char>, bool, NativeFn)| t.0 == desc@, k - a.len());
            }
        }
    }
    out
}

impl Vm {
    /// Interns `s`, failing when the tables are full.
    pub fn intern_checked(&mut self, s: &str) -> (r: Result<u32, JvmError>)
        requires
            old(self).core_wf(),
        ensures
            intern_post(old(self), final(self)),
            r matches Ok(id) ==> first_with(final(self).intern@, s@, id as int),
            r is Ok <==> room_spec(old(self)),
            final(self).intern@.len() <= old(self).intern@.len() + 1,
            *final(self) == (Vm { intern: final(self).intern, ..*old(self) }),
            (exists|j: int| 0 <= j < old(self).intern@.len() && old(self).intern@[j]@ == s@) ==> final(self).intern@ == old(self).intern@,
    {
        if !self.has_room() {
            return Err(JvmError::Fatal(String::from_str("VM tables exhausted")));
        }
        let ghost old_vm = *self;
        let id = self.intern(s);
        proof { lemma_wf_grow(&old_vm, self); }
        Ok(id)
    }

    /// The method record a native entry contributes to class `id` at `slot`.
    #[verifier::loop_isolation(false)]
    pub fn native_method(&mut self, id: u32, desc_id: u32, slot: u32, ne: NativeEntry) -> (r: Result<Method, JvmError>)
        requires
            old(self).core_wf(),
            (desc_id as int) < old(self).intern@.len(),
        ensures
            intern_post(old(self), final(self)),
            r matches Ok(m) ==> m.name < final(self).intern@.len() && m.sig < final(self).intern@.len()
                && m.slot == slot && m.class == id && m.native_key == Some((desc_id, m.name, m.sig))
                && m.static_method == !ne.instance
                && final(self).intern@[m.name as int]@ == ne.name@
                && final(self).intern@[m.sig as int]@ == ne.sig@,
            room_spec(old(self)) && old(self).intern@.len() + 3
                + (if crate::sig::sig_parseable(ne.sig@) { crate::sig::sig_args(ne.sig@).len() } else { 0 }) < 0x7fff_ffff ==> r is Ok,
    {
        let ghost vm0 = *self;
        let name = self.intern_checked(ne.name)?;
        let sig = self.intern_checked(ne.sig)?;
        let mut args: Vec<u32> = Vec::new();
        let ret: u32;
        if crate::sig::sig_ok(ne.sig) {
            let (arg_descs, ret_desc) = crate::sig::parse_sig(ne.sig);
            ret = self.intern_checked(ret_desc)?;
            let mut k: usize = 0;
            while k < arg_descs.len()
                invariant
                    intern_post(&vm0, self),
                    name < self.intern@.len(),
                    sig < self.intern@.len(),
                    self.intern@[name as int]@ == ne.name@,
                    self.intern@[sig as int]@ == ne.sig@,
                    k <= arg_descs@.len(),
                    arg_descs@.len() == crate::sig::sig_args(ne.sig@).len(),
                    crate::sig::sig_parseable(ne.sig@),
                    self.intern@.len() <= vm0.intern@.len() + 3 + k,
                    self.arena == vm0.arena,
                decreases arg_descs@.len() - k,
            {
                let a = self.intern_checked(arg_descs[k])?;
                args.push(a);
                k += 1;
            }
        } else {
            ret = self.intern_checked("V")?;
        }
        let static_method = !ne.instance;
        Ok(Method {
            slot,
            class: id,
            name,
            sig,
            ret,
            args,
            access_flags: if static_method { ACC_PUBLIC | ACC_STATIC } else { ACC_PUBLIC },
            static_method,
            dex_idx: 0,
            native_key: Some((desc_id, name, sig)),
            native_decl: false,
            code: None,
        })
    }

    /// Methods of a shim class: one per native entry of the class, a later
    /// entry with the same name and signature taking over the dispatch.
    #[verifier::loop_isolation(false)]
    fn shim_methods(&mut self, id: u32, desc_id: u32, desc: &str) -> (r: Result<(Vec<Method>, Vec<((u32, u32), u32)>), JvmError>)
        requires
            old(self).core_wf(),
            (desc_id as int) < old(self).intern@.len(),
        ensures
            intern_post(old(self), final(self)),
            r matches Ok((ms, disp)) ==> (forall|k: int| 0 <= k < ms@.len() ==> (#[trigger] ms@[k]).name < final(self).intern@.len()
                && ms@[k].sig < final(self).intern@.len() && ms@[k].class == id && ms@[k].slot == k)
                && (forall|q: (u32, u32)| #[trigger] crate::class::pair_lookup(disp@, q) matches Some(slot) ==> (slot as int) < ms@.len()),
    {
        let ghost vm0 = *self;
        let entries = native_candidates(&self.host_natives, desc);
        let mut methods: Vec<Method> = Vec::new();
        let mut dispatch: Vec<((u32, u32), u32)> = Vec::new();
        let mut i: usize = 0;
        while i < entries.len()
            invariant
                intern_post(&vm0, self),
                (desc_id as int) < self.intern@.len(),
                methods@.len() < 0x7fff_ffff,
                forall|k: int| 0 <= k < methods@.len() ==> (#[trigger] methods@[k]).name < self.intern@.len()
                    && methods@[k].sig < self.intern@.len() && methods@[k].class == id && methods@[k].slot == k,
                forall|q: (u32, u32)| #[trigger] crate::class::pair_lookup(dispatch@, q) matches Some(slot) ==> (slot as int) < methods@.len(),
            decreases entries@.len() - i,
        {
            if methods.len() >= 0x7fff_fffe {
                return Err(JvmError::Fatal(String::from_str("too many methods")));
            }
            let slot = methods.len() as u32;
            let m = self.native_method(id, desc_id, slot, entries[i])?;
            let key = (m.name, m.sig);
            methods.push(m);
            crate::class::pair_put(&mut dispatch, key, slot);
            i += 1;
        }
        Ok((methods, dispatch))
    }

    /// Static fields of a shim class from its definition.
    #[verifier::loop_isolation(false)]
    fn shim_statics(&mut self, id: u32, def: ShimDef) -> (r: Result<(Vec<JValue>, Vec<Option<ShimLazy>>, Vec<((u32, u32), (u32, u32))>), JvmError>)
        requires
            old(self).core_wf(),
        ensures
            intern_post(old(self), final(self)),
            r matches Ok((vals, lazy, fields)) ==> vals@.len() == lazy@.len()
                && (forall|k: int| 0 <= k < fields@.len() ==> (#[trigger] fields@[k]).1.0 == id),
            r matches Ok((vals, lazy, fields)) ==> vals@.len() == def.statics@.len()
                && forall|k: int| 0 <= k < vals@.len() ==> match (#[trigger] def.statics@[k]).value {
                    ShimValue::Const(v) => vals@[k] == v && lazy@[k] is None,
                    ShimValue::Lazy(f) => vals@[k] == JValue::Null && lazy@[k] == Some(f),
                },
            room_spec(old(self)) && old(self).intern@.len() + 2 * def.statics@.len() < 0x7fff_ffff ==> r is Ok,
    {
        let ghost vm0 = *self;
        let mut statics: Vec<JValue> = Vec::new();
        let mut lazy: Vec<Option<ShimLazy>> = Vec::new();
        let mut fields: Vec<((u32, u32), (u32, u32))> = Vec::new();
        let mut i: usize = 0;
        while i < def.statics.len()
            invariant
                intern_post(&vm0, self),
                statics@.len() == lazy@.len(),
                statics@.len() < 0x7fff_ffff,
                forall|k: int| 0 <= k < fields@.len() ==> (#[trigger] fields@[k]).1.0 == id,
                i <= def.statics@.len(),
                statics@.len() == i,
                self.intern@.len() <= vm0.intern@.len() + 2 * i,
                self.arena == vm0.arena,
                forall|k: int| 0 <= k < i ==> match (#[trigger] def.statics@[k]).value {
                    ShimValue::Const(v) => statics@[k] == v && lazy@[k] is None,
                    ShimValue::Lazy(f) => statics@[k] == JValue::Null && lazy@[k] == Some(f),
                },
            decreases def.statics@.len() - i,
        {
            if statics.len() >= 0x7fff_fffe {
                return Err(JvmError::Fatal(String::from_str("too many static fields")));
            }
            let sd = def.statics[i];
            let name = self.intern_checked(sd.name)?;
            let ty = self.intern_checked(sd.ty)?;
            let off = statics.len() as u32;
            match sd.value {
                ShimValue::Const(v) => {
                    statics.push(v);
                    lazy.push(None);
                },
                ShimValue::Lazy(f) => {
                    statics.push(JValue::Null);
                    lazy.push(Some(f));
                },
            }
            let ghost before = fields@;
            crate::class::pair_put(&mut fields, (name, ty), (id, off));
            i += 1;
        }
        Ok((statics, lazy, fields))
    }

    /// Loads a host shim class: its hierarchy from the shim table, its
    /// methods from the native tables and its static fields.
    #[verifier::loop_isolation(false)]
    pub(crate) fn load_shim_class(&mut self, desc_id: u32, fuel: u32) -> (r: Result<u32, JvmError>)
        requires
            old(self).core_wf(),
            (desc_id as int) < old(self).intern@.len(),
            fuel > 0,
        ensures
            load_post(old(self), final(self)),
            r matches Ok(c) ==> (c as int) < final(self).classes@.len() && final(self).classes@[c as int].descriptor == desc_id,
            r matches Ok(c) ==> c >= old(self).classes@.len() && {
                let text = old(self).intern@[desc_id as int]@;
                let k = final(self).classes@[c as int];
                if exists|i: int| 0 <= i < old(self).shims@.len() && old(self).shims@[i].desc@ == text {
                    exists|i: int| 0 <= i < old(self).shims@.len() && #[trigger] old(self).shims@[i].desc@ == text
                        && shim_record(final(self), k, old(self).shims@[i])
                } else {
                    &&& k.access_flags == ACC_PUBLIC && !k.is_interface && !k.is_abstract
                    &&& k.interfaces@.len() == 0 && k.statics@.len() == 0
                    &&& k.superclass matches Some(s) && (s as int) < final(self).classes@.len()
                        && final(self).intern@[final(self).classes@[s as int].descriptor as int]@ == "Ljava/lang/Object;"@
                }
            },
        decreases fuel, 0u32,
    {
        let ghost vm0 = *self;
        let desc = to_owned_string(self.str_of(desc_id));
        let def = match find_shim(&self.shims, desc.as_str()) {
            Some(d) => d,
            None => ShimDef {
                desc: "",
                super_desc: Some("Ljava/lang/Object;"),
                interfaces: &[],
                flags: ACC_PUBLIC,
                statics: &[],
            },
        };
        proof {
            reveal_strlit("Ljava/lang/Object;");
        }
        let superclass = match def.super_desc {
            Some(sd) => Some(self.ensure_desc_fuel(sd, fuel - 1)?),
            None => None,
        };
        let mut interfaces: Vec<u32> = Vec::new();
        let mut i: usize = 0;
        while i < def.interfaces.len()
            invariant
                load_post(&vm0, self),
                (desc_id as int) < self.intern@.len(),
                fuel > 0,
                superclass matches Some(s) ==> (s as int) < self.classes@.len(),
                forall|k: int| 0 <= k < interfaces@.len() ==> (interfaces@[k] as int) < self.classes@.len(),
                interfaces@.len() == i,
                i <= def.interfaces@.len(),
                forall|k: int| 0 <= k < interfaces@.len() ==> #[trigger] self.intern@[self.classes@[interfaces@[k] as int].descriptor as int]@
                    == def.interfaces@[k]@,
                (def.super_desc is None <==> superclass is None),
                def.super_desc matches Some(sd) ==> (superclass matches Some(s)
                    && self.intern@[self.classes@[s as int].descriptor as int]@ == sd@),
            decreases def.interfaces@.len() - i,
        {
            let ghost vi = *self;
            let c = self.ensure_desc_fuel(def.interfaces[i], fuel - 1)?;
            proof {
                assert forall|k: int| 0 <= k < interfaces@.len() implies #[trigger] self.intern@[self.classes@[interfaces@[k] as int].descriptor as int]@
                    == def.interfaces@[k]@ by {
                    assert(self.classes@[interfaces@[k] as int] == vi.classes@[interfaces@[k] as int]);
                }
            }
            interfaces.push(c);
            i += 1;
        }
        if !self.has_room() {
            return Err(JvmError::Fatal(String::from_str("VM tables exhausted")));
        }
        let id = self.classes.len() as u32;
        let (methods, dispatch) = self.shim_methods(id, desc_id, desc.as_str())?;
        let (statics, statics_lazy, static_fields) = self.shim_statics(id, def)?;
        let flags = def.flags;
        let c = Class {
            id,
            descriptor: desc_id,
            superclass,
            interfaces,
            access_flags: flags,
            is_interface: flags & ACC_INTERFACE != 0,
            is_abstract: flags & ACC_ABSTRACT != 0,
            array_elem: None,
            instance_fields: Vec::new(),
            field_offsets: Vec::new(),
            static_fields,
            statics,
            statics_lazy,
            clinit_state: 0,
            class_obj: None,
            methods,
            dispatch,
        };
        let ghost vm1 = *self;
        self.classes.push(c);
        proof {
            assert(1u32 & 0x200u32 == 0u32) by (bit_vector);
            assert(1u32 & 0x400u32 == 0u32) by (bit_vector);
            assert(self.classes@[id as int] == c);
            assert(self.class_ok(c));
            lemma_wf_grow(&vm1, self);
        }
        Ok(id)
    }
}


/// Class `k` is the record loaded for shim definition `def`: its flags, its
/// superclass and interfaces by descriptor, no array element or instance
/// fields, not yet initialized, and one static slot per shim static (a
/// constant in place, a lazy value pending).
pub open spec fn shim_record(vm: &Vm, k: Class, def: ShimDef) -> bool {
    &&& k.access_flags == def.flags
    &&& k.is_interface == (def.flags & ACC_INTERFACE != 0)
    &&& k.is_abstract == (def.flags & ACC_ABSTRACT != 0)
    &&& k.array_elem is None
    &&& k.instance_fields@.len() == 0
    &&& k.clinit_state == 0
    &&& k.class_obj is None
    &&& k.interfaces@.len() == def.interfaces@.len()
    &&& forall|i: int| 0 <= i < k.interfaces@.len() ==> (k.interfaces@[i] as int) < vm.classes@.len()
        && #[trigger] vm.intern@[vm.classes@[k.interfaces@[i] as int].descriptor as int]@ == def.interfaces@[i]@
    &&& (def.super_desc is None <==> k.superclass is None)
    &&& def.super_desc matches Some(sd) ==> (k.superclass matches Some(s) && (s as int) < vm.classes@.len()
        && vm.intern@[vm.classes@[s as int].descriptor as int]@ == sd@)
    &&& k.statics@.len() == def.statics@.len()
    &&& forall|j: int| 0 <= j < k.statics@.len() ==> match (#[trigger] def.statics@[j]).value {
        crate::class::ShimValue::Const(v) => k.statics@[j] == v && k.statics_lazy@[j] is None,
        crate::class::ShimValue::Lazy(f) => k.statics@[j] == JValue::Null && k.statics_lazy@[j] == Some(f),
    }
}

/// First implementation registered under `k`.
pub open spec fn native_lookup(s: Seq<((u32, u32, u32), NativeFn)>, k: (u32, u32, u32)) -> Option<NativeFn>
    decreases s.len(),
{
    if s.len() == 0 {
        None
    } else if s[0].0 == k {
        Some(s[0].1)
    } else {
        native_lookup(s.drop_first(), k)
    }
}

proof fn lemma_native_lookup_skip(s: Seq<((u32, u32, u32), NativeFn)>, k: (u32, u32, u32), i: int)
    requires
        0 <= i < s.len(),
        s[i].0 != k,
    ensures
        native_lookup(s.subrange(i, s.len() as int), k) == native_lookup(s.subrange(i + 1, s.len() as int), k),
{
    assert(s.subrange(i, s.len() as int).drop_first() =~= s.subrange(i + 1, s.len() as int));
}

proof fn lemma_native_lookup_update(s: Seq<((u32, u32, u32), NativeFn)>, i: int, k: (u32, u32, u32), v: NativeFn, q: (u32, u32, u32))
    requires
        0 <= i < s.len(),
        s[i].0 == k,
        forall|j: int| 0 <= j < i ==> s[j].0 != k,
    ensures
        native_lookup(s.update(i, (k, v)), q) == (if q == k { Some(v) } else { native_lookup(s, q) }),
    decreases s.len(),
{
    let u = s.update(i, (k, v));
    if i > 0 {
        assert(u.drop_first() =~= s.drop_first().update(i - 1, (k, v)));
        lemma_native_lookup_update(s.drop_first(), i - 1, k, v, q);
        assert(u[0] == s[0]);
    } else {
        assert(u.drop_first() =~= s.drop_first());
    }
}

proof fn lemma_native_lookup_push(s: Seq<((u32, u32, u32), NativeFn)>, k: (u32, u32, u32), v: NativeFn, q: (u32, u32, u32))
    requires
        forall|j: int| 0 <= j < s.len() ==> s[j].0 != k,
    ensures
        native_lookup(s.push((k, v)), q) == (if q == k { Some(v) } else { native_lookup(s, q) }),
    decreases s.len(),
{
    let p = s.push((k, v));
    if s.len() > 0 {
        assert(p.drop_first() =~= s.drop_first().push((k, v)));
        lemma_native_lookup_push(s.drop_first(), k, v, q);
        assert(p[0] == s[0]);
    } else {
        assert(p.drop_first() =~= s);
    }
}

/// The entry `t` (class, name, signature, implementation) is interned and
/// some native is registered under its key.
pub open spec fn registered_in(vm: &Vm, t: (Seq<char>, Seq<char>, Seq<char>, bool, NativeFn)) -> bool {
    exists|c: u32, n: u32, s: u32| {
        &&& first_with(vm.intern@, t.0, c as int)
        &&& first_with(vm.intern@, t.1, n as int)
        &&& first_with(vm.intern@, t.2, s as int)
        &&& #[trigger] native_lookup(vm.natives@, (c, n, s)) is Some
    }
}

/// A registration stays when the intern table only grows and every key
/// registered before is still registered.
proof fn lemma_registered_kept(a: &Vm, b: &Vm, t: (Seq<char>, Seq<char>, Seq<char>, bool, NativeFn))
    requires
        registered_in(a, t),
        a.intern@.len() <= b.intern@.len(),
        forall|j: int| 0 <= j < a.intern@.len() ==> #[trigger] b.intern@[j] == a.intern@[j],
        forall|q: (u32, u32, u32)| #[trigger] native_lookup(a.natives@, q) is Some ==> native_lookup(b.natives@, q) is Some,
    ensures
        registered_in(b, t),
{
    let (c, n, s) = choose|c: u32, n: u32, s: u32| {
        &&& first_with(a.intern@, t.0, c as int)
        &&& first_with(a.intern@, t.1, n as int)
        &&& first_with(a.intern@, t.2, s as int)
        &&& #[trigger] native_lookup(a.natives@, (c, n, s)) is Some
    };
    assert(first_with(b.intern@, t.0, c as int));
    assert(first_with(b.intern@, t.1, n as int));
    assert(first_with(b.intern@, t.2, s as int));
    assert(native_lookup(b.natives@, (c, n, s)) is Some);
}

impl Vm {
    /// The native registered under `key`.
    pub fn native_of(&self, key: (u32, u32, u32)) -> (r: Option<NativeFn>)
        ensures
            r == native_lookup(self.natives@, key),
    {
        let mut i: usize = 0;
        assert(self.natives@.subrange(0, self.natives@.len() as int) =~= self.natives@);
        while i < self.natives.len()
            invariant
                i <= self.natives@.len(),
                native_lookup(self.natives@, key) == native_lookup(self.natives@.subrange(i as int, self.natives@.len() as int), key),
            decreases self.natives@.len() - i,
        {
            let k = self.natives[i].0;
            if k.0 == key.0 && k.1 == key.1 && k.2 == key.2 {
                return Some(self.natives[i].1);
            }
            proof { lemma_native_lookup_skip(self.natives@, key, i as int); }
            i += 1;
        }
        None
    }

    /// Registers `f` under `key`, replacing an earlier registration.
    pub fn set_native(&mut self, key: (u32, u32, u32), f: NativeFn)
        ensures
            forall|q: (u32, u32, u32)| native_lookup(final(self).natives@, q) == (if q == key { Some(f) } else { native_lookup(old(self).natives@, q) }),
            final(self).intern == old(self).intern,
            final(self).classes == old(self).classes,
            final(self).arena == old(self).arena,
            final(self).dexes == old(self).dexes,
            final(self).shims == old(self).shims,
            final(self).hot == old(self).hot,
            final(self).host_natives == old(self).host_natives,
            final(self).runtime_strings == old(self).runtime_strings,
            final(self).string_objs == old(self).string_objs,
            final(self).perms == old(self).perms,
            final(self).injekt_type_by_subclass == old(self).injekt_type_by_subclass,
            final(self).frames == old(self).frames,
            *final(self) == (Vm { natives: final(self).natives, ..*old(self) }),
    {
        let mut i: usize = 0;
        while i < self.natives.len()
            invariant
                i <= self.natives@.len(),
                *self == *old(self),
                forall|j: int| 0 <= j < i ==> self.natives@[j].0 != key,
            decreases self.natives@.len() - i,
        {
            let k = self.natives[i].0;
            if k.0 == key.0 && k.1 == key.1 && k.2 == key.2 {
                proof {
                    assert forall|q: (u32, u32, u32)| native_lookup(self.natives@.update(i as int, (key, f)), q)
                        == (if q == key { Some(f) } else { native_lookup(old(self).natives@, q) }) by {
                        lemma_native_lookup_update(self.natives@, i as int, key, f, q);
                    }
                }
                self.natives.set(i, (key, f));
                return;
            }
            i += 1;
        }
        proof {
            assert forall|q: (u32, u32, u32)| native_lookup(self.natives@.push((key, f)), q)
                == (if q == key { Some(f) } else { native_lookup(old(self).natives@, q) }) by {
                lemma_native_lookup_push(self.natives@, key, f, q);
            }
        }
        self.natives.push((key, f));
    }

    /// Registers an entry's implementation under its interned key.
    fn register_entry(&mut self, e: NativeEntry) -> (r: Result<(), JvmError>)
        requires
            old(self).core_wf(),
        ensures
            final(self).core_wf(),
            old(self).wf() ==> final(self).wf(),
            old(self).grows_to(final(self)),
            final(self).classes == old(self).classes,
            final(self).arena == old(self).arena,
            final(self).hot == old(self).hot,
            final(self).dexes == old(self).dexes,
            final(self).host_natives == old(self).host_natives,
            room_spec(old(self)) && old(self).intern@.len() + 3 < 0x7fff_ffff ==> r is Ok,
            final(self).intern@.len() <= old(self).intern@.len() + 3,
            r is Ok ==> exists|c: u32, n: u32, s: u32| {
                &&& first_with(final(self).intern@, e.class@, c as int)
                &&& first_with(final(self).intern@, e.name@, n as int)
                &&& first_with(final(self).intern@, e.sig@, s as int)
                &&& forall|q: (u32, u32, u32)| #[trigger] native_lookup(final(self).natives@, q)
                    == (if q == (c, n, s) { Some(e.f) } else { native_lookup(old(self).natives@, q) })
            },
            r is Err ==> final(self).natives == old(self).natives,
            old(self).same_env_but_natives(final(self)),
    {
        let class = self.intern_checked(e.class)?;
        let name = self.intern_checked(e.name)?;
        let sig = self.intern_checked(e.sig)?;
        self.set_native((class, name, sig), e.f);
        proof {
            assert(first_with(self.intern@, e.class@, class as int));
            assert(first_with(self.intern@, e.name@, name as int));
            assert(first_with(self.intern@, e.sig@, sig as int));
            assert(forall|q: (u32, u32, u32)| #[trigger] native_lookup(self.natives@, q)
                == (if q == (class, name, sig) { Some(e.f) } else { native_lookup(old(self).natives@, q) }));
        }
        Ok(())
    }

    /// Registers every built-in native.
    pub fn register_natives(&mut self) -> (r: Result<(), JvmError>)
        requires
            old(self).core_wf(),
        ensures
            final(self).core_wf(),
            old(self).wf() ==> final(self).wf(),
            old(self).grows_to(final(self)),
            final(self).classes == old(self).classes,
            final(self).arena == old(self).arena,
            final(self).hot == old(self).hot,
            final(self).dexes == old(self).dexes,
            final(self).host_natives == old(self).host_natives,
            room_spec(old(self)) && old(self).intern@.len() + 3 * builtin_table().len() < 0x7fff_ffff ==> r is Ok,
            r is Ok ==> forall|j: int| 0 <= j < builtin_table().len() ==> #[trigger] registered_in(final(self), builtin_table()[j]),
            old(self).same_env_but_natives(final(self)),
    {
        let entries = crate::natives::builtin_entries();
        let ghost n0 = self.intern@.len();
        let mut i: usize = 0;
        while i < entries.len()
            invariant
                self.core_wf(),
                old(self).wf() ==> self.wf(),
                old(self).grows_to(self),
                self.classes == old(self).classes,
                self.arena == old(self).arena,
                self.hot == old(self).hot,
                self.dexes == old(self).dexes,
                self.host_natives == old(self).host_natives,
                old(self).same_env_but_natives(self),
                i <= entries@.len(),
                entries_view(entries@) == builtin_table(),
                n0 == old(self).intern@.len(),
                self.intern@.len() <= n0 + 3 * i,
                room_spec(old(self)) ==> self.arena.objects@.len() < 0x7fff_ffff && self.classes@.len() < 0x7fff_ffff,
                forall|j: int| 0 <= j < i ==> #[trigger] registered_in(self, builtin_table()[j]),
            decreases entries@.len() - i,
        {
            let ghost before = *self;
            proof {
                assert(builtin_table().len() == entries@.len());
                assert(builtin_table()[i as int] == entry_view(entries@[i as int]));
            }
            self.register_entry(entries[i])?;
            proof {
                let e = entries@[i as int];
                let (c, n, s) = choose|c: u32, n: u32, s: u32| {
                    &&& first_with(self.intern@, e.class@, c as int)
                    &&& first_with(self.intern@, e.name@, n as int)
                    &&& first_with(self.intern@, e.sig@, s as int)
                    &&& forall|q: (u32, u32, u32)| #[trigger] native_lookup(self.natives@, q)
                        == (if q == (c, n, s) { Some(e.f) } else { native_lookup(before.natives@, q) })
                };
                assert(native_lookup(self.natives@, (c, n, s)) is Some);
                assert(registered_in(self, builtin_table()[i as int]));
                assert forall|q: (u32, u32, u32)| #[trigger] native_lookup(before.natives@, q) is Some implies native_lookup(self.natives@, q) is Some by {
                    if q != (c, n, s) {
                        assert(native_lookup(self.natives@, q) == native_lookup(before.natives@, q));
                    }
                }
                assert forall|j: int| 0 <= j <= i implies #[trigger] registered_in(self, builtin_table()[j]) by {
                    if j < i {
                        lemma_registered_kept(&before, self, builtin_table()[j]);
                    }
                }
            }
            i += 1;
        }
        proof {
            assert(builtin_table().len() == entries@.len());
        }
        Ok(())
    }

    /// A VM over `dexes` with the bootstrap classes (`Object`, `String`)
    /// loaded and the built-in natives registered.
    #[verifier::rlimit(60)]
    pub fn new(dexes: Vec<DexFile>) -> (r: Result<Vm, JvmError>)
        ensures
            r matches Ok(vm) ==> vm.wf() && vm.dexes == dexes && vm.arena.objects@.len() == 0
                && vm.intern@[vm.hot.object as int]@ == "Ljava/lang/Object;"@
                && vm.intern@[vm.hot.clinit as int]@ == "<clinit>"@
                && vm.intern@[vm.hot.init as int]@ == "<init>"@,
            r matches Ok(vm) ==> vm.frames@.len() == 0 && vm.perms@.len() == 0 && vm.host_natives@.len() == 0
                && vm.budget == 50_000_000 && vm.depth_limit == 700 && vm.recursion_depth == 0
                && vm.intern@[vm.classes@[vm.hot.string as int].descriptor as int]@ == "Ljava/lang/String;"@
                && (exists|c: int| 0 <= c < vm.classes@.len() && vm.classes@[c].descriptor == vm.hot.object)
                && (forall|j: int| 0 <= j < builtin_table().len() ==> #[trigger] registered_in(&vm, builtin_table()[j])),
    {
        let mut vm = Vm {
            dexes,
            shims: shim_classes(),
            intern: vec![to_owned_string("<clinit>"), to_owned_string("<init>"), to_owned_string("Ljava/lang/Object;")],
            classes: Vec::new(),
            class_by_type: Vec::new(),
            arena: Arena::new(),
            string_objs: Vec::new(),
            runtime_strings: Vec::new(),
            natives: Vec::new(),
            monitors: Vec::new(),
            method_refs: Vec::new(),
            field_refs: Vec::new(),
            out: Vec::new(),
            budget: 50_000_000,
            depth_limit: 700,
            recursion_depth: 0,
            hot: Hot {
                clinit: 0,
                init: 1,
                object: 2,
                string: 0,
                throwable: 0,
                npe: 0,
                arithmetic: 0,
                aioobe: 0,
                ioobe: 0,
                cce: 0,
                nas: 0,
                uoe: 0,
                iae: 0,
                string_builder: 0,
                class_: 0,
                default_ctor_marker: 0,
            },
            host_natives: Vec::new(),
            perms: Vec::new(),
            array_classes: Vec::new(),
            injekt_type_by_subclass: Vec::new(),
            injekt_scanned_classes: 0,
            loading: Vec::new(),
            frames: Vec::new(),
            host_call: None,
        };
        let ghost d = vm.dexes;
        proof {
            reveal_strlit("<clinit>");
            reveal_strlit("<init>");
            reveal_strlit("Ljava/lang/Object;");
            assert(vm.intern@[0]@.len() == 8);
            assert(vm.intern@[1]@.len() == 6);
            assert(vm.intern@[2]@.len() == 18);
        }
        assert(vm.core_wf());
        let string_desc = vm.intern_checked("Ljava/lang/String;")?;
        vm.hot.throwable = vm.intern_checked("Ljava/lang/Throwable;")?;
        vm.hot.npe = vm.intern_checked("Ljava/lang/NullPointerException;")?;
        vm.hot.arithmetic = vm.intern_checked("Ljava/lang/ArithmeticException;")?;
        vm.hot.aioobe = vm.intern_checked("Ljava/lang/ArrayIndexOutOfBoundsException;")?;
        vm.hot.ioobe = vm.intern_checked("Ljava/lang/IndexOutOfBoundsException;")?;
        vm.hot.cce = vm.intern_checked("Ljava/lang/ClassCastException;")?;
        vm.hot.nas = vm.intern_checked("Ljava/lang/NegativeArraySizeException;")?;
        vm.hot.uoe = vm.intern_checked("Ljava/lang/UnsupportedOperationException;")?;
        vm.hot.iae = vm.intern_checked("Ljava/lang/IllegalArgumentException;")?;
        vm.hot.string_builder = vm.intern_checked("Ljava/lang/StringBuilder;")?;
        vm.hot.class_ = vm.intern_checked("Ljava/lang/Class;")?;
        vm.hot.default_ctor_marker = vm.intern_checked("Lkotlin/jvm/internal/DefaultConstructorMarker;")?;
        let ghost s_text = vm.intern@[string_desc as int];
        vm.register_natives()?;
        let ghost v1 = vm;
        // bootstrap shim classes so that `Object` always exists (class id 0)
        let object = vm.ensure_class_by_desc_id(vm.hot.object)?;
        let ghost v2 = vm;
        let sc = vm.ensure_class_by_desc_id(string_desc)?;
        let ghost v3 = vm;
        vm.hot.string = sc;
        proof {
            assert forall|j: int| 0 <= j < builtin_table().len() implies #[trigger] registered_in(&vm, builtin_table()[j]) by {
                lemma_registered_kept(&v1, &v2, builtin_table()[j]);
                lemma_registered_kept(&v2, &v3, builtin_table()[j]);
            }
            assert(vm.classes@[object as int].descriptor == vm.hot.object);
        }
        assert(vm.wf());
        Ok(vm)
    }
}


/// `new_vm` is `old_vm` with object `id` allocated as `obj` (a fresh slot or
/// a reclaimed one); every other object is unchanged.
pub open spec fn allocated(old_vm: &Vm, new_vm: &Vm, id: u32, obj: Object) -> bool {
    &&& (id as int) < new_vm.arena.objects@.len()
    &&& new_vm.arena.objects@[id as int] == obj
    &&& new_vm.arena.objects@.len() >= old_vm.arena.objects@.len()
    &&& forall|j: int| 0 <= j < old_vm.arena.objects@.len() && j != id ==> new_vm.arena.objects@[j] == old_vm.arena.objects@[j]
}

/// Objects other than the ones that existed are untouched and the tables
/// only grew.
pub open spec fn heap_post(old_vm: &Vm, new_vm: &Vm) -> bool {
    &&& new_vm.wf()
    &&& old_vm.grows_to(new_vm)
    &&& new_vm.arena.objects@.len() >= old_vm.arena.objects@.len()
    &&& new_vm.dexes == old_vm.dexes
    &&& new_vm.hot == old_vm.hot
    &&& new_vm.natives == old_vm.natives
    &&& new_vm.host_natives == old_vm.host_natives
    &&& new_vm.perms == old_vm.perms
    &&& new_vm.frames == old_vm.frames
}

impl Vm {
    /// Allocates an object of class `class`; `None` when the arena is full.
    pub fn alloc_obj(&mut self, class: u32, fields: Vec<JValue>, native: Option<Native>) -> (r: Option<u32>)
        requires
            old(self).wf(),
            (class as int) < old(self).classes@.len(),
        ensures
            heap_post(old(self), final(self)),
            final(self).intern == old(self).intern,
            final(self).classes == old(self).classes,
            final(self).runtime_strings == old(self).runtime_strings,
            final(self).string_objs == old(self).string_objs,
            final(self).injekt_type_by_subclass == old(self).injekt_type_by_subclass,
            r matches Some(id) ==> allocated(old(self), final(self), id, Object { class, fields, native }),
            r is None ==> *final(self) == *old(self),
            old(self).arena.objects@.len() < 0x7fff_ffff <==> r is Some,
    {
        if self.arena.objects.len() >= 0x7fff_ffff {
            return None;
        }
        let ghost old_vm = *self;
        let ghost obj = Object { class, fields, native };
        let id = self.arena.allocate(class, fields, native);
        proof {
            let a = old_vm.arena.objects@;
            let b = self.arena.objects@;
            assert forall|o: int| 0 <= o < b.len() implies ((#[trigger] b[o]).class as int) < self.classes@.len() by {
                if (id as int) < a.len() && b == a.update(id as int, obj) {
                    if o != id {
                        assert(b[o] == a[o]);
                    }
                } else {
                    if o != id {
                        assert(b[o] == a[o]);
                    }
                }
            }
            assert forall|j: int| 0 <= j < a.len() && j != id implies b[j] == a[j] by {
                if (id as int) < a.len() && b == a.update(id as int, obj) {
                } else {
                }
            }
        }
        Some(id)
    }

    /// A new instance of `class_id` with every declared instance field at its
    /// default value.
    pub fn alloc_instance(&mut self, class_id: u32) -> (r: Result<u32, JvmError>)
        requires
            old(self).wf(),
            (class_id as int) < old(self).classes@.len(),
        ensures
            heap_post(old(self), final(self)),
            r matches Ok(id) ==> allocated(old(self), final(self), id, final(self).arena.objects@[id as int])
                && final(self).arena.objects@[id as int].class == class_id
                && final(self).arena.objects@[id as int].native is None
                && final(self).arena.objects@[id as int].fields@.len() == old(self).classes@[class_id as int].instance_fields@.len()
                && forall|k: int| 0 <= k < old(self).classes@[class_id as int].instance_fields@.len() ==>
                    final(self).arena.objects@[id as int].fields@[k] == crate::value::default_of_spec(
                        old(self).intern@[old(self).classes@[class_id as int].instance_fields@[k].1 as int]@),
            r is Ok <==> old(self).arena.objects@.len() < 0x7fff_ffff,
    {
        let c = &self.classes[class_id as usize];
        assert(self.class_ok(self.classes@[class_id as int]));
        let mut fields: Vec<JValue> = Vec::new();
        let mut i: usize = 0;
        while i < c.instance_fields.len()
            invariant
                c == &self.classes@[class_id as int],
                self.class_ok(*c),
                i <= c.instance_fields@.len(),
                fields@.len() == i,
                forall|k: int| 0 <= k < i ==> fields@[k] == crate::value::default_of_spec(
                    self.intern@[c.instance_fields@[k].1 as int]@),
            decreases c.instance_fields@.len() - i,
        {
            let ty = c.instance_fields[i].1;
            assert(c.instance_fields@[i as int].1 < self.intern@.len());
            fields.push(crate::value::default_of(self.str_of(ty)));
            i += 1;
        }
        match self.alloc_obj(class_id, fields, None) {
            Some(id) => Ok(id),
            None => Err(JvmError::Fatal(String::from_str("heap exhausted"))),
        }
    }

    /// Object of class `class` holding payload `native`, or `Null` when the
    /// heap is full.
    pub fn alloc_payload(&mut self, class: u32, native: Native) -> (r: JValue)
        requires
            old(self).wf(),
            (class as int) < old(self).classes@.len(),
        ensures
            heap_post(old(self), final(self)),
            final(self).intern == old(self).intern,
            final(self).classes == old(self).classes,
            final(self).runtime_strings == old(self).runtime_strings,
            r matches JValue::Obj(id) ==> allocated(old(self), final(self), id, Object { class, fields: final(self).arena.objects@[id as int].fields, native: Some(native) })
                && final(self).arena.objects@[id as int].fields@.len() == 0,
            r is Obj || r is Null,
            old(self).arena.objects@.len() < 0x7fff_ffff ==> r is Obj,
    {
        match self.alloc_obj(class, Vec::new(), Some(native)) {
            Some(id) => JValue::Obj(id),
            None => JValue::Null,
        }
    }

    /// The `java.lang.String` object for `s`: runtime strings with the same
    /// contents share one object.
    pub fn alloc_string(&mut self, s: &str) -> (r: JValue)
        requires
            old(self).wf(),
        ensures
            heap_post(old(self), final(self)),
            r matches JValue::Obj(id) ==> (id as int) < final(self).arena.objects@.len()
                && final(self).arena.objects@[id as int].native == Some(Native::Str(final(self).arena.objects@[id as int].native->Some_0->Str_0))
                && final(self).arena.objects@[id as int].native->Some_0->Str_0@ == s@
                && final(self).arena.objects@[id as int].class == final(self).hot.string,
            r is Obj || r is Null,
            old(self).arena.objects@.len() < 0x7fff_ffff ==> r is Obj,
    {
        let mut i: usize = 0;
        while i < self.runtime_strings.len()
            invariant
                self.wf(),
                i <= self.runtime_strings@.len(),
            decreases self.runtime_strings@.len() - i,
        {
            let id = self.runtime_strings[i].1;
            if str_eq(self.runtime_strings[i].0.as_str(), s) && (id as usize) < self.arena.objects.len()
                && self.arena.objects[id as usize].class == self.hot.string {
                match &self.arena.objects[id as usize].native {
                    Some(Native::Str(t)) => {
                        if str_eq(t.as_str(), s) {
                            return JValue::Obj(id);
                        }
                    },
                    _ => {},
                }
            }
            i += 1;
        }
        let v = self.alloc_payload(self.hot.string, Native::Str(to_owned_string(s)));
        if let JValue::Obj(id) = v {
            self.runtime_strings.push((to_owned_string(s), id));
        }
        v
    }
}


/// Object `t` is a throwable with message `msg`, of the loaded class named
/// `desc` (or of class 0 when that class could not be loaded).
pub open spec fn is_throwable(vm: &Vm, t: u32, desc: Seq<char>, msg: Seq<char>) -> bool {
    &&& (t as int) < vm.arena.objects@.len()
    &&& vm.arena.objects@[t as int].native matches Some(Native::Throwable { message: Some(m), cause }) && m@ == msg && cause == JValue::Null
    &&& (vm.arena.objects@[t as int].class == 0 || vm.intern@[vm.classes@[vm.arena.objects@[t as int].class as int].descriptor as int]@ == desc)
}

/// The payload of the object a value refers to.
pub open spec fn payload_spec(vm: &Vm, v: JValue) -> Option<Native> {
    match v {
        JValue::Obj(o) => if (o as int) < vm.arena.objects@.len() { vm.arena.objects@[o as int].native } else { None },
        _ => None,
    }
}

/// Index of the first instance field of `c` named `name`.
pub open spec fn field_named(vm: &Vm, c: Class, name: Seq<char>, k: int) -> bool {
    &&& 0 <= k < c.instance_fields@.len()
    &&& vm.intern@[c.instance_fields@[k].0 as int]@ == name
    &&& forall|j: int| 0 <= j < k ==> vm.intern@[c.instance_fields@[j].0 as int]@ != name
}

/// Message of an index-out-of-bounds error for `idx` in an array of `len`.
pub open spec fn aioobe_msg(idx: i32, len: i32) -> Seq<char> {
    "Index "@ + crate::text::signed_digits(idx as int, 10) + " out of bounds for length "@
        + crate::text::signed_digits(len as int, 10)
}

impl Vm {
    /// A throwable of class `class_desc` carrying `message`.
    pub fn throwable_of(&mut self, class_desc: &str, message: &str) -> (r: u32)
        requires
            old(self).wf(),
        ensures
            heap_post(old(self), final(self)),
            old(self).arena.objects@.len() < 0x7fff_ffff ==> is_throwable(final(self), r, class_desc@, message@)
                && allocated(old(self), final(self), r, final(self).arena.objects@[r as int]),
    {
        let class = match self.ensure_class_by_desc(class_desc) {
            Ok(c) => c,
            Err(_) => 0,
        };
        let native = Native::Throwable { message: Some(to_owned_string(message)), cause: JValue::Null };
        match self.alloc_obj(class, Vec::new(), Some(native)) {
            Some(id) => id,
            None => 0,
        }
    }

    pub fn err_npe(&mut self) -> (r: u32)
        requires
            old(self).wf(),
        ensures
            heap_post(old(self), final(self)),
            old(self).arena.objects@.len() < 0x7fff_ffff ==> is_throwable(final(self), r, "Ljava/lang/NullPointerException;"@, ""@),
    {
        self.throwable_of("Ljava/lang/NullPointerException;", "")
    }

    pub fn err_npe_msg(&mut self, msg: &str) -> (r: u32)
        requires
            old(self).wf(),
        ensures
            heap_post(old(self), final(self)),
            old(self).arena.objects@.len() < 0x7fff_ffff ==> is_throwable(final(self), r, "Ljava/lang/NullPointerException;"@, msg@),
    {
        self.throwable_of("Ljava/lang/NullPointerException;", msg)
    }

    pub fn err_arithmetic(&mut self, msg: &str) -> (r: u32)
        requires
            old(self).wf(),
        ensures
            heap_post(old(self), final(self)),
            old(self).arena.objects@.len() < 0x7fff_ffff ==> is_throwable(final(self), r, "Ljava/lang/ArithmeticException;"@, msg@),
    {
        self.throwable_of("Ljava/lang/ArithmeticException;", msg)
    }

    pub fn err_aioobe(&mut self, idx: i32, len: i32) -> (r: u32)
        requires
            old(self).wf(),
        ensures
            heap_post(old(self), final(self)),
            old(self).arena.objects@.len() < 0x7fff_ffff ==> is_throwable(final(self), r,
                "Ljava/lang/ArrayIndexOutOfBoundsException;"@, aioobe_msg(idx, len)),
    {
        let mut m = String::from_str("Index ");
        m.append(crate::text::int_to_string(idx, 10).as_str());
        m.append(" out of bounds for length ");
        m.append(crate::text::int_to_string(len, 10).as_str());
        self.throwable_of("Ljava/lang/ArrayIndexOutOfBoundsException;", m.as_str())
    }

    pub fn err_ioobe(&mut self, idx: i32) -> (r: u32)
        requires
            old(self).wf(),
        ensures
            heap_post(old(self), final(self)),
            old(self).arena.objects@.len() < 0x7fff_ffff ==> is_throwable(final(self), r,
                "Ljava/lang/IndexOutOfBoundsException;"@, "Index "@ + crate::text::signed_digits(idx as int, 10)),
    {
        let mut m = String::from_str("Index ");
        m.append(crate::text::int_to_string(idx, 10).as_str());
        self.throwable_of("Ljava/lang/IndexOutOfBoundsException;", m.as_str())
    }

    pub fn err_cce(&mut self, msg: &str) -> (r: u32)
        requires
            old(self).wf(),
        ensures
            heap_post(old(self), final(self)),
            old(self).arena.objects@.len() < 0x7fff_ffff ==> is_throwable(final(self), r, "Ljava/lang/ClassCastException;"@, msg@),
    {
        self.throwable_of("Ljava/lang/ClassCastException;", msg)
    }

    pub fn err_neg_arr_size(&mut self) -> (r: u32)
        requires
            old(self).wf(),
        ensures
            heap_post(old(self), final(self)),
            old(self).arena.objects@.len() < 0x7fff_ffff ==> is_throwable(final(self), r, "Ljava/lang/NegativeArraySizeException;"@, ""@),
    {
        self.throwable_of("Ljava/lang/NegativeArraySizeException;", "")
    }

    pub fn err_uoe(&mut self, msg: &str) -> (r: u32)
        requires
            old(self).wf(),
        ensures
            heap_post(old(self), final(self)),
            old(self).arena.objects@.len() < 0x7fff_ffff ==> is_throwable(final(self), r, "Ljava/lang/UnsupportedOperationException;"@, msg@),
    {
        self.throwable_of("Ljava/lang/UnsupportedOperationException;", msg)
    }

    pub fn err_iae(&mut self, msg: &str) -> (r: u32)
        requires
            old(self).wf(),
        ensures
            heap_post(old(self), final(self)),
            old(self).arena.objects@.len() < 0x7fff_ffff ==> is_throwable(final(self), r, "Ljava/lang/IllegalArgumentException;"@, msg@),
    {
        self.throwable_of("Ljava/lang/IllegalArgumentException;", msg)
    }

    pub fn err_ise(&mut self, msg: &str) -> (r: u32)
        requires
            old(self).wf(),
        ensures
            heap_post(old(self), final(self)),
            old(self).arena.objects@.len() < 0x7fff_ffff ==> is_throwable(final(self), r, "Ljava/lang/IllegalStateException;"@, msg@),
    {
        self.throwable_of("Ljava/lang/IllegalStateException;", msg)
    }

    pub fn err_nfe(&mut self, msg: &str) -> (r: u32)
        requires
            old(self).wf(),
        ensures
            heap_post(old(self), final(self)),
            old(self).arena.objects@.len() < 0x7fff_ffff ==> is_throwable(final(self), r, "Ljava/lang/NumberFormatException;"@, msg@),
    {
        self.throwable_of("Ljava/lang/NumberFormatException;", msg)
    }

    pub fn err_fnf(&mut self, msg: &str) -> (r: u32)
        requires
            old(self).wf(),
        ensures
            heap_post(old(self), final(self)),
            old(self).arena.objects@.len() < 0x7fff_ffff ==> is_throwable(final(self), r, "Ljava/io/FileNotFoundException;"@, msg@),
    {
        self.throwable_of("Ljava/io/FileNotFoundException;", msg)
    }

    pub fn err_ioe(&mut self, msg: &str) -> (r: u32)
        requires
            old(self).wf(),
        ensures
            heap_post(old(self), final(self)),
            old(self).arena.objects@.len() < 0x7fff_ffff ==> is_throwable(final(self), r, "Ljava/io/IOException;"@, msg@),
    {
        self.throwable_of("Ljava/io/IOException;", msg)
    }

    pub fn err_sioobe(&mut self, msg: &str) -> (r: u32)
        requires
            old(self).wf(),
        ensures
            heap_post(old(self), final(self)),
            old(self).arena.objects@.len() < 0x7fff_ffff ==> is_throwable(final(self), r, "Ljava/lang/StringIndexOutOfBoundsException;"@, msg@),
    {
        self.throwable_of("Ljava/lang/StringIndexOutOfBoundsException;", msg)
    }

    /// String payload of a `java.lang.String` value, if any.
    pub fn str_of_jvalue(&self, v: JValue) -> (r: Option<String>)
        ensures
            r matches Some(s) ==> payload_spec(self, v) matches Some(Native::Str(t)) && s@ == t@,
            r is None ==> !(payload_spec(self, v) is Some && payload_spec(self, v)->Some_0 is Str),
    {
        match v {
            JValue::Obj(id) => {
                if (id as usize) < self.arena.objects.len() {
                    match &self.arena.objects[id as usize].native {
                        Some(Native::Str(s)) => Some(to_owned_string(s.as_str())),
                        _ => None,
                    }
                } else {
                    None
                }
            },
            _ => None,
        }
    }

    /// The payload of a value's object.
    pub fn payload_of(&self, v: JValue) -> (r: Option<&Native>)
        ensures
            r matches Some(n) ==> payload_spec(self, v) == Some(*n),
            r is None ==> payload_spec(self, v) is None,
    {
        match v {
            JValue::Obj(id) => {
                if (id as usize) < self.arena.objects.len() {
                    match &self.arena.objects[id as usize].native {
                        Some(n) => Some(n),
                        None => None,
                    }
                } else {
                    None
                }
            },
            _ => None,
        }
    }

    /// Resolved class id for a non-null object value.
    pub fn object_class(&self, v: JValue) -> (r: Option<u32>)
        ensures
            r == (match v {
                JValue::Obj(o) => if (o as int) < self.arena.objects@.len() { Some(self.arena.objects@[o as int].class) } else { None },
                _ => None,
            }),
    {
        match v {
            JValue::Obj(id) => {
                if (id as usize) < self.arena.objects.len() {
                    Some(self.arena.objects[id as usize].class)
                } else {
                    None
                }
            },
            _ => None,
        }
    }

    /// Index of the first instance field of `class` named `name`.
    pub fn class_field_offset(&self, class: u32, name: &str) -> (r: Option<u32>)
        requires
            self.wf(),
        ensures
            r matches Some(k) ==> (class as int) < self.classes@.len() && field_named(self, self.classes@[class as int], name@, k as int),
            r is None ==> (class as int) >= self.classes@.len()
                || forall|k: int| 0 <= k < self.classes@[class as int].instance_fields@.len()
                    ==> self.intern@[self.classes@[class as int].instance_fields@[k].0 as int]@ != name@,
    {
        if class as usize >= self.classes.len() {
            return None;
        }
        let c = &self.classes[class as usize];
        assert(self.class_ok(*c));
        let mut i: usize = 0;
        while i < c.instance_fields.len()
            invariant
                (class as int) < self.classes@.len(),
                c == &self.classes@[class as int],
                self.class_ok(*c),
                self.intern@.len() < u32::MAX,
                i <= c.instance_fields@.len(),
                forall|j: int| 0 <= j < i ==> self.intern@[c.instance_fields@[j].0 as int]@ != name@,
            decreases c.instance_fields@.len() - i,
        {
            assert(c.instance_fields@[i as int].0 < self.intern@.len());
            if str_eq(self.str_of(c.instance_fields[i].0), name) {
                return Some(i as u32);
            }
            i += 1;
        }
        None
    }

    /// Whether `class` declares any instance fields. Host shims carry none.
    pub fn class_has_instance_fields(&self, class: u32) -> (r: bool)
        ensures
            r == ((class as int) < self.classes@.len() && self.classes@[class as int].instance_fields@.len() > 0),
    {
        (class as usize) < self.classes.len() && self.classes[class as usize].instance_fields.len() > 0
    }
}

} // verus!
