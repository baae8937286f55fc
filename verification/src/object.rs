//! The object arena: every Java object is a slot holding its class, its
//! instance fields and an optional host payload.

use vstd::prelude::*;

use crate::value::{int_value, long_value, JValue};

verus! {

/// Backing storage of a Java array, one vector per element kind. Float and
/// double elements are held by their bit patterns.
#[derive(Debug, Clone, PartialEq)]
pub enum ArrayData {
    Byte(Vec<i8>),
    Char(Vec<u16>),
    Short(Vec<i16>),
    Int(Vec<i32>),
    Long(Vec<i64>),
    Float(Vec<u32>),
    Double(Vec<u64>),
    Bool(Vec<bool>),
    Obj(Vec<JValue>),
}

/// A `java.lang.Class` value: a loaded class id or a primitive type code.
#[derive(Debug, Clone, Copy, PartialEq, Eq, Structural)]
pub enum ClassOrPrim {
    Class(u32),
    Primitive(u8),
}

/// Which collection an iterator walks.
#[derive(Debug, Clone, Copy, PartialEq, Eq, Structural)]
pub enum IterKind {
    List { list: u32, idx: usize },
    SetItems { set: u32, idx: usize },
    MapKeys { map: u32, idx: usize },
    MapValues { map: u32, idx: usize },
    MapEntries { map: u32, idx: usize },
}

/// Host payload of an object (strings, boxes, collections, ...).
#[derive(Debug, Clone, PartialEq)]
pub enum Native {
    Str(String),
    StringBuilder(String),
    Array(ArrayData),
    List(Vec<JValue>),
    HashSet(Vec<JValue>),
    HashMap(Vec<(JValue, JValue)>),
    MapEntry { key: JValue, value: JValue },
    Iter(IterKind),
    IntBox(i32),
    LongBox(i64),
    ShortBox(i16),
    ByteBox(i8),
    CharBox(u16),
    BoolBox(bool),
    FloatBox(u32),
    DoubleBox(u64),
    Type { desc: String },
    Throwable { message: Option<String>, cause: JValue },
    ClassObj(ClassOrPrim),
    Enum { name: String, ordinal: i32 },
    Random(u64),
    Key(Vec<u8>),
    GcmSpec { tag_bits: i32, iv: Vec<u8> },
    CipherState {
        transformation: String,
        mode: u8,
        key: Vec<u8>,
        iv: Vec<u8>,
        tag_bits: usize,
        aad: Vec<u8>,
    },
    Mac { algorithm: String, key: Vec<u8> },
    PbeKeySpec { password: Vec<u8>, salt: Vec<u8>, iterations: i32, key_len_bits: i32 },
    ByteArrayInputStream { bytes: Vec<u8>, pos: usize },
    ByteArrayOutputStream(Vec<u8>),
    Reader(String),
    Thread { name: String, runnable: JValue, started: bool, alive: bool, daemon: bool, interrupted: bool },
    Lazy(JValue),
    Field { class: u32, name: u32 },
    PrintStream,
    /// A `java.io.File`: its path.
    File { path: String },
    /// An `android.net.Uri` or `Uri$Builder`: the text built so far.
    Uri(String),
    /// An `android.content.Intent`: action, data URI and extras by key.
    Intent { action: Option<String>, data: Option<String>, extras: Vec<(String, JValue)> },
    /// An `android.app.Activity`: its intent and whether it finished.
    Activity { intent: JValue, finished: bool },
    Opaque,
}

/// The value at index `i` of an array as a register value.
pub open spec fn array_elem(a: ArrayData, i: int) -> JValue {
    match a {
        ArrayData::Byte(v) => JValue::Int(v@[i] as i32),
        ArrayData::Char(v) => JValue::Int(v@[i] as i32),
        ArrayData::Short(v) => JValue::Int(v@[i] as i32),
        ArrayData::Int(v) => JValue::Int(v@[i]),
        ArrayData::Long(v) => JValue::Long(v@[i]),
        ArrayData::Float(v) => JValue::Float(v@[i]),
        ArrayData::Double(v) => JValue::Double(v@[i]),
        ArrayData::Bool(v) => JValue::Int(if v@[i] { 1 } else { 0 }),
        ArrayData::Obj(v) => v@[i],
    }
}

/// The number of elements of an array.
pub open spec fn array_len(a: ArrayData) -> nat {
    match a {
        ArrayData::Byte(v) => v@.len(),
        ArrayData::Char(v) => v@.len(),
        ArrayData::Short(v) => v@.len(),
        ArrayData::Int(v) => v@.len(),
        ArrayData::Long(v) => v@.len(),
        ArrayData::Float(v) => v@.len(),
        ArrayData::Double(v) => v@.len(),
        ArrayData::Bool(v) => v@.len(),
        ArrayData::Obj(v) => v@.len(),
    }
}

/// The float bits a value carries (0 unless it is a `Float`).
pub open spec fn float_bits(v: JValue) -> u32 {
    match v {
        JValue::Float(b) => b,
        _ => 0,
    }
}

/// The double bits a value carries (0 unless it is a `Double`).
pub open spec fn double_bits(v: JValue) -> u64 {
    match v {
        JValue::Double(b) => b,
        _ => 0,
    }
}

/// What an array of this kind holds after `v` is stored into it: the value
/// narrowed to the element type.
pub open spec fn array_store_value(a: ArrayData, v: JValue) -> JValue {
    match a {
        ArrayData::Byte(_) => JValue::Int(int_value(v) as i8 as i32),
        ArrayData::Char(_) => JValue::Int(int_value(v) as u16 as i32),
        ArrayData::Short(_) => JValue::Int(int_value(v) as i16 as i32),
        ArrayData::Int(_) => JValue::Int(int_value(v)),
        ArrayData::Long(_) => JValue::Long(long_value(v)),
        ArrayData::Float(_) => JValue::Float(float_bits(v)),
        ArrayData::Double(_) => JValue::Double(double_bits(v)),
        ArrayData::Bool(_) => JValue::Int(if int_value(v) != 0 { 1 } else { 0 }),
        ArrayData::Obj(_) => v,
    }
}

/// The same kind of array.
pub open spec fn same_kind(a: ArrayData, b: ArrayData) -> bool {
    match (a, b) {
        (ArrayData::Byte(_), ArrayData::Byte(_)) => true,
        (ArrayData::Char(_), ArrayData::Char(_)) => true,
        (ArrayData::Short(_), ArrayData::Short(_)) => true,
        (ArrayData::Int(_), ArrayData::Int(_)) => true,
        (ArrayData::Long(_), ArrayData::Long(_)) => true,
        (ArrayData::Float(_), ArrayData::Float(_)) => true,
        (ArrayData::Double(_), ArrayData::Double(_)) => true,
        (ArrayData::Bool(_), ArrayData::Bool(_)) => true,
        (ArrayData::Obj(_), ArrayData::Obj(_)) => true,
        _ => false,
    }
}

impl ArrayData {
    /// Element count.
    pub fn len(&self) -> (r: usize)
        ensures
            r == array_len(*self),
    {
        match self {
            ArrayData::Byte(v) => v.len(),
            ArrayData::Char(v) => v.len(),
            ArrayData::Short(v) => v.len(),
            ArrayData::Int(v) => v.len(),
            ArrayData::Long(v) => v.len(),
            ArrayData::Float(v) => v.len(),
            ArrayData::Double(v) => v.len(),
            ArrayData::Bool(v) => v.len(),
            ArrayData::Obj(v) => v.len(),
        }
    }

    /// Element `i` as a register value.
    pub fn get(&self, i: usize) -> (r: JValue)
        requires
            i < array_len(*self),
        ensures
            r == array_elem(*self, i as int),
    {
        match self {
            ArrayData::Byte(v) => JValue::Int(v[i] as i32),
            ArrayData::Char(v) => JValue::Int(v[i] as i32),
            ArrayData::Short(v) => JValue::Int(v[i] as i32),
            ArrayData::Int(v) => JValue::Int(v[i]),
            ArrayData::Long(v) => JValue::Long(v[i]),
            ArrayData::Float(v) => JValue::Float(v[i]),
            ArrayData::Double(v) => JValue::Double(v[i]),
            ArrayData::Bool(v) => JValue::Int(if v[i] { 1 } else { 0 }),
            ArrayData::Obj(v) => v[i],
        }
    }

    /// Stores `v` (narrowed to the element type) at index `i`.
    pub fn set(&mut self, i: usize, v: JValue)
        requires
            i < array_len(*old(self)),
        ensures
            same_kind(*final(self), *old(self)),
            array_len(*final(self)) == array_len(*old(self)),
            array_elem(*final(self), i as int) == array_store_value(*old(self), v),
            forall|j: int|
                0 <= j < array_len(*old(self)) && j != i ==> array_elem(*final(self), j)
                    == array_elem(*old(self), j),
    {
        match self {
            ArrayData::Byte(a) => { a.set(i, v.as_int() as i8); },
            ArrayData::Char(a) => { a.set(i, v.as_int() as u16); },
            ArrayData::Short(a) => { a.set(i, v.as_int() as i16); },
            ArrayData::Int(a) => { a.set(i, v.as_int()); },
            ArrayData::Long(a) => { a.set(i, v.as_long()); },
            ArrayData::Float(a) => {
                let b = match v {
                    JValue::Float(b) => b,
                    _ => 0,
                };
                a.set(i, b);
            },
            ArrayData::Double(a) => {
                let b = match v {
                    JValue::Double(b) => b,
                    _ => 0,
                };
                a.set(i, b);
            },
            ArrayData::Bool(a) => { a.set(i, v.as_int() != 0); },
            ArrayData::Obj(a) => { a.set(i, v); },
        }
    }
}

/// An arena slot.
#[derive(Debug, Clone)]
pub struct Object {
    pub class: u32,
    pub fields: Vec<JValue>,
    pub native: Option<Native>,
}

/// Owner of every object. Ids are indices into `objects`; reclaimed slots are
/// kept on `free` and reused by later allocations.
#[derive(Debug, Clone)]
pub struct Arena {
    pub objects: Vec<Object>,
    pub free: Vec<u32>,
}

/// The object references held by an object: its reference fields and the
/// references inside its payload.
pub open spec fn payload_refs(n: Option<Native>) -> Seq<JValue> {
    match n {
        Some(Native::Array(ArrayData::Obj(v))) => v@,
        Some(Native::List(v)) => v@,
        Some(Native::HashSet(v)) => v@,
        Some(Native::HashMap(m)) => Seq::new(2 * m@.len(), |i: int| if i % 2 == 0 { m@[i / 2].0 } else { m@[i / 2].1 }),
        Some(Native::MapEntry { key, value }) => seq![key, value],
        Some(Native::Throwable { message: _, cause }) => seq![cause],
        Some(Native::Lazy(v)) => seq![v],
        Some(Native::Thread { name: _, runnable, started: _, alive: _, daemon: _, interrupted: _ }) => seq![runnable],
        Some(Native::Intent { action: _, data: _, extras }) => Seq::new(extras@.len(), |i: int| extras@[i].1),
        Some(Native::Activity { intent, finished: _ }) => seq![intent],
        _ => Seq::empty(),
    }
}

/// An object id that a value refers to.
pub open spec fn ref_target(v: JValue) -> Option<u32> {
    match v {
        JValue::Obj(o) => Some(o),
        _ => None,
    }
}

/// Ids directly referenced by an object.
pub open spec fn refs_of(o: Object) -> Set<u32> {
    Set::new(|id: u32| exists|i: int| 0 <= i < o.fields@.len() && o.fields@[i] == JValue::Obj(id))
        + Set::new(|id: u32| exists|i: int| 0 <= i < payload_refs(o.native).len() && payload_refs(o.native)[i] == JValue::Obj(id))
}

impl Arena {
    /// An empty arena.
    pub fn new() -> (r: Arena)
        ensures
            r.objects@.len() == 0,
            r.free@.len() == 0,
    {
        Arena { objects: Vec::new(), free: Vec::new() }
    }

    /// The free list names valid slots.
    pub open spec fn wf(&self) -> bool {
        forall|i: int| 0 <= i < self.free@.len() ==> (self.free@[i] as int) < self.objects@.len()
    }

    /// Allocates an object, reusing a reclaimed slot when one is free.
    pub fn allocate(&mut self, class: u32, fields: Vec<JValue>, native: Option<Native>) -> (id: u32)
        requires
            old(self).wf(),
            old(self).objects@.len() < u32::MAX,
        ensures
            final(self).wf(),
            (id as int) < final(self).objects@.len(),
            ((id as int) < old(self).objects@.len() && final(self).objects@ == old(self).objects@.update(id as int, Object { class, fields, native }))
                || (final(self).objects@ == old(self).objects@.push(Object { class, fields, native })
                && id as int == old(self).objects@.len()),
            final(self).objects@.len() <= old(self).objects@.len() + 1,
    {
        let ghost f = self.free@;
        match self.free.pop() {
            Some(id) => {
                assert(f[f.len() - 1] == id);
                self.objects.set(id as usize, Object { class, fields, native });
                id
            },
            None => {
                let id = self.objects.len() as u32;
                self.objects.push(Object { class, fields, native });
                id
            },
        }
    }

    /// The object with id `id`, if the slot exists.
    pub fn get(&self, id: u32) -> (r: Option<&Object>)
        ensures
            r == (if (id as int) < self.objects@.len() { Some(&self.objects@[id as int]) } else { None }),
    {
        if (id as usize) < self.objects.len() {
            Some(&self.objects[id as usize])
        } else {
            None
        }
    }

    /// Returns slot `id` to the free list; its contents are dropped.
    pub fn reclaim(&mut self, id: u32)
        requires
            old(self).wf(),
            (id as int) < old(self).objects@.len(),
        ensures
            final(self).wf(),
            final(self).objects@.len() == old(self).objects@.len(),
            final(self).objects@[id as int].class == 0,
            final(self).objects@[id as int].fields@.len() == 0,
            final(self).objects@[id as int].native is None,
            forall|j: int| 0 <= j < old(self).objects@.len() && j != id ==> final(self).objects@[j] == old(self).objects@[j],
            final(self).free@ == old(self).free@.push(id),
    {
        self.objects.set(id as usize, Object { class: 0, fields: Vec::new(), native: None });
        self.free.push(id);
    }
}

/// A zero-filled vector of `n` copies of `x`.
pub fn filled<T: Copy>(x: T, n: usize) -> (r: Vec<T>)
    ensures
        r@.len() == n,
        forall|i: int| 0 <= i < n ==> r@[i] == x,
{
    let mut v: Vec<T> = Vec::new();
    let mut i: usize = 0;
    while i < n
        invariant
            i <= n,
            v@.len() == i,
            forall|k: int| 0 <= k < i ==> v@[k] == x,
        decreases n - i,
    {
        v.push(x);
        i += 1;
    }
    v
}

/// The array kind for element descriptor `desc`: a primitive kind for a
/// one-letter primitive descriptor, object elements otherwise.
pub open spec fn elem_kind(desc: Seq<char>) -> u8 {
    if desc.len() == 1 {
        if desc[0] == 'B' { 1 } else if desc[0] == 'C' { 2 } else if desc[0] == 'S' { 3 } else if desc[0] == 'I' { 4 }
        else if desc[0] == 'J' { 5 } else if desc[0] == 'F' { 6 } else if desc[0] == 'D' { 7 } else if desc[0] == 'Z' { 8 } else { 0 }
    } else {
        0
    }
}

/// The zero element of an array kind.
pub open spec fn zero_of_kind(k: u8) -> JValue {
    if k == 0 { JValue::Null } else if k == 5 { JValue::Long(0) } else if k == 6 { JValue::Float(0) }
    else if k == 7 { JValue::Double(0) } else { JValue::Int(0) }
}

impl ArrayData {
    /// A new array of `n` zero (or null) elements of descriptor `desc`.
    pub fn new(desc: &str, n: usize) -> (r: ArrayData)
        ensures
            array_len(r) == n,
            forall|i: int| 0 <= i < n ==> #[trigger] array_elem(r, i) == zero_of_kind(elem_kind(desc@)),
            elem_kind(desc@) == 0 ==> r is Obj,
            elem_kind(desc@) == 4 ==> r is Int,
            elem_kind(desc@) == 1 ==> r is Byte,
            elem_kind(desc@) == 2 ==> r is Char,
            elem_kind(desc@) == 3 ==> r is Short,
            elem_kind(desc@) == 5 ==> r is Long,
            elem_kind(desc@) == 6 ==> r is Float,
            elem_kind(desc@) == 7 ==> r is Double,
            elem_kind(desc@) == 8 ==> r is Bool,
    {
        let c = if desc.unicode_len() == 1 { desc.get_char(0) } else { 'L' };
        proof {
            if desc@.len() == 1 {
                assert(desc@[0] == c);
            }
        }
        match c {
            'B' => ArrayData::Byte(filled(0i8, n)),
            'C' => ArrayData::Char(filled(0u16, n)),
            'S' => ArrayData::Short(filled(0i16, n)),
            'I' => ArrayData::Int(filled(0i32, n)),
            'J' => ArrayData::Long(filled(0i64, n)),
            'F' => ArrayData::Float(filled(0u32, n)),
            'D' => ArrayData::Double(filled(0u64, n)),
            'Z' => ArrayData::Bool(filled(false, n)),
            _ => ArrayData::Obj(filled(JValue::Null, n)),
        }
    }
}

} // verus!
