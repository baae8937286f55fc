//! The id tables of a loaded dex file, as the VM consumes them.

use vstd::prelude::*;

use crate::class::CodeItem;
use crate::value::str_eq;

verus! {

#[derive(Debug, Clone)]
pub struct ProtoId {
    pub return_type: u32,
    pub params: Vec<u32>,
}

#[derive(Debug, Clone, Copy)]
pub struct FieldId {
    pub class: u32,
    pub ty: u32,
    pub name: u32,
}

#[derive(Debug, Clone, Copy)]
pub struct MethodId {
    pub class: u32,
    pub proto: u32,
    pub name: u32,
}

#[derive(Debug, Clone, Copy)]
pub struct EncodedField {
    pub field_idx: u32,
    pub access_flags: u32,
}

#[derive(Debug, Clone)]
pub struct EncodedMethod {
    pub method_idx: u32,
    pub access_flags: u32,
    pub code: Option<CodeItem>,
}

#[derive(Debug, Clone)]
pub struct ClassData {
    pub static_fields: Vec<EncodedField>,
    pub instance_fields: Vec<EncodedField>,
    pub direct_methods: Vec<EncodedMethod>,
    pub virtual_methods: Vec<EncodedMethod>,
}

/// A constant from a class's static-values list. Float and double constants
/// are held by their bit patterns.
#[derive(Debug, Clone, Copy)]
pub enum EncodedValue {
    Byte(i8),
    Short(i16),
    Char(u16),
    Int(i32),
    Long(i64),
    Float(u32),
    Double(u64),
    Bool(bool),
    Null,
    String(u32),
    Type(u32),
    Other,
}

#[derive(Debug, Clone)]
pub struct ClassDef {
    pub class_idx: u32,
    pub access_flags: u32,
    /// `u32::MAX` when the class has no superclass.
    pub superclass_idx: u32,
    pub interfaces: Vec<u32>,
    pub class_data: Option<ClassData>,
    pub static_values: Vec<EncodedValue>,
    /// Generic signature from the class's `Signature` annotation.
    pub generic_signature: Option<String>,
}

#[derive(Debug, Clone)]
pub struct DexFile {
    pub strings: Vec<String>,
    /// Type id -> string id of its descriptor.
    pub types: Vec<u32>,
    pub protos: Vec<ProtoId>,
    pub fields: Vec<FieldId>,
    pub methods: Vec<MethodId>,
    pub classes: Vec<ClassDef>,
}

impl DexFile {
    /// Every type id names a string.
    pub open spec fn wf(&self) -> bool {
        forall|t: int| 0 <= t < self.types@.len() ==> (self.types@[t] as int) < self.strings@.len()
    }

    /// The descriptor of type `t`, or the empty sequence when `t` is out of range.
    pub open spec fn type_desc(&self, t: u32) -> Seq<char> {
        if (t as int) < self.types@.len() && (self.types@[t as int] as int) < self.strings@.len() {
            self.strings@[self.types@[t as int] as int]@
        } else {
            Seq::empty()
        }
    }

    /// Descriptor string of type id `t` (empty when `t` is not a type id).
    pub fn type_descriptor(&self, t: u32) -> (r: &str)
        ensures
            r@ == self.type_desc(t),
    {
        if (t as usize) < self.types.len() && (self.types[t as usize] as usize) < self.strings.len() {
            self.strings[self.types[t as usize] as usize].as_str()
        } else {
            proof {
                reveal_strlit("");
            }
            ""
        }
    }

    /// Type id whose descriptor is `desc` (the first one).
    pub fn type_id_of(&self, desc: &str) -> (r: Option<u32>)
        ensures
            r matches Some(t) ==> self.type_desc(t) == desc@ && (t as int) < self.types@.len(),
            r is None ==> forall|t: u32| (t as int) < self.types@.len() ==> #[trigger] self.type_desc(t) != desc@,
    {
        let mut i: usize = 0;
        while i < self.types.len()
            invariant
                i <= self.types@.len(),
                forall|t: u32| (t as int) < i ==> #[trigger] self.type_desc(t) != desc@,
            decreases self.types@.len() - i,
        {
            if i > u32::MAX as usize {
                return None;
            }
            if str_eq(self.type_descriptor(i as u32), desc) {
                return Some(i as u32);
            }
            i += 1;
        }
        None
    }

    /// String `i` of the string table.
    pub fn string_at(&self, i: u32) -> (r: Option<&str>)
        ensures
            r matches Some(t) ==> (i as int) < self.strings@.len() && t@ == self.strings@[i as int]@,
            r is None ==> (i as int) >= self.strings@.len(),
    {
        if (i as usize) < self.strings.len() {
            Some(self.strings[i as usize].as_str())
        } else {
            None
        }
    }

    /// Entry `i` of the field table.
    pub fn field_at(&self, i: u32) -> (r: Option<FieldId>)
        ensures
            r matches Some(f) ==> (i as int) < self.fields@.len() && f == self.fields@[i as int],
            r is None ==> (i as int) >= self.fields@.len(),
    {
        if (i as usize) < self.fields.len() {
            Some(self.fields[i as usize])
        } else {
            None
        }
    }

    /// Entry `i` of the method table.
    pub fn method_at(&self, i: u32) -> (r: Option<MethodId>)
        ensures
            r matches Some(m) ==> (i as int) < self.methods@.len() && m == self.methods@[i as int],
            r is None ==> (i as int) >= self.methods@.len(),
    {
        if (i as usize) < self.methods.len() {
            Some(self.methods[i as usize])
        } else {
            None
        }
    }

    /// Index of the class definition whose type has descriptor `desc`.
    pub fn class_by_descriptor(&self, desc: &str) -> (r: Option<usize>)
        ensures
            r matches Some(k) ==> k < self.classes@.len() && self.type_desc(self.classes@[k as int].class_idx) == desc@
                && forall|j: int| 0 <= j < k ==> self.type_desc(self.classes@[j].class_idx) != desc@,
            r is None ==> forall|k: int| 0 <= k < self.classes@.len() ==> self.type_desc(self.classes@[k].class_idx) != desc@,
    {
        let mut i: usize = 0;
        while i < self.classes.len()
            invariant
                i <= self.classes@.len(),
                forall|k: int| 0 <= k < i ==> self.type_desc(self.classes@[k].class_idx) != desc@,
            decreases self.classes@.len() - i,
        {
            if str_eq(self.type_descriptor(self.classes[i].class_idx), desc) {
                return Some(i);
            }
            i += 1;
        }
        None
    }
}

} // verus!
