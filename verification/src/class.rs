//! Resolved classes, methods, and the shim-class registry.
//!
//! Shim classes supply the host-provided JVM surface (`java.lang.*`,
//! `java.util.*`, ...) that extension dex files reference but do not bundle.
//! A shim class has no bytecode: every method resolves to a native function.

use vstd::prelude::*;

use crate::insn::{FillArray, Insn, SwitchTable, TryItem};

use crate::value::{str_eq, JValue};

verus! {

pub const ACC_PUBLIC: u32 = 0x0001;
pub const ACC_PRIVATE: u32 = 0x0002;
pub const ACC_PROTECTED: u32 = 0x0004;
pub const ACC_STATIC: u32 = 0x0008;
pub const ACC_FINAL: u32 = 0x0010;
pub const ACC_NATIVE: u32 = 0x0100;
pub const ACC_INTERFACE: u32 = 0x0200;
pub const ACC_ABSTRACT: u32 = 0x0400;
pub const ACC_SYNTHETIC: u32 = 0x1000;
pub const ACC_ENUM: u32 = 0x4000;

/// The instructions of a bytecode method and the register layout it needs.
#[derive(Debug, Clone)]
pub struct CodeItem {
    pub registers_size: u16,
    pub ins_size: u16,
    pub outs_size: u16,
    /// The decoded instructions, in address order.
    pub insns: Vec<Insn>,
    /// Code-unit address of each instruction (ascending).
    pub units: Vec<u32>,
    /// Total length of the method in code units.
    pub words: u32,
    pub switches: Vec<SwitchTable>,
    pub arrays: Vec<FillArray>,
    pub tries: Vec<TryItem>,
}

#[derive(Debug, Clone)]
pub struct Method {
    /// Index into `Class::methods`.
    pub slot: u32,
    /// Owning class id.
    pub class: u32,
    /// Interned method name.
    pub name: u32,
    /// Interned full signature `(args)ret`, e.g. `(II)Ljava/lang/String;`.
    pub sig: u32,
    /// Interned return descriptor.
    pub ret: u32,
    /// Interned argument descriptors (excluding `this`).
    pub args: Vec<u32>,
    pub access_flags: u32,
    pub static_method: bool,
    /// Dex file (index into `Vm::dexes`) this method's bytecode/ids came from.
    pub dex_idx: u32,
    /// Present when this method is implemented natively.
    pub native_key: Option<(u32, u32, u32)>,
    /// Declared `native` in the dex (no code item, no JNI bridge).
    pub native_decl: bool,
    pub code: Option<CodeItem>,
}

impl Method {
    /// The method is implemented by a host native.
    pub fn is_native(&self) -> (r: bool)
        ensures
            r == (self.native_key is Some),
    {
        self.native_key.is_some()
    }
}

/// Lazily materialized static field values: those of shim classes (e.g.
/// `System.out`, `Integer.TYPE`) and the object constants of dex classes.
#[derive(Debug, Clone, Copy, PartialEq, Eq, Structural)]
pub enum ShimLazy {
    PrintStream,
    Locale,
    CharsetUtf8,
    CharsetIso,
    CharsetAscii,
    IntType,
    LongType,
    ShortType,
    ByteType,
    CharType,
    BoolType,
    FloatType,
    DoubleType,
    BoolTrue,
    BoolFalse,
    /// An opaque instance of the field's declared type.
    OpaqueInstance,
    /// A dex class's `String` constant: (dex index, string id).
    DexString(u32, u32),
    /// A dex class's `Class` constant: (dex index, type id).
    DexType(u32, u32),
}

#[derive(Debug, Clone, Copy)]
pub enum ShimValue {
    Const(JValue),
    Lazy(ShimLazy),
}

#[derive(Debug, Clone, Copy)]
pub struct ShimStaticDef {
    pub name: &'static str,
    pub ty: &'static str,
    pub value: ShimValue,
}

#[derive(Debug, Clone, Copy)]
pub struct ShimDef {
    pub desc: &'static str,
    pub super_desc: Option<&'static str>,
    pub interfaces: &'static [&'static str],
    pub flags: u32,
    pub statics: &'static [ShimStaticDef],
}

/// First value stored under `k` in an association list.
pub open spec fn pair_lookup<V>(s: Seq<((u32, u32), V)>, k: (u32, u32)) -> Option<V>
    decreases s.len(),
{
    if s.len() == 0 {
        None
    } else if s[0].0 == k {
        Some(s[0].1)
    } else {
        pair_lookup(s.drop_first(), k)
    }
}

proof fn lemma_pair_lookup_step<V>(s: Seq<((u32, u32), V)>, k: (u32, u32), i: int)
    requires
        0 <= i < s.len(),
        s[i].0 != k,
    ensures
        pair_lookup(s.subrange(i, s.len() as int), k) == pair_lookup(s.subrange(i + 1, s.len() as int), k),
{
    assert(s.subrange(i, s.len() as int).drop_first() =~= s.subrange(i + 1, s.len() as int));
}

/// Looks `k` up in an association list (first match wins).
pub fn pair_get<V: Copy>(s: &Vec<((u32, u32), V)>, k: (u32, u32)) -> (r: Option<V>)
    ensures
        r == pair_lookup(s@, k),
{
    let mut i: usize = 0;
    assert(s@.subrange(0, s@.len() as int) =~= s@);
    while i < s.len()
        invariant
            i <= s@.len(),
            pair_lookup(s@, k) == pair_lookup(s@.subrange(i as int, s@.len() as int), k),
        decreases s@.len() - i,
    {
        if s[i].0.0 == k.0 && s[i].0.1 == k.1 {
            return Some(s[i].1);
        }
        proof {
            lemma_pair_lookup_step(s@, k, i as int);
        }
        i += 1;
    }
    None
}

#[derive(Debug, Clone)]
pub struct Class {
    pub id: u32,
    /// Interned full descriptor (e.g. `Lcom/foo/Bar;` or `[I`).
    pub descriptor: u32,
    pub superclass: Option<u32>,
    pub interfaces: Vec<u32>,
    pub access_flags: u32,
    pub is_interface: bool,
    pub is_abstract: bool,
    /// For array classes: (dex index, element type id).
    pub array_elem: Option<(u32, u32)>,
    /// Instance fields in declaration order (walk order == offset):
    /// (name, type descriptor, access flags).
    pub instance_fields: Vec<(u32, u32, u32)>,
    /// (name, ty_desc) -> instance offset. Inherited fields are copied in.
    pub field_offsets: Vec<((u32, u32), u32)>,
    /// (name, ty_desc) -> (owning class id, offset in that class's `statics`).
    pub static_fields: Vec<((u32, u32), (u32, u32))>,
    /// Own static field values (offset == index).
    pub statics: Vec<JValue>,
    /// Lazy static materializers for shim classes.
    pub statics_lazy: Vec<Option<ShimLazy>>,
    /// 0 = uninitialized, 1 = initializing, 2 = initialized.
    pub clinit_state: u8,
    /// Cached `java.lang.Class` instance for this class (identity-stable).
    pub class_obj: Option<u32>,
    pub methods: Vec<Method>,
    /// (name, sig) -> slot into `methods`.
    pub dispatch: Vec<((u32, u32), u32)>,
}

/// Slot of the first static method named `name` among `ms`.
pub open spec fn first_static_named(ms: Seq<Method>, name: u32) -> Option<u32>
    decreases ms.len(),
{
    if ms.len() == 0 {
        None
    } else if ms[0].static_method && ms[0].name == name {
        Some(ms[0].slot)
    } else {
        first_static_named(ms.drop_first(), name)
    }
}

impl Class {
    /// A class with the given identity and no members.
    pub fn empty(id: u32, descriptor: u32) -> (r: Class)
        ensures
            r.id == id,
            r.descriptor == descriptor,
            r.superclass is None,
            r.interfaces@.len() == 0,
            r.array_elem is None,
            r.instance_fields@.len() == 0,
            r.field_offsets@.len() == 0,
            r.static_fields@.len() == 0,
            r.statics@.len() == 0,
            r.statics_lazy@.len() == 0,
            r.clinit_state == 0,
            r.class_obj is None,
            r.methods@.len() == 0,
            r.dispatch@.len() == 0,
            r.access_flags == 0,
            !r.is_interface,
            !r.is_abstract,
    {
        Class {
            id,
            descriptor,
            superclass: None,
            interfaces: Vec::new(),
            access_flags: 0,
            is_interface: false,
            is_abstract: false,
            array_elem: None,
            instance_fields: Vec::new(),
            field_offsets: Vec::new(),
            static_fields: Vec::new(),
            statics: Vec::new(),
            statics_lazy: Vec::new(),
            clinit_state: 0,
            class_obj: None,
            methods: Vec::new(),
            dispatch: Vec::new(),
        }
    }

    /// Find the `<clinit>` static initializer slot (if any). `clinit_name`
    /// must be the VM-interned id of `"<clinit>"`.
    pub fn clinit_slot(&self, clinit_name: u32) -> (r: Option<u32>)
        ensures
            r == first_static_named(self.methods@, clinit_name),
    {
        let mut i: usize = 0;
        assert(self.methods@.subrange(0, self.methods@.len() as int) =~= self.methods@);
        while i < self.methods.len()
            invariant
                i <= self.methods@.len(),
                first_static_named(self.methods@, clinit_name) == first_static_named(
                    self.methods@.subrange(i as int, self.methods@.len() as int),
                    clinit_name,
                ),
            decreases self.methods@.len() - i,
        {
            let m = &self.methods[i];
            if m.static_method && m.name == clinit_name {
                return Some(m.slot);
            }
            assert(self.methods@.subrange(i as int, self.methods@.len() as int).drop_first()
                =~= self.methods@.subrange(i + 1, self.methods@.len() as int));
            i += 1;
        }
        None
    }
}

/// Shim class definitions, part 0.
pub open spec fn shim_part_0() -> Seq<ShimDef> {
    seq![
        ShimDef { desc: "Ljava/lang/Object;", super_desc: None, interfaces: &[], flags: 0, statics: &[] },
        ShimDef { desc: "Ljava/io/Serializable;", super_desc: None, interfaces: &[], flags: ACC_INTERFACE | ACC_ABSTRACT, statics: &[] },
        ShimDef { desc: "Ljava/lang/Cloneable;", super_desc: None, interfaces: &[], flags: ACC_INTERFACE | ACC_ABSTRACT, statics: &[] },
        ShimDef { desc: "Ljava/lang/Comparable;", super_desc: None, interfaces: &[], flags: ACC_INTERFACE | ACC_ABSTRACT, statics: &[] },
        ShimDef { desc: "Ljava/lang/CharSequence;", super_desc: None, interfaces: &[], flags: ACC_INTERFACE | ACC_ABSTRACT, statics: &[] },
        ShimDef { desc: "Ljava/lang/Iterable;", super_desc: None, interfaces: &[], flags: ACC_INTERFACE | ACC_ABSTRACT, statics: &[] },
        ShimDef { desc: "Ljava/lang/reflect/AccessibleObject;", super_desc: Some("Ljava/lang/Object;"), interfaces: &[], flags: ACC_PUBLIC | ACC_ABSTRACT, statics: &[] },
        ShimDef { desc: "Ljava/lang/reflect/Field;", super_desc: Some("Ljava/lang/reflect/AccessibleObject;"), interfaces: &[], flags: ACC_PUBLIC, statics: &[] },
        ShimDef { desc: "Leu/kanade/tachiyomi/source/SourceFactory;", super_desc: None, interfaces: &[], flags: ACC_INTERFACE | ACC_ABSTRACT, statics: &[] },
        ShimDef { desc: "Leu/kanade/tachiyomi/source/Source;", super_desc: None, interfaces: &[], flags: ACC_INTERFACE | ACC_ABSTRACT, statics: &[] },
        ShimDef { desc: "Leu/kanade/tachiyomi/source/ConfigurableSource;", super_desc: Some("Leu/kanade/tachiyomi/source/Source;"), interfaces: &[], flags: ACC_INTERFACE | ACC_ABSTRACT, statics: &[] },
        ShimDef { desc: "Leu/kanade/tachiyomi/source/online/HttpSource;", super_desc: Some("Ljava/lang/Object;"), interfaces: &[], flags: 0, statics: &[] },
        ShimDef { desc: "Leu/kanade/tachiyomi/network/NetworkHelper;", super_desc: Some("Ljava/lang/Object;"), interfaces: &[], flags: 0, statics: &[] },
        ShimDef { desc: "Leu/kanade/tachiyomi/source/model/SManga;", super_desc: Some("Ljava/lang/Object;"), interfaces: &[], flags: 0, statics: &[ShimStaticDef { name: "Companion", ty: "Leu/kanade/tachiyomi/source/model/SManga$Companion;", value: ShimValue::Lazy(ShimLazy::OpaqueInstance) }] },
        ShimDef { desc: "Leu/kanade/tachiyomi/source/model/SManga$Companion;", super_desc: Some("Ljava/lang/Object;"), interfaces: &[], flags: 0, statics: &[] },
        ShimDef { desc: "Leu/kanade/tachiyomi/source/model/SChapter;", super_desc: Some("Ljava/lang/Object;"), interfaces: &[], flags: 0, statics: &[ShimStaticDef { name: "Companion", ty: "Leu/kanade/tachiyomi/source/model/SChapter$Companion;", value: ShimValue::Lazy(ShimLazy::OpaqueInstance) }] },
        ShimDef { desc: "Leu/kanade/tachiyomi/source/model/SChapter$Companion;", super_desc: Some("Ljava/lang/Object;"), interfaces: &[], flags: 0, statics: &[] },
        ShimDef { desc: "Leu/kanade/tachiyomi/source/model/Page;", super_desc: Some("Ljava/lang/Object;"), interfaces: &[], flags: 0, statics: &[] },
        ShimDef { desc: "Leu/kanade/tachiyomi/source/model/MangasPage;", super_desc: Some("Ljava/lang/Object;"), interfaces: &[], flags: 0, statics: &[] },
        ShimDef { desc: "Leu/kanade/tachiyomi/source/model/FilterList;", super_desc: Some("Ljava/lang/Object;"), interfaces: &[], flags: 0, statics: &[] },
        ShimDef { desc: "Leu/kanade/tachiyomi/source/model/Filter;", super_desc: Some("Ljava/lang/Object;"), interfaces: &[], flags: 0, statics: &[] },
        ShimDef { desc: "Leu/kanade/tachiyomi/source/model/Filter$Header;", super_desc: Some("Leu/kanade/tachiyomi/source/model/Filter;"), interfaces: &[], flags: 0, statics: &[] },
        ShimDef { desc: "Leu/kanade/tachiyomi/source/model/Filter$Separator;", super_desc: Some("Leu/kanade/tachiyomi/source/model/Filter;"), interfaces: &[], flags: 0, statics: &[] },
        ShimDef { desc: "Leu/kanade/tachiyomi/source/model/Filter$Select;", super_desc: Some("Leu/kanade/tachiyomi/source/model/Filter;"), interfaces: &[], flags: 0, statics: &[] },
        ShimDef { desc: "Leu/kanade/tachiyomi/source/model/Filter$CheckBox;", super_desc: Some("Leu/kanade/tachiyomi/source/model/Filter;"), interfaces: &[], flags: 0, statics: &[] },
        ShimDef { desc: "Leu/kanade/tachiyomi/source/model/Filter$Sort;", super_desc: Some("Leu/kanade/tachiyomi/source/model/Filter;"), interfaces: &[], flags: 0, statics: &[] },
        ShimDef { desc: "Leu/kanade/tachiyomi/source/model/Filter$Text;", super_desc: Some("Leu/kanade/tachiyomi/source/model/Filter;"), interfaces: &[], flags: 0, statics: &[] },
        ShimDef { desc: "Leu/kanade/tachiyomi/source/model/Filter$TriState;", super_desc: Some("Leu/kanade/tachiyomi/source/model/Filter;"), interfaces: &[], flags: 0, statics: &[] },
        ShimDef { desc: "Leu/kanade/tachiyomi/source/model/Filter$Group;", super_desc: Some("Leu/kanade/tachiyomi/source/model/Filter;"), interfaces: &[], flags: 0, statics: &[] },
        ShimDef { desc: "Leu/kanade/tachiyomi/source/model/UpdateStrategy;", super_desc: Some("Ljava/lang/Enum;"), interfaces: &[], flags: 0, statics: &[ShimStaticDef { name: "ONLY_FETCH_ONCE", ty: "Leu/kanade/tachiyomi/source/model/UpdateStrategy;", value: ShimValue::Lazy(ShimLazy::OpaqueInstance) }] },
    ]
}

fn shim_classes_0() -> (r: Vec<ShimDef>)
    ensures
        r@ == shim_part_0(),
{
    let mut v: Vec<ShimDef> = Vec::new();
    v.push(ShimDef { desc: "Ljava/lang/Object;", super_desc: None, interfaces: &[], flags: 0, statics: &[] });
    v.push(ShimDef { desc: "Ljava/io/Serializable;", super_desc: None, interfaces: &[], flags: ACC_INTERFACE | ACC_ABSTRACT, statics: &[] });
    v.push(ShimDef { desc: "Ljava/lang/Cloneable;", super_desc: None, interfaces: &[], flags: ACC_INTERFACE | ACC_ABSTRACT, statics: &[] });
    v.push(ShimDef { desc: "Ljava/lang/Comparable;", super_desc: None, interfaces: &[], flags: ACC_INTERFACE | ACC_ABSTRACT, statics: &[] });
    v.push(ShimDef { desc: "Ljava/lang/CharSequence;", super_desc: None, interfaces: &[], flags: ACC_INTERFACE | ACC_ABSTRACT, statics: &[] });
    v.push(ShimDef { desc: "Ljava/lang/Iterable;", super_desc: None, interfaces: &[], flags: ACC_INTERFACE | ACC_ABSTRACT, statics: &[] });
    v.push(ShimDef { desc: "Ljava/lang/reflect/AccessibleObject;", super_desc: Some("Ljava/lang/Object;"), interfaces: &[], flags: ACC_PUBLIC | ACC_ABSTRACT, statics: &[] });
    v.push(ShimDef { desc: "Ljava/lang/reflect/Field;", super_desc: Some("Ljava/lang/reflect/AccessibleObject;"), interfaces: &[], flags: ACC_PUBLIC, statics: &[] });
    v.push(ShimDef { desc: "Leu/kanade/tachiyomi/source/SourceFactory;", super_desc: None, interfaces: &[], flags: ACC_INTERFACE | ACC_ABSTRACT, statics: &[] });
    v.push(ShimDef { desc: "Leu/kanade/tachiyomi/source/Source;", super_desc: None, interfaces: &[], flags: ACC_INTERFACE | ACC_ABSTRACT, statics: &[] });
    v.push(ShimDef { desc: "Leu/kanade/tachiyomi/source/ConfigurableSource;", super_desc: Some("Leu/kanade/tachiyomi/source/Source;"), interfaces: &[], flags: ACC_INTERFACE | ACC_ABSTRACT, statics: &[] });
    v.push(ShimDef { desc: "Leu/kanade/tachiyomi/source/online/HttpSource;", super_desc: Some("Ljava/lang/Object;"), interfaces: &[], flags: 0, statics: &[] });
    v.push(ShimDef { desc: "Leu/kanade/tachiyomi/network/NetworkHelper;", super_desc: Some("Ljava/lang/Object;"), interfaces: &[], flags: 0, statics: &[] });
    v.push(ShimDef { desc: "Leu/kanade/tachiyomi/source/model/SManga;", super_desc: Some("Ljava/lang/Object;"), interfaces: &[], flags: 0, statics: &[ShimStaticDef { name: "Companion", ty: "Leu/kanade/tachiyomi/source/model/SManga$Companion;", value: ShimValue::Lazy(ShimLazy::OpaqueInstance) }] });
    v.push(ShimDef { desc: "Leu/kanade/tachiyomi/source/model/SManga$Companion;", super_desc: Some("Ljava/lang/Object;"), interfaces: &[], flags: 0, statics: &[] });
    v.push(ShimDef { desc: "Leu/kanade/tachiyomi/source/model/SChapter;", super_desc: Some("Ljava/lang/Object;"), interfaces: &[], flags: 0, statics: &[ShimStaticDef { name: "Companion", ty: "Leu/kanade/tachiyomi/source/model/SChapter$Companion;", value: ShimValue::Lazy(ShimLazy::OpaqueInstance) }] });
    v.push(ShimDef { desc: "Leu/kanade/tachiyomi/source/model/SChapter$Companion;", super_desc: Some("Ljava/lang/Object;"), interfaces: &[], flags: 0, statics: &[] });
    v.push(ShimDef { desc: "Leu/kanade/tachiyomi/source/model/Page;", super_desc: Some("Ljava/lang/Object;"), interfaces: &[], flags: 0, statics: &[] });
    v.push(ShimDef { desc: "Leu/kanade/tachiyomi/source/model/MangasPage;", super_desc: Some("Ljava/lang/Object;"), interfaces: &[], flags: 0, statics: &[] });
    v.push(ShimDef { desc: "Leu/kanade/tachiyomi/source/model/FilterList;", super_desc: Some("Ljava/lang/Object;"), interfaces: &[], flags: 0, statics: &[] });
    v.push(ShimDef { desc: "Leu/kanade/tachiyomi/source/model/Filter;", super_desc: Some("Ljava/lang/Object;"), interfaces: &[], flags: 0, statics: &[] });
    v.push(ShimDef { desc: "Leu/kanade/tachiyomi/source/model/Filter$Header;", super_desc: Some("Leu/kanade/tachiyomi/source/model/Filter;"), interfaces: &[], flags: 0, statics: &[] });
    v.push(ShimDef { desc: "Leu/kanade/tachiyomi/source/model/Filter$Separator;", super_desc: Some("Leu/kanade/tachiyomi/source/model/Filter;"), interfaces: &[], flags: 0, statics: &[] });
    v.push(ShimDef { desc: "Leu/kanade/tachiyomi/source/model/Filter$Select;", super_desc: Some("Leu/kanade/tachiyomi/source/model/Filter;"), interfaces: &[], flags: 0, statics: &[] });
    v.push(ShimDef { desc: "Leu/kanade/tachiyomi/source/model/Filter$CheckBox;", super_desc: Some("Leu/kanade/tachiyomi/source/model/Filter;"), interfaces: &[], flags: 0, statics: &[] });
    v.push(ShimDef { desc: "Leu/kanade/tachiyomi/source/model/Filter$Sort;", super_desc: Some("Leu/kanade/tachiyomi/source/model/Filter;"), interfaces: &[], flags: 0, statics: &[] });
    v.push(ShimDef { desc: "Leu/kanade/tachiyomi/source/model/Filter$Text;", super_desc: Some("Leu/kanade/tachiyomi/source/model/Filter;"), interfaces: &[], flags: 0, statics: &[] });
    v.push(ShimDef { desc: "Leu/kanade/tachiyomi/source/model/Filter$TriState;", super_desc: Some("Leu/kanade/tachiyomi/source/model/Filter;"), interfaces: &[], flags: 0, statics: &[] });
    v.push(ShimDef { desc: "Leu/kanade/tachiyomi/source/model/Filter$Group;", super_desc: Some("Leu/kanade/tachiyomi/source/model/Filter;"), interfaces: &[], flags: 0, statics: &[] });
    v.push(ShimDef { desc: "Leu/kanade/tachiyomi/source/model/UpdateStrategy;", super_desc: Some("Ljava/lang/Enum;"), interfaces: &[], flags: 0, statics: &[ShimStaticDef { name: "ONLY_FETCH_ONCE", ty: "Leu/kanade/tachiyomi/source/model/UpdateStrategy;", value: ShimValue::Lazy(ShimLazy::OpaqueInstance) }] });
    proof {
        assert(v@ =~= shim_part_0());
    }
    v
}

/// Shim class definitions, part 1.
pub open spec fn shim_part_1() -> Seq<ShimDef> {
    seq![
        ShimDef { desc: "Leu/kanade/tachiyomi/util/JsoupExtensionsKt;", super_desc: Some("Ljava/lang/Object;"), interfaces: &[], flags: 0, statics: &[] },
        ShimDef { desc: "Lkotlin/text/StringsKt;", super_desc: Some("Ljava/lang/Object;"), interfaces: &[], flags: 0, statics: &[] },
        ShimDef { desc: "Lkotlin/text/Charsets;", super_desc: Some("Ljava/lang/Object;"), interfaces: &[], flags: 0, statics: &[ShimStaticDef { name: "UTF_8", ty: "Ljava/nio/charset/Charset;", value: ShimValue::Lazy(ShimLazy::CharsetUtf8) }, ShimStaticDef { name: "ISO_8859_1", ty: "Ljava/nio/charset/Charset;", value: ShimValue::Lazy(ShimLazy::CharsetIso) }, ShimStaticDef { name: "US_ASCII", ty: "Ljava/nio/charset/Charset;", value: ShimValue::Lazy(ShimLazy::CharsetAscii) }] },
        ShimDef { desc: "Lorg/jsoup/Jsoup;", super_desc: Some("Ljava/lang/Object;"), interfaces: &[], flags: 0, statics: &[] },
        ShimDef { desc: "Lorg/jsoup/nodes/Document;", super_desc: Some("Lorg/jsoup/nodes/Element;"), interfaces: &[], flags: 0, statics: &[] },
        ShimDef { desc: "Lorg/jsoup/nodes/Element;", super_desc: Some("Ljava/lang/Object;"), interfaces: &[], flags: 0, statics: &[] },
        ShimDef { desc: "Lorg/jsoup/select/Elements;", super_desc: Some("Ljava/util/AbstractCollection;"), interfaces: &[], flags: 0, statics: &[] },
        ShimDef { desc: "Lokhttp3/Interceptor;", super_desc: None, interfaces: &[], flags: ACC_INTERFACE | ACC_ABSTRACT, statics: &[] },
        ShimDef { desc: "Lokhttp3/Interceptor$Chain;", super_desc: None, interfaces: &[], flags: ACC_INTERFACE | ACC_ABSTRACT, statics: &[] },
        ShimDef { desc: "Lokhttp3/OkHttpClient;", super_desc: Some("Ljava/lang/Object;"), interfaces: &["Ljava/io/Closeable;", "Ljava/lang/Cloneable;"], flags: 0, statics: &[] },
        ShimDef { desc: "Lokhttp3/OkHttpClient$Builder;", super_desc: Some("Ljava/lang/Object;"), interfaces: &[], flags: 0, statics: &[] },
        ShimDef { desc: "Leu/kanade/tachiyomi/network/interceptor/UncaughtExceptionInterceptor;", super_desc: Some("Lokhttp3/Interceptor;"), interfaces: &[], flags: 0, statics: &[] },
        ShimDef { desc: "Leu/kanade/tachiyomi/network/interceptor/UserAgentInterceptor;", super_desc: Some("Lokhttp3/Interceptor;"), interfaces: &[], flags: 0, statics: &[] },
        ShimDef { desc: "Leu/kanade/tachiyomi/network/interceptor/CloudflareInterceptor;", super_desc: Some("Lokhttp3/Interceptor;"), interfaces: &[], flags: 0, statics: &[] },
        ShimDef { desc: "Lokhttp3/CompressionInterceptor;", super_desc: Some("Lokhttp3/Interceptor;"), interfaces: &[], flags: 0, statics: &[] },
        ShimDef { desc: "Lokhttp3/CompressionInterceptor$DecompressionAlgorithm;", super_desc: None, interfaces: &[], flags: 0, statics: &[] },
        ShimDef { desc: "Lokhttp3/brotli/BrotliInterceptor;", super_desc: Some("Lokhttp3/Interceptor;"), interfaces: &[], flags: 0, statics: &[] },
        ShimDef { desc: "Lokhttp3/brotli/Brotli;", super_desc: Some("Ljava/lang/Object;"), interfaces: &[], flags: 0, statics: &[ShimStaticDef { name: "INSTANCE", ty: "Lokhttp3/brotli/Brotli;", value: ShimValue::Lazy(ShimLazy::OpaqueInstance) }] },
        ShimDef { desc: "Lokhttp3/Gzip;", super_desc: Some("Ljava/lang/Object;"), interfaces: &[], flags: 0, statics: &[ShimStaticDef { name: "INSTANCE", ty: "Lokhttp3/Gzip;", value: ShimValue::Lazy(ShimLazy::OpaqueInstance) }] },
        ShimDef { desc: "Lokhttp3/zstd/Zstd;", super_desc: Some("Ljava/lang/Object;"), interfaces: &[], flags: 0, statics: &[ShimStaticDef { name: "INSTANCE", ty: "Lokhttp3/zstd/Zstd;", value: ShimValue::Lazy(ShimLazy::OpaqueInstance) }] },
        ShimDef { desc: "Lokhttp3/FormBody;", super_desc: Some("Ljava/lang/Object;"), interfaces: &[], flags: 0, statics: &[] },
        ShimDef { desc: "Lokio/Okio;", super_desc: Some("Ljava/lang/Object;"), interfaces: &[], flags: 0, statics: &[] },
        ShimDef { desc: "Lokio/Source;", super_desc: None, interfaces: &["Ljava/io/Closeable;"], flags: ACC_INTERFACE | ACC_ABSTRACT, statics: &[] },
        ShimDef { desc: "Lokio/BufferedSource;", super_desc: None, interfaces: &["Lokio/Source;", "Ljava/io/Closeable;"], flags: ACC_INTERFACE | ACC_ABSTRACT, statics: &[] },
        ShimDef { desc: "Lokio/Buffer;", super_desc: Some("Ljava/lang/Object;"), interfaces: &["Lokio/BufferedSource;", "Ljava/io/Closeable;"], flags: 0, statics: &[] },
        ShimDef { desc: "Lokio/ByteString;", super_desc: Some("Ljava/lang/Object;"), interfaces: &[], flags: 0, statics: &[] },
        ShimDef { desc: "Lokio/ByteStreams;", super_desc: Some("Ljava/lang/Object;"), interfaces: &[], flags: 0, statics: &[] },
        ShimDef { desc: "Lokio/ByteStreamsKt;", super_desc: Some("Ljava/lang/Object;"), interfaces: &[], flags: 0, statics: &[] },
        ShimDef { desc: "Lokhttp3/FormBody$Builder;", super_desc: Some("Ljava/lang/Object;"), interfaces: &[], flags: 0, statics: &[] },
        ShimDef { desc: "Lokhttp3/HttpUrl;", super_desc: Some("Ljava/lang/Object;"), interfaces: &[], flags: 0, statics: &[ShimStaticDef { name: "Companion", ty: "Lokhttp3/HttpUrl$Companion;", value: ShimValue::Lazy(ShimLazy::OpaqueInstance) }] },
    ]
}

fn shim_classes_1() -> (r: Vec<ShimDef>)
    ensures
        r@ == shim_part_1(),
{
    let mut v: Vec<ShimDef> = Vec::new();
    v.push(ShimDef { desc: "Leu/kanade/tachiyomi/util/JsoupExtensionsKt;", super_desc: Some("Ljava/lang/Object;"), interfaces: &[], flags: 0, statics: &[] });
    v.push(ShimDef { desc: "Lkotlin/text/StringsKt;", super_desc: Some("Ljava/lang/Object;"), interfaces: &[], flags: 0, statics: &[] });
    v.push(ShimDef { desc: "Lkotlin/text/Charsets;", super_desc: Some("Ljava/lang/Object;"), interfaces: &[], flags: 0, statics: &[ShimStaticDef { name: "UTF_8", ty: "Ljava/nio/charset/Charset;", value: ShimValue::Lazy(ShimLazy::CharsetUtf8) }, ShimStaticDef { name: "ISO_8859_1", ty: "Ljava/nio/charset/Charset;", value: ShimValue::Lazy(ShimLazy::CharsetIso) }, ShimStaticDef { name: "US_ASCII", ty: "Ljava/nio/charset/Charset;", value: ShimValue::Lazy(ShimLazy::CharsetAscii) }] });
    v.push(ShimDef { desc: "Lorg/jsoup/Jsoup;", super_desc: Some("Ljava/lang/Object;"), interfaces: &[], flags: 0, statics: &[] });
    v.push(ShimDef { desc: "Lorg/jsoup/nodes/Document;", super_desc: Some("Lorg/jsoup/nodes/Element;"), interfaces: &[], flags: 0, statics: &[] });
    v.push(ShimDef { desc: "Lorg/jsoup/nodes/Element;", super_desc: Some("Ljava/lang/Object;"), interfaces: &[], flags: 0, statics: &[] });
    v.push(ShimDef { desc: "Lorg/jsoup/select/Elements;", super_desc: Some("Ljava/util/AbstractCollection;"), interfaces: &[], flags: 0, statics: &[] });
    v.push(ShimDef { desc: "Lokhttp3/Interceptor;", super_desc: None, interfaces: &[], flags: ACC_INTERFACE | ACC_ABSTRACT, statics: &[] });
    v.push(ShimDef { desc: "Lokhttp3/Interceptor$Chain;", super_desc: None, interfaces: &[], flags: ACC_INTERFACE | ACC_ABSTRACT, statics: &[] });
    v.push(ShimDef { desc: "Lokhttp3/OkHttpClient;", super_desc: Some("Ljava/lang/Object;"), interfaces: &["Ljava/io/Closeable;", "Ljava/lang/Cloneable;"], flags: 0, statics: &[] });
    v.push(ShimDef { desc: "Lokhttp3/OkHttpClient$Builder;", super_desc: Some("Ljava/lang/Object;"), interfaces: &[], flags: 0, statics: &[] });
    v.push(ShimDef { desc: "Leu/kanade/tachiyomi/network/interceptor/UncaughtExceptionInterceptor;", super_desc: Some("Lokhttp3/Interceptor;"), interfaces: &[], flags: 0, statics: &[] });
    v.push(ShimDef { desc: "Leu/kanade/tachiyomi/network/interceptor/UserAgentInterceptor;", super_desc: Some("Lokhttp3/Interceptor;"), interfaces: &[], flags: 0, statics: &[] });
    v.push(ShimDef { desc: "Leu/kanade/tachiyomi/network/interceptor/CloudflareInterceptor;", super_desc: Some("Lokhttp3/Interceptor;"), interfaces: &[], flags: 0, statics: &[] });
    v.push(ShimDef { desc: "Lokhttp3/CompressionInterceptor;", super_desc: Some("Lokhttp3/Interceptor;"), interfaces: &[], flags: 0, statics: &[] });
    v.push(ShimDef { desc: "Lokhttp3/CompressionInterceptor$DecompressionAlgorithm;", super_desc: None, interfaces: &[], flags: 0, statics: &[] });
    v.push(ShimDef { desc: "Lokhttp3/brotli/BrotliInterceptor;", super_desc: Some("Lokhttp3/Interceptor;"), interfaces: &[], flags: 0, statics: &[] });
    v.push(ShimDef { desc: "Lokhttp3/brotli/Brotli;", super_desc: Some("Ljava/lang/Object;"), interfaces: &[], flags: 0, statics: &[ShimStaticDef { name: "INSTANCE", ty: "Lokhttp3/brotli/Brotli;", value: ShimValue::Lazy(ShimLazy::OpaqueInstance) }] });
    v.push(ShimDef { desc: "Lokhttp3/Gzip;", super_desc: Some("Ljava/lang/Object;"), interfaces: &[], flags: 0, statics: &[ShimStaticDef { name: "INSTANCE", ty: "Lokhttp3/Gzip;", value: ShimValue::Lazy(ShimLazy::OpaqueInstance) }] });
    v.push(ShimDef { desc: "Lokhttp3/zstd/Zstd;", super_desc: Some("Ljava/lang/Object;"), interfaces: &[], flags: 0, statics: &[ShimStaticDef { name: "INSTANCE", ty: "Lokhttp3/zstd/Zstd;", value: ShimValue::Lazy(ShimLazy::OpaqueInstance) }] });
    v.push(ShimDef { desc: "Lokhttp3/FormBody;", super_desc: Some("Ljava/lang/Object;"), interfaces: &[], flags: 0, statics: &[] });
    v.push(ShimDef { desc: "Lokio/Okio;", super_desc: Some("Ljava/lang/Object;"), interfaces: &[], flags: 0, statics: &[] });
    v.push(ShimDef { desc: "Lokio/Source;", super_desc: None, interfaces: &["Ljava/io/Closeable;"], flags: ACC_INTERFACE | ACC_ABSTRACT, statics: &[] });
    v.push(ShimDef { desc: "Lokio/BufferedSource;", super_desc: None, interfaces: &["Lokio/Source;", "Ljava/io/Closeable;"], flags: ACC_INTERFACE | ACC_ABSTRACT, statics: &[] });
    v.push(ShimDef { desc: "Lokio/Buffer;", super_desc: Some("Ljava/lang/Object;"), interfaces: &["Lokio/BufferedSource;", "Ljava/io/Closeable;"], flags: 0, statics: &[] });
    v.push(ShimDef { desc: "Lokio/ByteString;", super_desc: Some("Ljava/lang/Object;"), interfaces: &[], flags: 0, statics: &[] });
    v.push(ShimDef { desc: "Lokio/ByteStreams;", super_desc: Some("Ljava/lang/Object;"), interfaces: &[], flags: 0, statics: &[] });
    v.push(ShimDef { desc: "Lokio/ByteStreamsKt;", super_desc: Some("Ljava/lang/Object;"), interfaces: &[], flags: 0, statics: &[] });
    v.push(ShimDef { desc: "Lokhttp3/FormBody$Builder;", super_desc: Some("Ljava/lang/Object;"), interfaces: &[], flags: 0, statics: &[] });
    v.push(ShimDef { desc: "Lokhttp3/HttpUrl;", super_desc: Some("Ljava/lang/Object;"), interfaces: &[], flags: 0, statics: &[ShimStaticDef { name: "Companion", ty: "Lokhttp3/HttpUrl$Companion;", value: ShimValue::Lazy(ShimLazy::OpaqueInstance) }] });
    proof {
        assert(v@ =~= shim_part_1());
    }
    v
}

/// Shim class definitions, part 2.
pub open spec fn shim_part_2() -> Seq<ShimDef> {
    seq![
        ShimDef { desc: "Lokhttp3/HttpUrl$Companion;", super_desc: Some("Ljava/lang/Object;"), interfaces: &[], flags: 0, statics: &[] },
        ShimDef { desc: "Lokhttp3/HttpUrl$Builder;", super_desc: Some("Ljava/lang/Object;"), interfaces: &[], flags: 0, statics: &[] },
        ShimDef { desc: "Lokhttp3/MediaType;", super_desc: Some("Ljava/lang/Object;"), interfaces: &[], flags: 0, statics: &[ShimStaticDef { name: "Companion", ty: "Lokhttp3/MediaType$Companion;", value: ShimValue::Lazy(ShimLazy::OpaqueInstance) }] },
        ShimDef { desc: "Lokhttp3/MediaType$Companion;", super_desc: Some("Ljava/lang/Object;"), interfaces: &[], flags: 0, statics: &[] },
        ShimDef { desc: "Lokhttp3/Headers;", super_desc: Some("Ljava/lang/Object;"), interfaces: &[], flags: 0, statics: &[] },
        ShimDef { desc: "Lokhttp3/RequestBody;", super_desc: Some("Ljava/lang/Object;"), interfaces: &[], flags: 0, statics: &[] },
        ShimDef { desc: "Lokhttp3/CacheControl;", super_desc: Some("Ljava/lang/Object;"), interfaces: &[], flags: 0, statics: &[] },
        ShimDef { desc: "Lokhttp3/Request$Builder;", super_desc: Some("Ljava/lang/Object;"), interfaces: &[], flags: 0, statics: &[] },
        ShimDef { desc: "Lokhttp3/Request;", super_desc: Some("Ljava/lang/Object;"), interfaces: &[], flags: 0, statics: &[] },
        ShimDef { desc: "Lokhttp3/Call;", super_desc: Some("Ljava/lang/Object;"), interfaces: &[], flags: 0, statics: &[] },
        ShimDef { desc: "Lokhttp3/Response;", super_desc: Some("Ljava/lang/Object;"), interfaces: &[], flags: 0, statics: &[] },
        ShimDef { desc: "Lokhttp3/ResponseBody;", super_desc: Some("Ljava/lang/Object;"), interfaces: &[], flags: 0, statics: &[] },
        ShimDef { desc: "Leu/kanade/tachiyomi/network/RequestsKt;", super_desc: Some("Ljava/lang/Object;"), interfaces: &[], flags: 0, statics: &[] },
        ShimDef { desc: "Landroid/content/Context;", super_desc: None, interfaces: &[], flags: ACC_INTERFACE | ACC_ABSTRACT, statics: &[] },
        ShimDef { desc: "Landroid/content/ContextWrapper;", super_desc: Some("Landroid/content/Context;"), interfaces: &[], flags: 0, statics: &[] },
        ShimDef { desc: "Landroid/app/Activity;", super_desc: Some("Landroid/content/ContextWrapper;"), interfaces: &[], flags: 0, statics: &[] },
        ShimDef { desc: "Landroid/app/Application;", super_desc: Some("Landroid/content/ContextWrapper;"), interfaces: &[], flags: 0, statics: &[] },
        ShimDef { desc: "Landroid/content/ActivityNotFoundException;", super_desc: Some("Ljava/lang/RuntimeException;"), interfaces: &[], flags: 0, statics: &[] },
        ShimDef { desc: "Landroid/content/Intent;", super_desc: Some("Ljava/lang/Object;"), interfaces: &[], flags: 0, statics: &[] },
        ShimDef { desc: "Landroid/content/SharedPreferences;", super_desc: None, interfaces: &[], flags: ACC_INTERFACE | ACC_ABSTRACT, statics: &[] },
        ShimDef { desc: "Landroid/net/Uri;", super_desc: Some("Ljava/lang/Object;"), interfaces: &[], flags: 0, statics: &[] },
        ShimDef { desc: "Landroid/os/Bundle;", super_desc: Some("Ljava/lang/Object;"), interfaces: &[], flags: 0, statics: &[] },
        ShimDef { desc: "Landroid/os/SystemClock;", super_desc: Some("Ljava/lang/Object;"), interfaces: &[], flags: 0, statics: &[] },
        ShimDef { desc: "Landroid/util/Log;", super_desc: Some("Ljava/lang/Object;"), interfaces: &[], flags: 0, statics: &[] },
        ShimDef { desc: "Landroid/webkit/CookieManager;", super_desc: Some("Ljava/lang/Object;"), interfaces: &[], flags: 0, statics: &[] },
        ShimDef { desc: "Landroidx/preference/Preference;", super_desc: Some("Ljava/lang/Object;"), interfaces: &[], flags: 0, statics: &[] },
        ShimDef { desc: "Landroidx/preference/PreferenceScreen;", super_desc: Some("Landroidx/preference/Preference;"), interfaces: &[], flags: 0, statics: &[] },
        ShimDef { desc: "Landroidx/preference/SwitchPreferenceCompat;", super_desc: Some("Landroidx/preference/Preference;"), interfaces: &[], flags: 0, statics: &[] },
        ShimDef { desc: "Ljava/lang/String;", super_desc: Some("Ljava/lang/Object;"), interfaces: &[ "Ljava/io/Serializable;", "Ljava/lang/Comparable;", "Ljava/lang/CharSequence;" ], flags: 0, statics: &[] },
        ShimDef { desc: "Ljava/lang/StringBuilder;", super_desc: Some("Ljava/lang/Object;"), interfaces: &["Ljava/io/Serializable;", "Ljava/lang/CharSequence;"], flags: 0, statics: &[] },
    ]
}

fn shim_classes_2() -> (r: Vec<ShimDef>)
    ensures
        r@ == shim_part_2(),
{
    let mut v: Vec<ShimDef> = Vec::new();
    v.push(ShimDef { desc: "Lokhttp3/HttpUrl$Companion;", super_desc: Some("Ljava/lang/Object;"), interfaces: &[], flags: 0, statics: &[] });
    v.push(ShimDef { desc: "Lokhttp3/HttpUrl$Builder;", super_desc: Some("Ljava/lang/Object;"), interfaces: &[], flags: 0, statics: &[] });
    v.push(ShimDef { desc: "Lokhttp3/MediaType;", super_desc: Some("Ljava/lang/Object;"), interfaces: &[], flags: 0, statics: &[ShimStaticDef { name: "Companion", ty: "Lokhttp3/MediaType$Companion;", value: ShimValue::Lazy(ShimLazy::OpaqueInstance) }] });
    v.push(ShimDef { desc: "Lokhttp3/MediaType$Companion;", super_desc: Some("Ljava/lang/Object;"), interfaces: &[], flags: 0, statics: &[] });
    v.push(ShimDef { desc: "Lokhttp3/Headers;", super_desc: Some("Ljava/lang/Object;"), interfaces: &[], flags: 0, statics: &[] });
    v.push(ShimDef { desc: "Lokhttp3/RequestBody;", super_desc: Some("Ljava/lang/Object;"), interfaces: &[], flags: 0, statics: &[] });
    v.push(ShimDef { desc: "Lokhttp3/CacheControl;", super_desc: Some("Ljava/lang/Object;"), interfaces: &[], flags: 0, statics: &[] });
    v.push(ShimDef { desc: "Lokhttp3/Request$Builder;", super_desc: Some("Ljava/lang/Object;"), interfaces: &[], flags: 0, statics: &[] });
    v.push(ShimDef { desc: "Lokhttp3/Request;", super_desc: Some("Ljava/lang/Object;"), interfaces: &[], flags: 0, statics: &[] });
    v.push(ShimDef { desc: "Lokhttp3/Call;", super_desc: Some("Ljava/lang/Object;"), interfaces: &[], flags: 0, statics: &[] });
    v.push(ShimDef { desc: "Lokhttp3/Response;", super_desc: Some("Ljava/lang/Object;"), interfaces: &[], flags: 0, statics: &[] });
    v.push(ShimDef { desc: "Lokhttp3/ResponseBody;", super_desc: Some("Ljava/lang/Object;"), interfaces: &[], flags: 0, statics: &[] });
    v.push(ShimDef { desc: "Leu/kanade/tachiyomi/network/RequestsKt;", super_desc: Some("Ljava/lang/Object;"), interfaces: &[], flags: 0, statics: &[] });
    v.push(ShimDef { desc: "Landroid/content/Context;", super_desc: None, interfaces: &[], flags: ACC_INTERFACE | ACC_ABSTRACT, statics: &[] });
    v.push(ShimDef { desc: "Landroid/content/ContextWrapper;", super_desc: Some("Landroid/content/Context;"), interfaces: &[], flags: 0, statics: &[] });
    v.push(ShimDef { desc: "Landroid/app/Activity;", super_desc: Some("Landroid/content/ContextWrapper;"), interfaces: &[], flags: 0, statics: &[] });
    v.push(ShimDef { desc: "Landroid/app/Application;", super_desc: Some("Landroid/content/ContextWrapper;"), interfaces: &[], flags: 0, statics: &[] });
    v.push(ShimDef { desc: "Landroid/content/ActivityNotFoundException;", super_desc: Some("Ljava/lang/RuntimeException;"), interfaces: &[], flags: 0, statics: &[] });
    v.push(ShimDef { desc: "Landroid/content/Intent;", super_desc: Some("Ljava/lang/Object;"), interfaces: &[], flags: 0, statics: &[] });
    v.push(ShimDef { desc: "Landroid/content/SharedPreferences;", super_desc: None, interfaces: &[], flags: ACC_INTERFACE | ACC_ABSTRACT, statics: &[] });
    v.push(ShimDef { desc: "Landroid/net/Uri;", super_desc: Some("Ljava/lang/Object;"), interfaces: &[], flags: 0, statics: &[] });
    v.push(ShimDef { desc: "Landroid/os/Bundle;", super_desc: Some("Ljava/lang/Object;"), interfaces: &[], flags: 0, statics: &[] });
    v.push(ShimDef { desc: "Landroid/os/SystemClock;", super_desc: Some("Ljava/lang/Object;"), interfaces: &[], flags: 0, statics: &[] });
    v.push(ShimDef { desc: "Landroid/util/Log;", super_desc: Some("Ljava/lang/Object;"), interfaces: &[], flags: 0, statics: &[] });
    v.push(ShimDef { desc: "Landroid/webkit/CookieManager;", super_desc: Some("Ljava/lang/Object;"), interfaces: &[], flags: 0, statics: &[] });
    v.push(ShimDef { desc: "Landroidx/preference/Preference;", super_desc: Some("Ljava/lang/Object;"), interfaces: &[], flags: 0, statics: &[] });
    v.push(ShimDef { desc: "Landroidx/preference/PreferenceScreen;", super_desc: Some("Landroidx/preference/Preference;"), interfaces: &[], flags: 0, statics: &[] });
    v.push(ShimDef { desc: "Landroidx/preference/SwitchPreferenceCompat;", super_desc: Some("Landroidx/preference/Preference;"), interfaces: &[], flags: 0, statics: &[] });
    v.push(ShimDef { desc: "Ljava/lang/String;", super_desc: Some("Ljava/lang/Object;"), interfaces: &[ "Ljava/io/Serializable;", "Ljava/lang/Comparable;", "Ljava/lang/CharSequence;" ], flags: 0, statics: &[] });
    v.push(ShimDef { desc: "Ljava/lang/StringBuilder;", super_desc: Some("Ljava/lang/Object;"), interfaces: &["Ljava/io/Serializable;", "Ljava/lang/CharSequence;"], flags: 0, statics: &[] });
    proof {
        assert(v@ =~= shim_part_2());
    }
    v
}

/// Shim class definitions, part 3.
pub open spec fn shim_part_3() -> Seq<ShimDef> {
    seq![
        ShimDef { desc: "Ljava/lang/Class;", super_desc: Some("Ljava/lang/Object;"), interfaces: &[ "Ljava/io/Serializable;", "Ljava/lang/reflect/GenericDeclaration;", "Ljava/lang/reflect/Type;", "Ljava/lang/reflect/AnnotatedElement;" ], flags: 0, statics: &[] },
        ShimDef { desc: "Ljava/lang/Throwable;", super_desc: Some("Ljava/lang/Object;"), interfaces: &["Ljava/io/Serializable;"], flags: 0, statics: &[] },
        ShimDef { desc: "Ljava/lang/Exception;", super_desc: Some("Ljava/lang/Throwable;"), interfaces: &[], flags: 0, statics: &[] },
        ShimDef { desc: "Ljava/lang/RuntimeException;", super_desc: Some("Ljava/lang/Exception;"), interfaces: &[], flags: 0, statics: &[] },
        ShimDef { desc: "Ljava/lang/Error;", super_desc: Some("Ljava/lang/Throwable;"), interfaces: &[], flags: 0, statics: &[] },
        ShimDef { desc: "Ljava/lang/AssertionError;", super_desc: Some("Ljava/lang/Error;"), interfaces: &[], flags: 0, statics: &[] },
        ShimDef { desc: "Ljava/lang/StackOverflowError;", super_desc: Some("Ljava/lang/Error;"), interfaces: &[], flags: 0, statics: &[] },
        ShimDef { desc: "Ljava/lang/OutOfMemoryError;", super_desc: Some("Ljava/lang/Error;"), interfaces: &[], flags: 0, statics: &[] },
        ShimDef { desc: "Ljava/lang/NullPointerException;", super_desc: Some("Ljava/lang/RuntimeException;"), interfaces: &[], flags: 0, statics: &[] },
        ShimDef { desc: "Ljava/lang/ArithmeticException;", super_desc: Some("Ljava/lang/RuntimeException;"), interfaces: &[], flags: 0, statics: &[] },
        ShimDef { desc: "Ljava/lang/IllegalArgumentException;", super_desc: Some("Ljava/lang/RuntimeException;"), interfaces: &[], flags: 0, statics: &[] },
        ShimDef { desc: "Ljava/lang/IllegalStateException;", super_desc: Some("Ljava/lang/RuntimeException;"), interfaces: &[], flags: 0, statics: &[] },
        ShimDef { desc: "Ljava/lang/NumberFormatException;", super_desc: Some("Ljava/lang/IllegalArgumentException;"), interfaces: &[], flags: 0, statics: &[] },
        ShimDef { desc: "Ljava/lang/UnsupportedOperationException;", super_desc: Some("Ljava/lang/RuntimeException;"), interfaces: &[], flags: 0, statics: &[] },
        ShimDef { desc: "Ljava/lang/IndexOutOfBoundsException;", super_desc: Some("Ljava/lang/RuntimeException;"), interfaces: &[], flags: 0, statics: &[] },
        ShimDef { desc: "Ljava/lang/ArrayIndexOutOfBoundsException;", super_desc: Some("Ljava/lang/IndexOutOfBoundsException;"), interfaces: &[], flags: 0, statics: &[] },
        ShimDef { desc: "Ljava/lang/StringIndexOutOfBoundsException;", super_desc: Some("Ljava/lang/IndexOutOfBoundsException;"), interfaces: &[], flags: 0, statics: &[] },
        ShimDef { desc: "Ljava/lang/ClassCastException;", super_desc: Some("Ljava/lang/RuntimeException;"), interfaces: &[], flags: 0, statics: &[] },
        ShimDef { desc: "Ljava/lang/NegativeArraySizeException;", super_desc: Some("Ljava/lang/RuntimeException;"), interfaces: &[], flags: 0, statics: &[] },
        ShimDef { desc: "Ljava/lang/NoSuchElementException;", super_desc: Some("Ljava/lang/RuntimeException;"), interfaces: &[], flags: 0, statics: &[] },
        ShimDef { desc: "Ljava/lang/NoSuchMethodError;", super_desc: Some("Ljava/lang/Error;"), interfaces: &[], flags: 0, statics: &[] },
        ShimDef { desc: "Ljava/lang/NoClassDefFoundError;", super_desc: Some("Ljava/lang/Error;"), interfaces: &[], flags: 0, statics: &[] },
        ShimDef { desc: "Ljava/lang/ClassNotFoundException;", super_desc: Some("Ljava/lang/Exception;"), interfaces: &[], flags: 0, statics: &[] },
        ShimDef { desc: "Ljava/io/IOException;", super_desc: Some("Ljava/lang/Exception;"), interfaces: &[], flags: 0, statics: &[] },
        ShimDef { desc: "Ljava/net/MalformedURLException;", super_desc: Some("Ljava/io/IOException;"), interfaces: &[], flags: 0, statics: &[] },
        ShimDef { desc: "Ljava/lang/InterruptedException;", super_desc: Some("Ljava/lang/Exception;"), interfaces: &[], flags: 0, statics: &[] },
        ShimDef { desc: "Ljava/io/InputStream;", super_desc: Some("Ljava/lang/Object;"), interfaces: &["Ljava/io/Closeable;"], flags: 0, statics: &[] },
        ShimDef { desc: "Ljava/io/File;", super_desc: Some("Ljava/lang/Object;"), interfaces: &["Ljava/io/Serializable;", "Ljava/lang/Comparable;"], flags: 0, statics: &[] },
        ShimDef { desc: "Ljava/io/ByteArrayInputStream;", super_desc: Some("Ljava/io/InputStream;"), interfaces: &[], flags: 0, statics: &[] },
        ShimDef { desc: "Ljava/lang/SecurityException;", super_desc: Some("Ljava/lang/RuntimeException;"), interfaces: &[], flags: 0, statics: &[] },
    ]
}

fn shim_classes_3() -> (r: Vec<ShimDef>)
    ensures
        r@ == shim_part_3(),
{
    let mut v: Vec<ShimDef> = Vec::new();
    v.push(ShimDef { desc: "Ljava/lang/Class;", super_desc: Some("Ljava/lang/Object;"), interfaces: &[ "Ljava/io/Serializable;", "Ljava/lang/reflect/GenericDeclaration;", "Ljava/lang/reflect/Type;", "Ljava/lang/reflect/AnnotatedElement;" ], flags: 0, statics: &[] });
    v.push(ShimDef { desc: "Ljava/lang/Throwable;", super_desc: Some("Ljava/lang/Object;"), interfaces: &["Ljava/io/Serializable;"], flags: 0, statics: &[] });
    v.push(ShimDef { desc: "Ljava/lang/Exception;", super_desc: Some("Ljava/lang/Throwable;"), interfaces: &[], flags: 0, statics: &[] });
    v.push(ShimDef { desc: "Ljava/lang/RuntimeException;", super_desc: Some("Ljava/lang/Exception;"), interfaces: &[], flags: 0, statics: &[] });
    v.push(ShimDef { desc: "Ljava/lang/Error;", super_desc: Some("Ljava/lang/Throwable;"), interfaces: &[], flags: 0, statics: &[] });
    v.push(ShimDef { desc: "Ljava/lang/AssertionError;", super_desc: Some("Ljava/lang/Error;"), interfaces: &[], flags: 0, statics: &[] });
    v.push(ShimDef { desc: "Ljava/lang/StackOverflowError;", super_desc: Some("Ljava/lang/Error;"), interfaces: &[], flags: 0, statics: &[] });
    v.push(ShimDef { desc: "Ljava/lang/OutOfMemoryError;", super_desc: Some("Ljava/lang/Error;"), interfaces: &[], flags: 0, statics: &[] });
    v.push(ShimDef { desc: "Ljava/lang/NullPointerException;", super_desc: Some("Ljava/lang/RuntimeException;"), interfaces: &[], flags: 0, statics: &[] });
    v.push(ShimDef { desc: "Ljava/lang/ArithmeticException;", super_desc: Some("Ljava/lang/RuntimeException;"), interfaces: &[], flags: 0, statics: &[] });
    v.push(ShimDef { desc: "Ljava/lang/IllegalArgumentException;", super_desc: Some("Ljava/lang/RuntimeException;"), interfaces: &[], flags: 0, statics: &[] });
    v.push(ShimDef { desc: "Ljava/lang/IllegalStateException;", super_desc: Some("Ljava/lang/RuntimeException;"), interfaces: &[], flags: 0, statics: &[] });
    v.push(ShimDef { desc: "Ljava/lang/NumberFormatException;", super_desc: Some("Ljava/lang/IllegalArgumentException;"), interfaces: &[], flags: 0, statics: &[] });
    v.push(ShimDef { desc: "Ljava/lang/UnsupportedOperationException;", super_desc: Some("Ljava/lang/RuntimeException;"), interfaces: &[], flags: 0, statics: &[] });
    v.push(ShimDef { desc: "Ljava/lang/IndexOutOfBoundsException;", super_desc: Some("Ljava/lang/RuntimeException;"), interfaces: &[], flags: 0, statics: &[] });
    v.push(ShimDef { desc: "Ljava/lang/ArrayIndexOutOfBoundsException;", super_desc: Some("Ljava/lang/IndexOutOfBoundsException;"), interfaces: &[], flags: 0, statics: &[] });
    v.push(ShimDef { desc: "Ljava/lang/StringIndexOutOfBoundsException;", super_desc: Some("Ljava/lang/IndexOutOfBoundsException;"), interfaces: &[], flags: 0, statics: &[] });
    v.push(ShimDef { desc: "Ljava/lang/ClassCastException;", super_desc: Some("Ljava/lang/RuntimeException;"), interfaces: &[], flags: 0, statics: &[] });
    v.push(ShimDef { desc: "Ljava/lang/NegativeArraySizeException;", super_desc: Some("Ljava/lang/RuntimeException;"), interfaces: &[], flags: 0, statics: &[] });
    v.push(ShimDef { desc: "Ljava/lang/NoSuchElementException;", super_desc: Some("Ljava/lang/RuntimeException;"), interfaces: &[], flags: 0, statics: &[] });
    v.push(ShimDef { desc: "Ljava/lang/NoSuchMethodError;", super_desc: Some("Ljava/lang/Error;"), interfaces: &[], flags: 0, statics: &[] });
    v.push(ShimDef { desc: "Ljava/lang/NoClassDefFoundError;", super_desc: Some("Ljava/lang/Error;"), interfaces: &[], flags: 0, statics: &[] });
    v.push(ShimDef { desc: "Ljava/lang/ClassNotFoundException;", super_desc: Some("Ljava/lang/Exception;"), interfaces: &[], flags: 0, statics: &[] });
    v.push(ShimDef { desc: "Ljava/io/IOException;", super_desc: Some("Ljava/lang/Exception;"), interfaces: &[], flags: 0, statics: &[] });
    v.push(ShimDef { desc: "Ljava/net/MalformedURLException;", super_desc: Some("Ljava/io/IOException;"), interfaces: &[], flags: 0, statics: &[] });
    v.push(ShimDef { desc: "Ljava/lang/InterruptedException;", super_desc: Some("Ljava/lang/Exception;"), interfaces: &[], flags: 0, statics: &[] });
    v.push(ShimDef { desc: "Ljava/io/InputStream;", super_desc: Some("Ljava/lang/Object;"), interfaces: &["Ljava/io/Closeable;"], flags: 0, statics: &[] });
    v.push(ShimDef { desc: "Ljava/io/File;", super_desc: Some("Ljava/lang/Object;"), interfaces: &["Ljava/io/Serializable;", "Ljava/lang/Comparable;"], flags: 0, statics: &[] });
    v.push(ShimDef { desc: "Ljava/io/ByteArrayInputStream;", super_desc: Some("Ljava/io/InputStream;"), interfaces: &[], flags: 0, statics: &[] });
    v.push(ShimDef { desc: "Ljava/lang/SecurityException;", super_desc: Some("Ljava/lang/RuntimeException;"), interfaces: &[], flags: 0, statics: &[] });
    proof {
        assert(v@ =~= shim_part_3());
    }
    v
}

/// Shim class definitions, part 4.
pub open spec fn shim_part_4() -> Seq<ShimDef> {
    seq![
        ShimDef { desc: "Ljava/lang/Enum;", super_desc: Some("Ljava/lang/Object;"), interfaces: &["Ljava/lang/Comparable;", "Ljava/io/Serializable;"], flags: 0, statics: &[] },
        ShimDef { desc: "Ljava/lang/System;", super_desc: Some("Ljava/lang/Object;"), interfaces: &[], flags: 0, statics: &[ShimStaticDef { name: "out", ty: "Ljava/io/PrintStream;", value: ShimValue::Lazy(ShimLazy::PrintStream) }, ShimStaticDef { name: "err", ty: "Ljava/io/PrintStream;", value: ShimValue::Lazy(ShimLazy::PrintStream) }] },
        ShimDef { desc: "Ljava/io/PrintStream;", super_desc: Some("Ljava/lang/Object;"), interfaces: &["Ljava/lang/Appendable;", "Ljava/io/Closeable;"], flags: 0, statics: &[] },
        ShimDef { desc: "Ljava/lang/Math;", super_desc: Some("Ljava/lang/Object;"), interfaces: &[], flags: 0, statics: &[] },
        ShimDef { desc: "Ljava/lang/Integer;", super_desc: Some("Ljava/lang/Number;"), interfaces: &["Ljava/lang/Comparable;"], flags: 0, statics: &[ShimStaticDef { name: "TYPE", ty: "Ljava/lang/Class;", value: ShimValue::Lazy(ShimLazy::IntType) }, ShimStaticDef { name: "MIN_VALUE", ty: "I", value: ShimValue::Const(JValue::Int(-2147483648i32)) }, ShimStaticDef { name: "MAX_VALUE", ty: "I", value: ShimValue::Const(JValue::Int(2147483647i32)) }] },
        ShimDef { desc: "Ljava/lang/Long;", super_desc: Some("Ljava/lang/Number;"), interfaces: &["Ljava/lang/Comparable;"], flags: 0, statics: &[ShimStaticDef { name: "TYPE", ty: "Ljava/lang/Class;", value: ShimValue::Lazy(ShimLazy::LongType) }, ShimStaticDef { name: "MIN_VALUE", ty: "J", value: ShimValue::Const(JValue::Long(-9223372036854775808i64)) }, ShimStaticDef { name: "MAX_VALUE", ty: "J", value: ShimValue::Const(JValue::Long(9223372036854775807i64)) }] },
        ShimDef { desc: "Ljava/lang/Short;", super_desc: Some("Ljava/lang/Number;"), interfaces: &["Ljava/lang/Comparable;"], flags: 0, statics: &[ShimStaticDef { name: "TYPE", ty: "Ljava/lang/Class;", value: ShimValue::Lazy(ShimLazy::ShortType) }, ShimStaticDef { name: "MIN_VALUE", ty: "S", value: ShimValue::Const(JValue::Int(-32768i32)) }, ShimStaticDef { name: "MAX_VALUE", ty: "S", value: ShimValue::Const(JValue::Int(32767i32)) }] },
        ShimDef { desc: "Ljava/lang/Byte;", super_desc: Some("Ljava/lang/Number;"), interfaces: &["Ljava/lang/Comparable;"], flags: 0, statics: &[ShimStaticDef { name: "TYPE", ty: "Ljava/lang/Class;", value: ShimValue::Lazy(ShimLazy::ByteType) }, ShimStaticDef { name: "MIN_VALUE", ty: "B", value: ShimValue::Const(JValue::Int(-128i32)) }, ShimStaticDef { name: "MAX_VALUE", ty: "B", value: ShimValue::Const(JValue::Int(127i32)) }] },
        ShimDef { desc: "Ljava/lang/Character;", super_desc: Some("Ljava/lang/Object;"), interfaces: &["Ljava/lang/Comparable;"], flags: 0, statics: &[ShimStaticDef { name: "TYPE", ty: "Ljava/lang/Class;", value: ShimValue::Lazy(ShimLazy::CharType) }, ShimStaticDef { name: "MIN_VALUE", ty: "C", value: ShimValue::Const(JValue::Int(0i32)) }, ShimStaticDef { name: "MAX_VALUE", ty: "C", value: ShimValue::Const(JValue::Int(0xFFFF)) }] },
        ShimDef { desc: "Ljava/lang/Boolean;", super_desc: Some("Ljava/lang/Object;"), interfaces: &["Ljava/lang/Comparable;"], flags: 0, statics: &[ShimStaticDef { name: "TYPE", ty: "Ljava/lang/Class;", value: ShimValue::Lazy(ShimLazy::BoolType) }, ShimStaticDef { name: "TRUE", ty: "Ljava/lang/Boolean;", value: ShimValue::Lazy(ShimLazy::BoolTrue) }, ShimStaticDef { name: "FALSE", ty: "Ljava/lang/Boolean;", value: ShimValue::Lazy(ShimLazy::BoolFalse) }] },
        ShimDef { desc: "Ljava/lang/Float;", super_desc: Some("Ljava/lang/Number;"), interfaces: &["Ljava/lang/Comparable;"], flags: 0, statics: &[ShimStaticDef { name: "TYPE", ty: "Ljava/lang/Class;", value: ShimValue::Lazy(ShimLazy::FloatType) }, ShimStaticDef { name: "MIN_VALUE", ty: "F", value: ShimValue::Const(JValue::Float(0x0080_0000u32)) }, ShimStaticDef { name: "MAX_VALUE", ty: "F", value: ShimValue::Const(JValue::Float(0x7f7f_ffffu32)) }, ShimStaticDef { name: "POSITIVE_INFINITY", ty: "F", value: ShimValue::Const(JValue::Float(0x7f80_0000u32)) }, ShimStaticDef { name: "NEGATIVE_INFINITY", ty: "F", value: ShimValue::Const(JValue::Float(0xff80_0000u32)) }, ShimStaticDef { name: "NaN", ty: "F", value: ShimValue::Const(JValue::Float(0x7fc0_0000u32)) }] },
        ShimDef { desc: "Ljava/lang/Double;", super_desc: Some("Ljava/lang/Number;"), interfaces: &["Ljava/lang/Comparable;"], flags: 0, statics: &[ShimStaticDef { name: "TYPE", ty: "Ljava/lang/Class;", value: ShimValue::Lazy(ShimLazy::DoubleType) }, ShimStaticDef { name: "MIN_VALUE", ty: "D", value: ShimValue::Const(JValue::Double(0x0010_0000_0000_0000u64)) }, ShimStaticDef { name: "MAX_VALUE", ty: "D", value: ShimValue::Const(JValue::Double(0x7fef_ffff_ffff_ffffu64)) }, ShimStaticDef { name: "POSITIVE_INFINITY", ty: "D", value: ShimValue::Const(JValue::Double(0x7ff0_0000_0000_0000u64)) }, ShimStaticDef { name: "NEGATIVE_INFINITY", ty: "D", value: ShimValue::Const(JValue::Double(0xfff0_0000_0000_0000u64)) }, ShimStaticDef { name: "NaN", ty: "D", value: ShimValue::Const(JValue::Double(0x7ff8_0000_0000_0000u64)) }] },
        ShimDef { desc: "Ljava/lang/Number;", super_desc: Some("Ljava/lang/Object;"), interfaces: &["Ljava/io/Serializable;"], flags: 0, statics: &[] },
        ShimDef { desc: "Ljava/lang/StackTraceElement;", super_desc: Some("Ljava/lang/Object;"), interfaces: &["Ljava/io/Serializable;"], flags: 0, statics: &[] },
        ShimDef { desc: "Ljava/lang/Thread;", super_desc: Some("Ljava/lang/Object;"), interfaces: &[], flags: 0, statics: &[] },
        ShimDef { desc: "Ljava/lang/Thread$State;", super_desc: Some("Ljava/lang/Enum;"), interfaces: &[], flags: 0, statics: &[] },
        ShimDef { desc: "Ljava/security/MessageDigest;", super_desc: Some("Ljava/lang/Object;"), interfaces: &[], flags: 0, statics: &[] },
        ShimDef { desc: "Ljava/security/SecureRandom;", super_desc: Some("Ljava/lang/Object;"), interfaces: &[], flags: 0, statics: &[] },
        ShimDef { desc: "Ljava/security/Key;", super_desc: None, interfaces: &[], flags: ACC_INTERFACE | ACC_ABSTRACT, statics: &[] },
        ShimDef { desc: "Ljava/security/spec/AlgorithmParameterSpec;", super_desc: None, interfaces: &[], flags: ACC_INTERFACE | ACC_ABSTRACT, statics: &[] },
        ShimDef { desc: "Ljavax/crypto/Cipher;", super_desc: Some("Ljava/lang/Object;"), interfaces: &[], flags: 0, statics: &[] },
        ShimDef { desc: "Ljavax/crypto/spec/SecretKeySpec;", super_desc: Some("Ljava/lang/Object;"), interfaces: &[ "Ljava/security/Key;", "Ljava/security/spec/AlgorithmParameterSpec;" ], flags: 0, statics: &[] },
        ShimDef { desc: "Ljavax/crypto/spec/GCMParameterSpec;", super_desc: Some("Ljava/lang/Object;"), interfaces: &["Ljava/security/spec/AlgorithmParameterSpec;"], flags: 0, statics: &[] },
        ShimDef { desc: "Ljava/util/Collection;", super_desc: Some("Ljava/lang/Iterable;"), interfaces: &[], flags: ACC_INTERFACE | ACC_ABSTRACT, statics: &[] },
        ShimDef { desc: "Ljava/util/List;", super_desc: Some("Ljava/util/Collection;"), interfaces: &[], flags: ACC_INTERFACE | ACC_ABSTRACT, statics: &[] },
        ShimDef { desc: "Ljava/util/Set;", super_desc: Some("Ljava/util/Collection;"), interfaces: &[], flags: ACC_INTERFACE | ACC_ABSTRACT, statics: &[] },
        ShimDef { desc: "Ljava/util/SortedSet;", super_desc: Some("Ljava/util/Set;"), interfaces: &[], flags: ACC_INTERFACE | ACC_ABSTRACT, statics: &[] },
        ShimDef { desc: "Ljava/util/NavigableSet;", super_desc: Some("Ljava/util/SortedSet;"), interfaces: &[], flags: ACC_INTERFACE | ACC_ABSTRACT, statics: &[] },
        ShimDef { desc: "Ljava/util/Map;", super_desc: Some("Ljava/lang/Object;"), interfaces: &[], flags: ACC_INTERFACE | ACC_ABSTRACT, statics: &[] },
        ShimDef { desc: "Ljava/util/SortedMap;", super_desc: Some("Ljava/util/Map;"), interfaces: &[], flags: ACC_INTERFACE | ACC_ABSTRACT, statics: &[] },
    ]
}

fn shim_classes_4() -> (r: Vec<ShimDef>)
    ensures
        r@ == shim_part_4(),
{
    let mut v: Vec<ShimDef> = Vec::new();
    v.push(ShimDef { desc: "Ljava/lang/Enum;", super_desc: Some("Ljava/lang/Object;"), interfaces: &["Ljava/lang/Comparable;", "Ljava/io/Serializable;"], flags: 0, statics: &[] });
    v.push(ShimDef { desc: "Ljava/lang/System;", super_desc: Some("Ljava/lang/Object;"), interfaces: &[], flags: 0, statics: &[ShimStaticDef { name: "out", ty: "Ljava/io/PrintStream;", value: ShimValue::Lazy(ShimLazy::PrintStream) }, ShimStaticDef { name: "err", ty: "Ljava/io/PrintStream;", value: ShimValue::Lazy(ShimLazy::PrintStream) }] });
    v.push(ShimDef { desc: "Ljava/io/PrintStream;", super_desc: Some("Ljava/lang/Object;"), interfaces: &["Ljava/lang/Appendable;", "Ljava/io/Closeable;"], flags: 0, statics: &[] });
    v.push(ShimDef { desc: "Ljava/lang/Math;", super_desc: Some("Ljava/lang/Object;"), interfaces: &[], flags: 0, statics: &[] });
    v.push(ShimDef { desc: "Ljava/lang/Integer;", super_desc: Some("Ljava/lang/Number;"), interfaces: &["Ljava/lang/Comparable;"], flags: 0, statics: &[ShimStaticDef { name: "TYPE", ty: "Ljava/lang/Class;", value: ShimValue::Lazy(ShimLazy::IntType) }, ShimStaticDef { name: "MIN_VALUE", ty: "I", value: ShimValue::Const(JValue::Int(-2147483648)) }, ShimStaticDef { name: "MAX_VALUE", ty: "I", value: ShimValue::Const(JValue::Int(2147483647)) }] });
    v.push(ShimDef { desc: "Ljava/lang/Long;", super_desc: Some("Ljava/lang/Number;"), interfaces: &["Ljava/lang/Comparable;"], flags: 0, statics: &[ShimStaticDef { name: "TYPE", ty: "Ljava/lang/Class;", value: ShimValue::Lazy(ShimLazy::LongType) }, ShimStaticDef { name: "MIN_VALUE", ty: "J", value: ShimValue::Const(JValue::Long(-9223372036854775808)) }, ShimStaticDef { name: "MAX_VALUE", ty: "J", value: ShimValue::Const(JValue::Long(9223372036854775807)) }] });
    v.push(ShimDef { desc: "Ljava/lang/Short;", super_desc: Some("Ljava/lang/Number;"), interfaces: &["Ljava/lang/Comparable;"], flags: 0, statics: &[ShimStaticDef { name: "TYPE", ty: "Ljava/lang/Class;", value: ShimValue::Lazy(ShimLazy::ShortType) }, ShimStaticDef { name: "MIN_VALUE", ty: "S", value: ShimValue::Const(JValue::Int(-32768)) }, ShimStaticDef { name: "MAX_VALUE", ty: "S", value: ShimValue::Const(JValue::Int(32767)) }] });
    v.push(ShimDef { desc: "Ljava/lang/Byte;", super_desc: Some("Ljava/lang/Number;"), interfaces: &["Ljava/lang/Comparable;"], flags: 0, statics: &[ShimStaticDef { name: "TYPE", ty: "Ljava/lang/Class;", value: ShimValue::Lazy(ShimLazy::ByteType) }, ShimStaticDef { name: "MIN_VALUE", ty: "B", value: ShimValue::Const(JValue::Int(-128)) }, ShimStaticDef { name: "MAX_VALUE", ty: "B", value: ShimValue::Const(JValue::Int(127)) }] });
    v.push(ShimDef { desc: "Ljava/lang/Character;", super_desc: Some("Ljava/lang/Object;"), interfaces: &["Ljava/lang/Comparable;"], flags: 0, statics: &[ShimStaticDef { name: "TYPE", ty: "Ljava/lang/Class;", value: ShimValue::Lazy(ShimLazy::CharType) }, ShimStaticDef { name: "MIN_VALUE", ty: "C", value: ShimValue::Const(JValue::Int(0)) }, ShimStaticDef { name: "MAX_VALUE", ty: "C", value: ShimValue::Const(JValue::Int(0xFFFF)) }] });
    v.push(ShimDef { desc: "Ljava/lang/Boolean;", super_desc: Some("Ljava/lang/Object;"), interfaces: &["Ljava/lang/Comparable;"], flags: 0, statics: &[ShimStaticDef { name: "TYPE", ty: "Ljava/lang/Class;", value: ShimValue::Lazy(ShimLazy::BoolType) }, ShimStaticDef { name: "TRUE", ty: "Ljava/lang/Boolean;", value: ShimValue::Lazy(ShimLazy::BoolTrue) }, ShimStaticDef { name: "FALSE", ty: "Ljava/lang/Boolean;", value: ShimValue::Lazy(ShimLazy::BoolFalse) }] });
    v.push(ShimDef { desc: "Ljava/lang/Float;", super_desc: Some("Ljava/lang/Number;"), interfaces: &["Ljava/lang/Comparable;"], flags: 0, statics: &[ShimStaticDef { name: "TYPE", ty: "Ljava/lang/Class;", value: ShimValue::Lazy(ShimLazy::FloatType) }, ShimStaticDef { name: "MIN_VALUE", ty: "F", value: ShimValue::Const(JValue::Float(0x0080_0000)) }, ShimStaticDef { name: "MAX_VALUE", ty: "F", value: ShimValue::Const(JValue::Float(0x7f7f_ffff)) }, ShimStaticDef { name: "POSITIVE_INFINITY", ty: "F", value: ShimValue::Const(JValue::Float(0x7f80_0000)) }, ShimStaticDef { name: "NEGATIVE_INFINITY", ty: "F", value: ShimValue::Const(JValue::Float(0xff80_0000)) }, ShimStaticDef { name: "NaN", ty: "F", value: ShimValue::Const(JValue::Float(0x7fc0_0000)) }] });
    v.push(ShimDef { desc: "Ljava/lang/Double;", super_desc: Some("Ljava/lang/Number;"), interfaces: &["Ljava/lang/Comparable;"], flags: 0, statics: &[ShimStaticDef { name: "TYPE", ty: "Ljava/lang/Class;", value: ShimValue::Lazy(ShimLazy::DoubleType) }, ShimStaticDef { name: "MIN_VALUE", ty: "D", value: ShimValue::Const(JValue::Double(0x0010_0000_0000_0000)) }, ShimStaticDef { name: "MAX_VALUE", ty: "D", value: ShimValue::Const(JValue::Double(0x7fef_ffff_ffff_ffff)) }, ShimStaticDef { name: "POSITIVE_INFINITY", ty: "D", value: ShimValue::Const(JValue::Double(0x7ff0_0000_0000_0000)) }, ShimStaticDef { name: "NEGATIVE_INFINITY", ty: "D", value: ShimValue::Const(JValue::Double(0xfff0_0000_0000_0000)) }, ShimStaticDef { name: "NaN", ty: "D", value: ShimValue::Const(JValue::Double(0x7ff8_0000_0000_0000)) }] });
    v.push(ShimDef { desc: "Ljava/lang/Number;", super_desc: Some("Ljava/lang/Object;"), interfaces: &["Ljava/io/Serializable;"], flags: 0, statics: &[] });
    v.push(ShimDef { desc: "Ljava/lang/StackTraceElement;", super_desc: Some("Ljava/lang/Object;"), interfaces: &["Ljava/io/Serializable;"], flags: 0, statics: &[] });
    v.push(ShimDef { desc: "Ljava/lang/Thread;", super_desc: Some("Ljava/lang/Object;"), interfaces: &[], flags: 0, statics: &[] });
    v.push(ShimDef { desc: "Ljava/lang/Thread$State;", super_desc: Some("Ljava/lang/Enum;"), interfaces: &[], flags: 0, statics: &[] });
    v.push(ShimDef { desc: "Ljava/security/MessageDigest;", super_desc: Some("Ljava/lang/Object;"), interfaces: &[], flags: 0, statics: &[] });
    v.push(ShimDef { desc: "Ljava/security/SecureRandom;", super_desc: Some("Ljava/lang/Object;"), interfaces: &[], flags: 0, statics: &[] });
    v.push(ShimDef { desc: "Ljava/security/Key;", super_desc: None, interfaces: &[], flags: ACC_INTERFACE | ACC_ABSTRACT, statics: &[] });
    v.push(ShimDef { desc: "Ljava/security/spec/AlgorithmParameterSpec;", super_desc: None, interfaces: &[], flags: ACC_INTERFACE | ACC_ABSTRACT, statics: &[] });
    v.push(ShimDef { desc: "Ljavax/crypto/Cipher;", super_desc: Some("Ljava/lang/Object;"), interfaces: &[], flags: 0, statics: &[] });
    v.push(ShimDef { desc: "Ljavax/crypto/spec/SecretKeySpec;", super_desc: Some("Ljava/lang/Object;"), interfaces: &[ "Ljava/security/Key;", "Ljava/security/spec/AlgorithmParameterSpec;" ], flags: 0, statics: &[] });
    v.push(ShimDef { desc: "Ljavax/crypto/spec/GCMParameterSpec;", super_desc: Some("Ljava/lang/Object;"), interfaces: &["Ljava/security/spec/AlgorithmParameterSpec;"], flags: 0, statics: &[] });
    v.push(ShimDef { desc: "Ljava/util/Collection;", super_desc: Some("Ljava/lang/Iterable;"), interfaces: &[], flags: ACC_INTERFACE | ACC_ABSTRACT, statics: &[] });
    v.push(ShimDef { desc: "Ljava/util/List;", super_desc: Some("Ljava/util/Collection;"), interfaces: &[], flags: ACC_INTERFACE | ACC_ABSTRACT, statics: &[] });
    v.push(ShimDef { desc: "Ljava/util/Set;", super_desc: Some("Ljava/util/Collection;"), interfaces: &[], flags: ACC_INTERFACE | ACC_ABSTRACT, statics: &[] });
    v.push(ShimDef { desc: "Ljava/util/SortedSet;", super_desc: Some("Ljava/util/Set;"), interfaces: &[], flags: ACC_INTERFACE | ACC_ABSTRACT, statics: &[] });
    v.push(ShimDef { desc: "Ljava/util/NavigableSet;", super_desc: Some("Ljava/util/SortedSet;"), interfaces: &[], flags: ACC_INTERFACE | ACC_ABSTRACT, statics: &[] });
    v.push(ShimDef { desc: "Ljava/util/Map;", super_desc: Some("Ljava/lang/Object;"), interfaces: &[], flags: ACC_INTERFACE | ACC_ABSTRACT, statics: &[] });
    v.push(ShimDef { desc: "Ljava/util/SortedMap;", super_desc: Some("Ljava/util/Map;"), interfaces: &[], flags: ACC_INTERFACE | ACC_ABSTRACT, statics: &[] });
    proof {
        assert(v@ =~= shim_part_4());
    }
    v
}

/// Shim class definitions, part 5.
pub open spec fn shim_part_5() -> Seq<ShimDef> {
    seq![
        ShimDef { desc: "Ljava/util/NavigableMap;", super_desc: Some("Ljava/util/SortedMap;"), interfaces: &[], flags: ACC_INTERFACE | ACC_ABSTRACT, statics: &[] },
        ShimDef { desc: "Ljava/util/Map$Entry;", super_desc: Some("Ljava/lang/Object;"), interfaces: &[], flags: ACC_INTERFACE | ACC_ABSTRACT, statics: &[] },
        ShimDef { desc: "Ljava/util/Iterator;", super_desc: Some("Ljava/lang/Object;"), interfaces: &[], flags: ACC_INTERFACE | ACC_ABSTRACT, statics: &[] },
        ShimDef { desc: "Ljava/util/ListIterator;", super_desc: Some("Ljava/util/Iterator;"), interfaces: &[], flags: ACC_INTERFACE | ACC_ABSTRACT, statics: &[] },
        ShimDef { desc: "Ljava/util/Comparator;", super_desc: Some("Ljava/lang/Object;"), interfaces: &[], flags: ACC_INTERFACE | ACC_ABSTRACT, statics: &[] },
        ShimDef { desc: "Ljava/util/RandomAccess;", super_desc: Some("Ljava/lang/Object;"), interfaces: &[], flags: ACC_INTERFACE | ACC_ABSTRACT, statics: &[] },
        ShimDef { desc: "Ljava/util/ArrayList;", super_desc: Some("Ljava/util/AbstractList;"), interfaces: &[ "Ljava/util/List;", "Ljava/util/RandomAccess;", "Ljava/lang/Cloneable;", "Ljava/io/Serializable;" ], flags: 0, statics: &[] },
        ShimDef { desc: "Ljava/util/AbstractList;", super_desc: Some("Ljava/util/AbstractCollection;"), interfaces: &["Ljava/util/List;"], flags: 0, statics: &[] },
        ShimDef { desc: "Ljava/util/AbstractCollection;", super_desc: Some("Ljava/util/Collection;"), interfaces: &[], flags: 0, statics: &[] },
        ShimDef { desc: "Ljava/util/AbstractMap;", super_desc: Some("Ljava/util/Map;"), interfaces: &[], flags: 0, statics: &[] },
        ShimDef { desc: "Ljava/util/AbstractSet;", super_desc: Some("Ljava/util/AbstractCollection;"), interfaces: &["Ljava/util/Set;"], flags: 0, statics: &[] },
        ShimDef { desc: "Ljava/util/HashMap;", super_desc: Some("Ljava/util/AbstractMap;"), interfaces: &[ "Ljava/util/Map;", "Ljava/lang/Cloneable;", "Ljava/io/Serializable;" ], flags: 0, statics: &[] },
        ShimDef { desc: "Ljava/util/LinkedHashMap;", super_desc: Some("Ljava/util/HashMap;"), interfaces: &["Ljava/util/Map;"], flags: 0, statics: &[] },
        ShimDef { desc: "Ljava/util/HashSet;", super_desc: Some("Ljava/util/AbstractSet;"), interfaces: &[ "Ljava/util/Set;", "Ljava/lang/Cloneable;", "Ljava/io/Serializable;" ], flags: 0, statics: &[] },
        ShimDef { desc: "Ljava/util/LinkedHashSet;", super_desc: Some("Ljava/util/HashSet;"), interfaces: &[ "Ljava/util/Set;", "Ljava/lang/Cloneable;", "Ljava/io/Serializable;" ], flags: 0, statics: &[] },
        ShimDef { desc: "Ljava/util/Collections;", super_desc: Some("Ljava/lang/Object;"), interfaces: &[], flags: 0, statics: &[] },
        ShimDef { desc: "Ljava/util/Arrays;", super_desc: Some("Ljava/lang/Object;"), interfaces: &[], flags: 0, statics: &[] },
        ShimDef { desc: "Ljava/util/Objects;", super_desc: Some("Ljava/lang/Object;"), interfaces: &[], flags: 0, statics: &[] },
        ShimDef { desc: "Ljava/util/Locale;", super_desc: Some("Ljava/lang/Object;"), interfaces: &["Ljava/io/Serializable;", "Ljava/lang/Cloneable;"], flags: 0, statics: &[ShimStaticDef { name: "ROOT", ty: "Ljava/util/Locale;", value: ShimValue::Lazy(ShimLazy::Locale) }, ShimStaticDef { name: "ENGLISH", ty: "Ljava/util/Locale;", value: ShimValue::Lazy(ShimLazy::Locale) }, ShimStaticDef { name: "US", ty: "Ljava/util/Locale;", value: ShimValue::Lazy(ShimLazy::OpaqueInstance) }, ShimStaticDef { name: "UK", ty: "Ljava/util/Locale;", value: ShimValue::Lazy(ShimLazy::OpaqueInstance) }, ShimStaticDef { name: "CANADA", ty: "Ljava/util/Locale;", value: ShimValue::Lazy(ShimLazy::OpaqueInstance) }, ShimStaticDef { name: "JAPAN", ty: "Ljava/util/Locale;", value: ShimValue::Lazy(ShimLazy::OpaqueInstance) }, ShimStaticDef { name: "KOREA", ty: "Ljava/util/Locale;", value: ShimValue::Lazy(ShimLazy::OpaqueInstance) }, ShimStaticDef { name: "CHINA", ty: "Ljava/util/Locale;", value: ShimValue::Lazy(ShimLazy::OpaqueInstance) }, ShimStaticDef { name: "FRANCE", ty: "Ljava/util/Locale;", value: ShimValue::Lazy(ShimLazy::OpaqueInstance) }, ShimStaticDef { name: "GERMANY", ty: "Ljava/util/Locale;", value: ShimValue::Lazy(ShimLazy::OpaqueInstance) }, ShimStaticDef { name: "ITALY", ty: "Ljava/util/Locale;", value: ShimValue::Lazy(ShimLazy::OpaqueInstance) }] },
        ShimDef { desc: "Ljava/util/TimeZone;", super_desc: Some("Ljava/lang/Object;"), interfaces: &["Ljava/io/Serializable;", "Ljava/lang/Cloneable;"], flags: 0, statics: &[] },
        ShimDef { desc: "Ljava/util/ArrayDeque;", super_desc: Some("Ljava/util/AbstractCollection;"), interfaces: &[ "Ljava/util/Deque;", "Ljava/lang/Cloneable;", "Ljava/io/Serializable;" ], flags: 0, statics: &[] },
        ShimDef { desc: "Ljava/util/Deque;", super_desc: Some("Ljava/util/Collection;"), interfaces: &[], flags: ACC_INTERFACE | ACC_ABSTRACT, statics: &[] },
        ShimDef { desc: "Ljava/text/DateFormat;", super_desc: Some("Ljava/lang/Object;"), interfaces: &[], flags: 0, statics: &[] },
        ShimDef { desc: "Ljava/text/SimpleDateFormat;", super_desc: Some("Ljava/text/DateFormat;"), interfaces: &[], flags: 0, statics: &[] },
        ShimDef { desc: "Ljava/text/ParsePosition;", super_desc: Some("Ljava/lang/Object;"), interfaces: &[], flags: 0, statics: &[] },
        ShimDef { desc: "Ljava/util/concurrent/locks/Lock;", super_desc: None, interfaces: &[], flags: ACC_INTERFACE | ACC_ABSTRACT, statics: &[] },
        ShimDef { desc: "Ljava/util/concurrent/locks/ReentrantLock;", super_desc: Some("Ljava/lang/Object;"), interfaces: &[ "Ljava/util/concurrent/locks/Lock;", "Ljava/io/Serializable;" ], flags: 0, statics: &[] },
        ShimDef { desc: "Ljava/util/concurrent/locks/Condition;", super_desc: None, interfaces: &[], flags: ACC_INTERFACE | ACC_ABSTRACT, statics: &[] },
        ShimDef { desc: "Ljava/nio/charset/Charset;", super_desc: Some("Ljava/lang/Object;"), interfaces: &["Ljava/io/Serializable;", "Ljava/lang/Comparable;"], flags: 0, statics: &[] },
        ShimDef { desc: "Ljava/nio/charset/StandardCharsets;", super_desc: Some("Ljava/lang/Object;"), interfaces: &[], flags: 0, statics: &[ShimStaticDef { name: "UTF_8", ty: "Ljava/nio/charset/Charset;", value: ShimValue::Lazy(ShimLazy::CharsetUtf8) }, ShimStaticDef { name: "ISO_8859_1", ty: "Ljava/nio/charset/Charset;", value: ShimValue::Lazy(ShimLazy::CharsetIso) }, ShimStaticDef { name: "US_ASCII", ty: "Ljava/nio/charset/Charset;", value: ShimValue::Lazy(ShimLazy::CharsetAscii) }] },
    ]
}

fn shim_classes_5() -> (r: Vec<ShimDef>)
    ensures
        r@ == shim_part_5(),
{
    let mut v: Vec<ShimDef> = Vec::new();
    v.push(ShimDef { desc: "Ljava/util/NavigableMap;", super_desc: Some("Ljava/util/SortedMap;"), interfaces: &[], flags: ACC_INTERFACE | ACC_ABSTRACT, statics: &[] });
    v.push(ShimDef { desc: "Ljava/util/Map$Entry;", super_desc: Some("Ljava/lang/Object;"), interfaces: &[], flags: ACC_INTERFACE | ACC_ABSTRACT, statics: &[] });
    v.push(ShimDef { desc: "Ljava/util/Iterator;", super_desc: Some("Ljava/lang/Object;"), interfaces: &[], flags: ACC_INTERFACE | ACC_ABSTRACT, statics: &[] });
    v.push(ShimDef { desc: "Ljava/util/ListIterator;", super_desc: Some("Ljava/util/Iterator;"), interfaces: &[], flags: ACC_INTERFACE | ACC_ABSTRACT, statics: &[] });
    v.push(ShimDef { desc: "Ljava/util/Comparator;", super_desc: Some("Ljava/lang/Object;"), interfaces: &[], flags: ACC_INTERFACE | ACC_ABSTRACT, statics: &[] });
    v.push(ShimDef { desc: "Ljava/util/RandomAccess;", super_desc: Some("Ljava/lang/Object;"), interfaces: &[], flags: ACC_INTERFACE | ACC_ABSTRACT, statics: &[] });
    v.push(ShimDef { desc: "Ljava/util/ArrayList;", super_desc: Some("Ljava/util/AbstractList;"), interfaces: &[ "Ljava/util/List;", "Ljava/util/RandomAccess;", "Ljava/lang/Cloneable;", "Ljava/io/Serializable;" ], flags: 0, statics: &[] });
    v.push(ShimDef { desc: "Ljava/util/AbstractList;", super_desc: Some("Ljava/util/AbstractCollection;"), interfaces: &["Ljava/util/List;"], flags: 0, statics: &[] });
    v.push(ShimDef { desc: "Ljava/util/AbstractCollection;", super_desc: Some("Ljava/util/Collection;"), interfaces: &[], flags: 0, statics: &[] });
    v.push(ShimDef { desc: "Ljava/util/AbstractMap;", super_desc: Some("Ljava/util/Map;"), interfaces: &[], flags: 0, statics: &[] });
    v.push(ShimDef { desc: "Ljava/util/AbstractSet;", super_desc: Some("Ljava/util/AbstractCollection;"), interfaces: &["Ljava/util/Set;"], flags: 0, statics: &[] });
    v.push(ShimDef { desc: "Ljava/util/HashMap;", super_desc: Some("Ljava/util/AbstractMap;"), interfaces: &[ "Ljava/util/Map;", "Ljava/lang/Cloneable;", "Ljava/io/Serializable;" ], flags: 0, statics: &[] });
    v.push(ShimDef { desc: "Ljava/util/LinkedHashMap;", super_desc: Some("Ljava/util/HashMap;"), interfaces: &["Ljava/util/Map;"], flags: 0, statics: &[] });
    v.push(ShimDef { desc: "Ljava/util/HashSet;", super_desc: Some("Ljava/util/AbstractSet;"), interfaces: &[ "Ljava/util/Set;", "Ljava/lang/Cloneable;", "Ljava/io/Serializable;" ], flags: 0, statics: &[] });
    v.push(ShimDef { desc: "Ljava/util/LinkedHashSet;", super_desc: Some("Ljava/util/HashSet;"), interfaces: &[ "Ljava/util/Set;", "Ljava/lang/Cloneable;", "Ljava/io/Serializable;" ], flags: 0, statics: &[] });
    v.push(ShimDef { desc: "Ljava/util/Collections;", super_desc: Some("Ljava/lang/Object;"), interfaces: &[], flags: 0, statics: &[] });
    v.push(ShimDef { desc: "Ljava/util/Arrays;", super_desc: Some("Ljava/lang/Object;"), interfaces: &[], flags: 0, statics: &[] });
    v.push(ShimDef { desc: "Ljava/util/Objects;", super_desc: Some("Ljava/lang/Object;"), interfaces: &[], flags: 0, statics: &[] });
    v.push(ShimDef { desc: "Ljava/util/Locale;", super_desc: Some("Ljava/lang/Object;"), interfaces: &["Ljava/io/Serializable;", "Ljava/lang/Cloneable;"], flags: 0, statics: &[ShimStaticDef { name: "ROOT", ty: "Ljava/util/Locale;", value: ShimValue::Lazy(ShimLazy::Locale) }, ShimStaticDef { name: "ENGLISH", ty: "Ljava/util/Locale;", value: ShimValue::Lazy(ShimLazy::Locale) }, ShimStaticDef { name: "US", ty: "Ljava/util/Locale;", value: ShimValue::Lazy(ShimLazy::OpaqueInstance) }, ShimStaticDef { name: "UK", ty: "Ljava/util/Locale;", value: ShimValue::Lazy(ShimLazy::OpaqueInstance) }, ShimStaticDef { name: "CANADA", ty: "Ljava/util/Locale;", value: ShimValue::Lazy(ShimLazy::OpaqueInstance) }, ShimStaticDef { name: "JAPAN", ty: "Ljava/util/Locale;", value: ShimValue::Lazy(ShimLazy::OpaqueInstance) }, ShimStaticDef { name: "KOREA", ty: "Ljava/util/Locale;", value: ShimValue::Lazy(ShimLazy::OpaqueInstance) }, ShimStaticDef { name: "CHINA", ty: "Ljava/util/Locale;", value: ShimValue::Lazy(ShimLazy::OpaqueInstance) }, ShimStaticDef { name: "FRANCE", ty: "Ljava/util/Locale;", value: ShimValue::Lazy(ShimLazy::OpaqueInstance) }, ShimStaticDef { name: "GERMANY", ty: "Ljava/util/Locale;", value: ShimValue::Lazy(ShimLazy::OpaqueInstance) }, ShimStaticDef { name: "ITALY", ty: "Ljava/util/Locale;", value: ShimValue::Lazy(ShimLazy::OpaqueInstance) }] });
    v.push(ShimDef { desc: "Ljava/util/TimeZone;", super_desc: Some("Ljava/lang/Object;"), interfaces: &["Ljava/io/Serializable;", "Ljava/lang/Cloneable;"], flags: 0, statics: &[] });
    v.push(ShimDef { desc: "Ljava/util/ArrayDeque;", super_desc: Some("Ljava/util/AbstractCollection;"), interfaces: &[ "Ljava/util/Deque;", "Ljava/lang/Cloneable;", "Ljava/io/Serializable;" ], flags: 0, statics: &[] });
    v.push(ShimDef { desc: "Ljava/util/Deque;", super_desc: Some("Ljava/util/Collection;"), interfaces: &[], flags: ACC_INTERFACE | ACC_ABSTRACT, statics: &[] });
    v.push(ShimDef { desc: "Ljava/text/DateFormat;", super_desc: Some("Ljava/lang/Object;"), interfaces: &[], flags: 0, statics: &[] });
    v.push(ShimDef { desc: "Ljava/text/SimpleDateFormat;", super_desc: Some("Ljava/text/DateFormat;"), interfaces: &[], flags: 0, statics: &[] });
    v.push(ShimDef { desc: "Ljava/text/ParsePosition;", super_desc: Some("Ljava/lang/Object;"), interfaces: &[], flags: 0, statics: &[] });
    v.push(ShimDef { desc: "Ljava/util/concurrent/locks/Lock;", super_desc: None, interfaces: &[], flags: ACC_INTERFACE | ACC_ABSTRACT, statics: &[] });
    v.push(ShimDef { desc: "Ljava/util/concurrent/locks/ReentrantLock;", super_desc: Some("Ljava/lang/Object;"), interfaces: &[ "Ljava/util/concurrent/locks/Lock;", "Ljava/io/Serializable;" ], flags: 0, statics: &[] });
    v.push(ShimDef { desc: "Ljava/util/concurrent/locks/Condition;", super_desc: None, interfaces: &[], flags: ACC_INTERFACE | ACC_ABSTRACT, statics: &[] });
    v.push(ShimDef { desc: "Ljava/nio/charset/Charset;", super_desc: Some("Ljava/lang/Object;"), interfaces: &["Ljava/io/Serializable;", "Ljava/lang/Comparable;"], flags: 0, statics: &[] });
    v.push(ShimDef { desc: "Ljava/nio/charset/StandardCharsets;", super_desc: Some("Ljava/lang/Object;"), interfaces: &[], flags: 0, statics: &[ShimStaticDef { name: "UTF_8", ty: "Ljava/nio/charset/Charset;", value: ShimValue::Lazy(ShimLazy::CharsetUtf8) }, ShimStaticDef { name: "ISO_8859_1", ty: "Ljava/nio/charset/Charset;", value: ShimValue::Lazy(ShimLazy::CharsetIso) }, ShimStaticDef { name: "US_ASCII", ty: "Ljava/nio/charset/Charset;", value: ShimValue::Lazy(ShimLazy::CharsetAscii) }] });
    proof {
        assert(v@ =~= shim_part_5());
    }
    v
}

/// Shim class definitions, part 6.
pub open spec fn shim_part_6() -> Seq<ShimDef> {
    seq![
        ShimDef { desc: "Ljava/util/regex/Pattern;", super_desc: Some("Ljava/lang/Object;"), interfaces: &["Ljava/io/Serializable;"], flags: 0, statics: &[] },
        ShimDef { desc: "Ljava/util/regex/Matcher;", super_desc: Some("Ljava/lang/Object;"), interfaces: &[], flags: 0, statics: &[] },
        ShimDef { desc: "Ljava/util/Random;", super_desc: Some("Ljava/lang/Object;"), interfaces: &["Ljava/io/Serializable;"], flags: 0, statics: &[] },
        ShimDef { desc: "Ljava/util/Date;", super_desc: Some("Ljava/lang/Object;"), interfaces: &[ "Ljava/io/Serializable;", "Ljava/lang/Cloneable;", "Ljava/lang/Comparable;" ], flags: 0, statics: &[] },
        ShimDef { desc: "Ljava/lang/reflect/GenericDeclaration;", super_desc: Some("Ljava/lang/Object;"), interfaces: &[], flags: ACC_INTERFACE | ACC_ABSTRACT, statics: &[] },
        ShimDef { desc: "Ljava/lang/reflect/Type;", super_desc: Some("Ljava/lang/Object;"), interfaces: &[], flags: ACC_INTERFACE | ACC_ABSTRACT, statics: &[] },
        ShimDef { desc: "Ljava/lang/reflect/AnnotatedElement;", super_desc: Some("Ljava/lang/Object;"), interfaces: &[], flags: ACC_INTERFACE | ACC_ABSTRACT, statics: &[] },
        ShimDef { desc: "Ljava/lang/Appendable;", super_desc: Some("Ljava/lang/Object;"), interfaces: &[], flags: ACC_INTERFACE | ACC_ABSTRACT, statics: &[] },
        ShimDef { desc: "Ljava/io/Closeable;", super_desc: Some("Ljava/lang/Object;"), interfaces: &[], flags: ACC_INTERFACE | ACC_ABSTRACT, statics: &[] },
        ShimDef { desc: "Ljava/io/Flushable;", super_desc: Some("Ljava/lang/Object;"), interfaces: &[], flags: ACC_INTERFACE | ACC_ABSTRACT, statics: &[] },
        ShimDef { desc: "Lkotlin/Lazy;", super_desc: None, interfaces: &["Ljava/io/Serializable;"], flags: ACC_INTERFACE | ACC_ABSTRACT, statics: &[] },
        ShimDef { desc: "Lkotlin/SynchronizedLazyImpl;", super_desc: Some("Ljava/lang/Object;"), interfaces: &["Lkotlin/Lazy;", "Ljava/io/Serializable;"], flags: 0, statics: &[] },
        ShimDef { desc: "Lkotlin/jvm/functions/Function0;", super_desc: None, interfaces: &[], flags: ACC_INTERFACE | ACC_ABSTRACT, statics: &[] },
        ShimDef { desc: "Lkotlin/jvm/functions/Function1;", super_desc: None, interfaces: &[], flags: ACC_INTERFACE | ACC_ABSTRACT, statics: &[] },
        ShimDef { desc: "Lkotlin/LazyKt;", super_desc: Some("Ljava/lang/Object;"), interfaces: &[], flags: 0, statics: &[] },
        ShimDef { desc: "Lkotlin/time/Duration;", super_desc: Some("Ljava/lang/Object;"), interfaces: &[], flags: 0, statics: &[ShimStaticDef { name: "Companion", ty: "Lkotlin/time/Duration$Companion;", value: ShimValue::Lazy(ShimLazy::OpaqueInstance) }] },
        ShimDef { desc: "Lkotlin/time/Duration$Companion;", super_desc: Some("Ljava/lang/Object;"), interfaces: &[], flags: 0, statics: &[] },
        ShimDef { desc: "Lkotlin/time/DurationUnit;", super_desc: Some("Ljava/lang/Object;"), interfaces: &[], flags: 0, statics: &[ShimStaticDef { name: "SECONDS", ty: "Lkotlin/time/DurationUnit;", value: ShimValue::Lazy(ShimLazy::OpaqueInstance) }, ShimStaticDef { name: "MINUTES", ty: "Lkotlin/time/DurationUnit;", value: ShimValue::Lazy(ShimLazy::OpaqueInstance) }, ShimStaticDef { name: "MILLISECONDS", ty: "Lkotlin/time/DurationUnit;", value: ShimValue::Lazy(ShimLazy::OpaqueInstance) }, ShimStaticDef { name: "DAYS", ty: "Lkotlin/time/DurationUnit;", value: ShimValue::Lazy(ShimLazy::OpaqueInstance) }] },
        ShimDef { desc: "Lkotlin/time/DurationKt;", super_desc: Some("Ljava/lang/Object;"), interfaces: &[], flags: 0, statics: &[] },
        ShimDef { desc: "Lkotlin/text/Regex;", super_desc: Some("Ljava/lang/Object;"), interfaces: &["Ljava/io/Serializable;"], flags: 0, statics: &[] },
        ShimDef { desc: "Lkotlin/collections/CollectionsKt;", super_desc: Some("Ljava/lang/Object;"), interfaces: &[], flags: 0, statics: &[] },
        ShimDef { desc: "Lkotlin/collections/IntIterator;", super_desc: Some("Ljava/lang/Object;"), interfaces: &[], flags: 0, statics: &[] },
        ShimDef { desc: "Lkotlin/ranges/IntRange;", super_desc: Some("Ljava/lang/Object;"), interfaces: &[], flags: 0, statics: &[] },
        ShimDef { desc: "Lkotlin/comparisons/ComparisonsKt;", super_desc: Some("Ljava/lang/Object;"), interfaces: &[], flags: 0, statics: &[] },
        ShimDef { desc: "Lkotlin/jvm/internal/Intrinsics;", super_desc: Some("Ljava/lang/Object;"), interfaces: &[], flags: 0, statics: &[] },
        ShimDef { desc: "Lkotlin/Unit;", super_desc: Some("Ljava/lang/Object;"), interfaces: &[], flags: 0, statics: &[ShimStaticDef { name: "INSTANCE", ty: "Lkotlin/Unit;", value: ShimValue::Lazy(ShimLazy::OpaqueInstance) }] },
        ShimDef { desc: "Lkotlinx/coroutines/GlobalScope;", super_desc: Some("Ljava/lang/Object;"), interfaces: &[], flags: 0, statics: &[ShimStaticDef { name: "INSTANCE", ty: "Lkotlinx/coroutines/GlobalScope;", value: ShimValue::Lazy(ShimLazy::OpaqueInstance) }] },
        ShimDef { desc: "Lkotlin/coroutines/jvm/internal/SuspendLambda;", super_desc: Some("Ljava/lang/Object;"), interfaces: &[], flags: 0, statics: &[] },
        ShimDef { desc: "Lkotlin/coroutines/jvm/internal/ContinuationImpl;", super_desc: Some("Ljava/lang/Object;"), interfaces: &["Lkotlin/coroutines/Continuation;"], flags: 0, statics: &[] },
        ShimDef { desc: "Lkotlin/coroutines/Continuation;", super_desc: None, interfaces: &[], flags: ACC_INTERFACE | ACC_ABSTRACT, statics: &[] },
    ]
}

fn shim_classes_6() -> (r: Vec<ShimDef>)
    ensures
        r@ == shim_part_6(),
{
    let mut v: Vec<ShimDef> = Vec::new();
    v.push(ShimDef { desc: "Ljava/util/regex/Pattern;", super_desc: Some("Ljava/lang/Object;"), interfaces: &["Ljava/io/Serializable;"], flags: 0, statics: &[] });
    v.push(ShimDef { desc: "Ljava/util/regex/Matcher;", super_desc: Some("Ljava/lang/Object;"), interfaces: &[], flags: 0, statics: &[] });
    v.push(ShimDef { desc: "Ljava/util/Random;", super_desc: Some("Ljava/lang/Object;"), interfaces: &["Ljava/io/Serializable;"], flags: 0, statics: &[] });
    v.push(ShimDef { desc: "Ljava/util/Date;", super_desc: Some("Ljava/lang/Object;"), interfaces: &[ "Ljava/io/Serializable;", "Ljava/lang/Cloneable;", "Ljava/lang/Comparable;" ], flags: 0, statics: &[] });
    v.push(ShimDef { desc: "Ljava/lang/reflect/GenericDeclaration;", super_desc: Some("Ljava/lang/Object;"), interfaces: &[], flags: ACC_INTERFACE | ACC_ABSTRACT, statics: &[] });
    v.push(ShimDef { desc: "Ljava/lang/reflect/Type;", super_desc: Some("Ljava/lang/Object;"), interfaces: &[], flags: ACC_INTERFACE | ACC_ABSTRACT, statics: &[] });
    v.push(ShimDef { desc: "Ljava/lang/reflect/AnnotatedElement;", super_desc: Some("Ljava/lang/Object;"), interfaces: &[], flags: ACC_INTERFACE | ACC_ABSTRACT, statics: &[] });
    v.push(ShimDef { desc: "Ljava/lang/Appendable;", super_desc: Some("Ljava/lang/Object;"), interfaces: &[], flags: ACC_INTERFACE | ACC_ABSTRACT, statics: &[] });
    v.push(ShimDef { desc: "Ljava/io/Closeable;", super_desc: Some("Ljava/lang/Object;"), interfaces: &[], flags: ACC_INTERFACE | ACC_ABSTRACT, statics: &[] });
    v.push(ShimDef { desc: "Ljava/io/Flushable;", super_desc: Some("Ljava/lang/Object;"), interfaces: &[], flags: ACC_INTERFACE | ACC_ABSTRACT, statics: &[] });
    v.push(ShimDef { desc: "Lkotlin/Lazy;", super_desc: None, interfaces: &["Ljava/io/Serializable;"], flags: ACC_INTERFACE | ACC_ABSTRACT, statics: &[] });
    v.push(ShimDef { desc: "Lkotlin/SynchronizedLazyImpl;", super_desc: Some("Ljava/lang/Object;"), interfaces: &["Lkotlin/Lazy;", "Ljava/io/Serializable;"], flags: 0, statics: &[] });
    v.push(ShimDef { desc: "Lkotlin/jvm/functions/Function0;", super_desc: None, interfaces: &[], flags: ACC_INTERFACE | ACC_ABSTRACT, statics: &[] });
    v.push(ShimDef { desc: "Lkotlin/jvm/functions/Function1;", super_desc: None, interfaces: &[], flags: ACC_INTERFACE | ACC_ABSTRACT, statics: &[] });
    v.push(ShimDef { desc: "Lkotlin/LazyKt;", super_desc: Some("Ljava/lang/Object;"), interfaces: &[], flags: 0, statics: &[] });
    v.push(ShimDef { desc: "Lkotlin/time/Duration;", super_desc: Some("Ljava/lang/Object;"), interfaces: &[], flags: 0, statics: &[ShimStaticDef { name: "Companion", ty: "Lkotlin/time/Duration$Companion;", value: ShimValue::Lazy(ShimLazy::OpaqueInstance) }] });
    v.push(ShimDef { desc: "Lkotlin/time/Duration$Companion;", super_desc: Some("Ljava/lang/Object;"), interfaces: &[], flags: 0, statics: &[] });
    v.push(ShimDef { desc: "Lkotlin/time/DurationUnit;", super_desc: Some("Ljava/lang/Object;"), interfaces: &[], flags: 0, statics: &[ShimStaticDef { name: "SECONDS", ty: "Lkotlin/time/DurationUnit;", value: ShimValue::Lazy(ShimLazy::OpaqueInstance) }, ShimStaticDef { name: "MINUTES", ty: "Lkotlin/time/DurationUnit;", value: ShimValue::Lazy(ShimLazy::OpaqueInstance) }, ShimStaticDef { name: "MILLISECONDS", ty: "Lkotlin/time/DurationUnit;", value: ShimValue::Lazy(ShimLazy::OpaqueInstance) }, ShimStaticDef { name: "DAYS", ty: "Lkotlin/time/DurationUnit;", value: ShimValue::Lazy(ShimLazy::OpaqueInstance) }] });
    v.push(ShimDef { desc: "Lkotlin/time/DurationKt;", super_desc: Some("Ljava/lang/Object;"), interfaces: &[], flags: 0, statics: &[] });
    v.push(ShimDef { desc: "Lkotlin/text/Regex;", super_desc: Some("Ljava/lang/Object;"), interfaces: &["Ljava/io/Serializable;"], flags: 0, statics: &[] });
    v.push(ShimDef { desc: "Lkotlin/collections/CollectionsKt;", super_desc: Some("Ljava/lang/Object;"), interfaces: &[], flags: 0, statics: &[] });
    v.push(ShimDef { desc: "Lkotlin/collections/IntIterator;", super_desc: Some("Ljava/lang/Object;"), interfaces: &[], flags: 0, statics: &[] });
    v.push(ShimDef { desc: "Lkotlin/ranges/IntRange;", super_desc: Some("Ljava/lang/Object;"), interfaces: &[], flags: 0, statics: &[] });
    v.push(ShimDef { desc: "Lkotlin/comparisons/ComparisonsKt;", super_desc: Some("Ljava/lang/Object;"), interfaces: &[], flags: 0, statics: &[] });
    v.push(ShimDef { desc: "Lkotlin/jvm/internal/Intrinsics;", super_desc: Some("Ljava/lang/Object;"), interfaces: &[], flags: 0, statics: &[] });
    v.push(ShimDef { desc: "Lkotlin/Unit;", super_desc: Some("Ljava/lang/Object;"), interfaces: &[], flags: 0, statics: &[ShimStaticDef { name: "INSTANCE", ty: "Lkotlin/Unit;", value: ShimValue::Lazy(ShimLazy::OpaqueInstance) }] });
    v.push(ShimDef { desc: "Lkotlinx/coroutines/GlobalScope;", super_desc: Some("Ljava/lang/Object;"), interfaces: &[], flags: 0, statics: &[ShimStaticDef { name: "INSTANCE", ty: "Lkotlinx/coroutines/GlobalScope;", value: ShimValue::Lazy(ShimLazy::OpaqueInstance) }] });
    v.push(ShimDef { desc: "Lkotlin/coroutines/jvm/internal/SuspendLambda;", super_desc: Some("Ljava/lang/Object;"), interfaces: &[], flags: 0, statics: &[] });
    v.push(ShimDef { desc: "Lkotlin/coroutines/jvm/internal/ContinuationImpl;", super_desc: Some("Ljava/lang/Object;"), interfaces: &["Lkotlin/coroutines/Continuation;"], flags: 0, statics: &[] });
    v.push(ShimDef { desc: "Lkotlin/coroutines/Continuation;", super_desc: None, interfaces: &[], flags: ACC_INTERFACE | ACC_ABSTRACT, statics: &[] });
    proof {
        assert(v@ =~= shim_part_6());
    }
    v
}

/// Shim class definitions, part 7.
pub open spec fn shim_part_7() -> Seq<ShimDef> {
    seq![
        ShimDef { desc: "Lkotlin/coroutines/intrinsics/IntrinsicsKt;", super_desc: Some("Ljava/lang/Object;"), interfaces: &[], flags: 0, statics: &[] },
        ShimDef { desc: "Lkotlin/ResultKt;", super_desc: Some("Ljava/lang/Object;"), interfaces: &[], flags: 0, statics: &[] },
        ShimDef { desc: "Lkotlin/jvm/functions/Function2;", super_desc: None, interfaces: &[], flags: ACC_INTERFACE | ACC_ABSTRACT, statics: &[] },
        ShimDef { desc: "Lokhttp3/CacheControl$Builder;", super_desc: Some("Ljava/lang/Object;"), interfaces: &[], flags: 0, statics: &[] },
        ShimDef { desc: "Lkotlin/coroutines/CoroutineDispatcher;", super_desc: Some("Ljava/lang/Object;"), interfaces: &[], flags: 0, statics: &[] },
        ShimDef { desc: "Lkotlin/Pair;", super_desc: Some("Ljava/lang/Object;"), interfaces: &["Ljava/io/Serializable;"], flags: 0, statics: &[] },
        ShimDef { desc: "Lkotlin/Result$Failure;", super_desc: Some("Ljava/lang/Object;"), interfaces: &[], flags: 0, statics: &[] },
        ShimDef { desc: "Lkotlin/Result;", super_desc: Some("Ljava/lang/Object;"), interfaces: &[], flags: 0, statics: &[ShimStaticDef { name: "Companion", ty: "Lkotlin/Result$Companion;", value: ShimValue::Lazy(ShimLazy::OpaqueInstance) }] },
        ShimDef { desc: "Lkotlin/Result$Companion;", super_desc: Some("Ljava/lang/Object;"), interfaces: &[], flags: 0, statics: &[] },
        ShimDef { desc: "Lkotlin/text/MatchResult;", super_desc: None, interfaces: &[], flags: ACC_INTERFACE | ACC_ABSTRACT, statics: &[] },
        ShimDef { desc: "Lkotlin/TuplesKt;", super_desc: Some("Ljava/lang/Object;"), interfaces: &[], flags: 0, statics: &[] },
        ShimDef { desc: "Lkotlin/ranges/RangesKt;", super_desc: Some("Ljava/lang/Object;"), interfaces: &[], flags: 0, statics: &[] },
        ShimDef { desc: "Lkotlin/jvm/internal/DefaultConstructorMarker;", super_desc: Some("Ljava/lang/Object;"), interfaces: &[], flags: 0, statics: &[] },
        ShimDef { desc: "Lkotlinx/serialization/json/Json;", super_desc: Some("Ljava/lang/Object;"), interfaces: &["Ljava/io/Serializable;"], flags: 0, statics: &[] },
        ShimDef { desc: "Lkotlinx/serialization/json/JsonElement;", super_desc: Some("Ljava/lang/Object;"), interfaces: &["Ljava/io/Serializable;"], flags: ACC_ABSTRACT, statics: &[ShimStaticDef { name: "Companion", ty: "Lkotlinx/serialization/json/JsonElement$Companion;", value: ShimValue::Lazy(ShimLazy::OpaqueInstance) }] },
        ShimDef { desc: "Lkotlinx/serialization/json/JsonElement$Companion;", super_desc: Some("Ljava/lang/Object;"), interfaces: &[], flags: 0, statics: &[] },
        ShimDef { desc: "Lkotlinx/serialization/json/JsonObject;", super_desc: Some("Lkotlinx/serialization/json/JsonElement;"), interfaces: &[], flags: 0, statics: &[] },
        ShimDef { desc: "Lkotlinx/serialization/json/JsonArray;", super_desc: Some("Lkotlinx/serialization/json/JsonElement;"), interfaces: &[], flags: 0, statics: &[] },
        ShimDef { desc: "Lkotlinx/serialization/json/JsonPrimitive;", super_desc: Some("Lkotlinx/serialization/json/JsonElement;"), interfaces: &[], flags: ACC_ABSTRACT, statics: &[] },
        ShimDef { desc: "Lkotlinx/serialization/json/JsonNull;", super_desc: Some("Lkotlinx/serialization/json/JsonPrimitive;"), interfaces: &[], flags: 0, statics: &[] },
        ShimDef { desc: "Lkotlinx/serialization/json/JsonLiteral;", super_desc: Some("Lkotlinx/serialization/json/JsonPrimitive;"), interfaces: &[], flags: 0, statics: &[] },
        ShimDef { desc: "Lkotlinx/serialization/SerializationStrategy;", super_desc: None, interfaces: &[], flags: ACC_INTERFACE | ACC_ABSTRACT, statics: &[] },
        ShimDef { desc: "Lkotlinx/serialization/DeserializationStrategy;", super_desc: None, interfaces: &[], flags: ACC_INTERFACE | ACC_ABSTRACT, statics: &[] },
        ShimDef { desc: "Lkotlinx/serialization/KSerializer;", super_desc: None, interfaces: &[ "Lkotlinx/serialization/SerializationStrategy;", "Lkotlinx/serialization/DeserializationStrategy;", ], flags: ACC_INTERFACE | ACC_ABSTRACT, statics: &[] },
        ShimDef { desc: "Lkotlinx/serialization/encoding/Decoder;", super_desc: None, interfaces: &[], flags: ACC_INTERFACE | ACC_ABSTRACT, statics: &[] },
        ShimDef { desc: "Lkotlinx/serialization/encoding/CompositeDecoder;", super_desc: None, interfaces: &["Lkotlinx/serialization/encoding/Decoder;"], flags: ACC_INTERFACE | ACC_ABSTRACT, statics: &[] },
        ShimDef { desc: "Lkotlinx/serialization/encoding/Encoder;", super_desc: None, interfaces: &[], flags: ACC_INTERFACE | ACC_ABSTRACT, statics: &[] },
        ShimDef { desc: "Lkotlinx/serialization/encoding/CompositeEncoder;", super_desc: None, interfaces: &["Lkotlinx/serialization/encoding/Encoder;"], flags: ACC_INTERFACE | ACC_ABSTRACT, statics: &[] },
        ShimDef { desc: "Lkotlinx/serialization/json/JsonDecoder;", super_desc: None, interfaces: &["Lkotlinx/serialization/encoding/Decoder;"], flags: ACC_INTERFACE | ACC_ABSTRACT, statics: &[] },
        ShimDef { desc: "Lkotlinx/serialization/descriptors/SerialDescriptor;", super_desc: None, interfaces: &[], flags: ACC_INTERFACE | ACC_ABSTRACT, statics: &[] },
    ]
}

fn shim_classes_7() -> (r: Vec<ShimDef>)
    ensures
        r@ == shim_part_7(),
{
    let mut v: Vec<ShimDef> = Vec::new();
    v.push(ShimDef { desc: "Lkotlin/coroutines/intrinsics/IntrinsicsKt;", super_desc: Some("Ljava/lang/Object;"), interfaces: &[], flags: 0, statics: &[] });
    v.push(ShimDef { desc: "Lkotlin/ResultKt;", super_desc: Some("Ljava/lang/Object;"), interfaces: &[], flags: 0, statics: &[] });
    v.push(ShimDef { desc: "Lkotlin/jvm/functions/Function2;", super_desc: None, interfaces: &[], flags: ACC_INTERFACE | ACC_ABSTRACT, statics: &[] });
    v.push(ShimDef { desc: "Lokhttp3/CacheControl$Builder;", super_desc: Some("Ljava/lang/Object;"), interfaces: &[], flags: 0, statics: &[] });
    v.push(ShimDef { desc: "Lkotlin/coroutines/CoroutineDispatcher;", super_desc: Some("Ljava/lang/Object;"), interfaces: &[], flags: 0, statics: &[] });
    v.push(ShimDef { desc: "Lkotlin/Pair;", super_desc: Some("Ljava/lang/Object;"), interfaces: &["Ljava/io/Serializable;"], flags: 0, statics: &[] });
    v.push(ShimDef { desc: "Lkotlin/Result$Failure;", super_desc: Some("Ljava/lang/Object;"), interfaces: &[], flags: 0, statics: &[] });
    v.push(ShimDef { desc: "Lkotlin/Result;", super_desc: Some("Ljava/lang/Object;"), interfaces: &[], flags: 0, statics: &[ShimStaticDef { name: "Companion", ty: "Lkotlin/Result$Companion;", value: ShimValue::Lazy(ShimLazy::OpaqueInstance) }] });
    v.push(ShimDef { desc: "Lkotlin/Result$Companion;", super_desc: Some("Ljava/lang/Object;"), interfaces: &[], flags: 0, statics: &[] });
    v.push(ShimDef { desc: "Lkotlin/text/MatchResult;", super_desc: None, interfaces: &[], flags: ACC_INTERFACE | ACC_ABSTRACT, statics: &[] });
    v.push(ShimDef { desc: "Lkotlin/TuplesKt;", super_desc: Some("Ljava/lang/Object;"), interfaces: &[], flags: 0, statics: &[] });
    v.push(ShimDef { desc: "Lkotlin/ranges/RangesKt;", super_desc: Some("Ljava/lang/Object;"), interfaces: &[], flags: 0, statics: &[] });
    v.push(ShimDef { desc: "Lkotlin/jvm/internal/DefaultConstructorMarker;", super_desc: Some("Ljava/lang/Object;"), interfaces: &[], flags: 0, statics: &[] });
    v.push(ShimDef { desc: "Lkotlinx/serialization/json/Json;", super_desc: Some("Ljava/lang/Object;"), interfaces: &["Ljava/io/Serializable;"], flags: 0, statics: &[] });
    v.push(ShimDef { desc: "Lkotlinx/serialization/json/JsonElement;", super_desc: Some("Ljava/lang/Object;"), interfaces: &["Ljava/io/Serializable;"], flags: ACC_ABSTRACT, statics: &[ShimStaticDef { name: "Companion", ty: "Lkotlinx/serialization/json/JsonElement$Companion;", value: ShimValue::Lazy(ShimLazy::OpaqueInstance) }] });
    v.push(ShimDef { desc: "Lkotlinx/serialization/json/JsonElement$Companion;", super_desc: Some("Ljava/lang/Object;"), interfaces: &[], flags: 0, statics: &[] });
    v.push(ShimDef { desc: "Lkotlinx/serialization/json/JsonObject;", super_desc: Some("Lkotlinx/serialization/json/JsonElement;"), interfaces: &[], flags: 0, statics: &[] });
    v.push(ShimDef { desc: "Lkotlinx/serialization/json/JsonArray;", super_desc: Some("Lkotlinx/serialization/json/JsonElement;"), interfaces: &[], flags: 0, statics: &[] });
    v.push(ShimDef { desc: "Lkotlinx/serialization/json/JsonPrimitive;", super_desc: Some("Lkotlinx/serialization/json/JsonElement;"), interfaces: &[], flags: ACC_ABSTRACT, statics: &[] });
    v.push(ShimDef { desc: "Lkotlinx/serialization/json/JsonNull;", super_desc: Some("Lkotlinx/serialization/json/JsonPrimitive;"), interfaces: &[], flags: 0, statics: &[] });
    v.push(ShimDef { desc: "Lkotlinx/serialization/json/JsonLiteral;", super_desc: Some("Lkotlinx/serialization/json/JsonPrimitive;"), interfaces: &[], flags: 0, statics: &[] });
    v.push(ShimDef { desc: "Lkotlinx/serialization/SerializationStrategy;", super_desc: None, interfaces: &[], flags: ACC_INTERFACE | ACC_ABSTRACT, statics: &[] });
    v.push(ShimDef { desc: "Lkotlinx/serialization/DeserializationStrategy;", super_desc: None, interfaces: &[], flags: ACC_INTERFACE | ACC_ABSTRACT, statics: &[] });
    v.push(ShimDef { desc: "Lkotlinx/serialization/KSerializer;", super_desc: None, interfaces: &[ "Lkotlinx/serialization/SerializationStrategy;", "Lkotlinx/serialization/DeserializationStrategy;", ], flags: ACC_INTERFACE | ACC_ABSTRACT, statics: &[] });
    v.push(ShimDef { desc: "Lkotlinx/serialization/encoding/Decoder;", super_desc: None, interfaces: &[], flags: ACC_INTERFACE | ACC_ABSTRACT, statics: &[] });
    v.push(ShimDef { desc: "Lkotlinx/serialization/encoding/CompositeDecoder;", super_desc: None, interfaces: &["Lkotlinx/serialization/encoding/Decoder;"], flags: ACC_INTERFACE | ACC_ABSTRACT, statics: &[] });
    v.push(ShimDef { desc: "Lkotlinx/serialization/encoding/Encoder;", super_desc: None, interfaces: &[], flags: ACC_INTERFACE | ACC_ABSTRACT, statics: &[] });
    v.push(ShimDef { desc: "Lkotlinx/serialization/encoding/CompositeEncoder;", super_desc: None, interfaces: &["Lkotlinx/serialization/encoding/Encoder;"], flags: ACC_INTERFACE | ACC_ABSTRACT, statics: &[] });
    v.push(ShimDef { desc: "Lkotlinx/serialization/json/JsonDecoder;", super_desc: None, interfaces: &["Lkotlinx/serialization/encoding/Decoder;"], flags: ACC_INTERFACE | ACC_ABSTRACT, statics: &[] });
    v.push(ShimDef { desc: "Lkotlinx/serialization/descriptors/SerialDescriptor;", super_desc: None, interfaces: &[], flags: ACC_INTERFACE | ACC_ABSTRACT, statics: &[] });
    proof {
        assert(v@ =~= shim_part_7());
    }
    v
}

/// Shim class definitions, part 8.
pub open spec fn shim_part_8() -> Seq<ShimDef> {
    seq![
        ShimDef { desc: "Lkotlinx/serialization/internal/GeneratedSerializer;", super_desc: None, interfaces: &["Lkotlinx/serialization/KSerializer;"], flags: ACC_INTERFACE | ACC_ABSTRACT, statics: &[] },
        ShimDef { desc: "Lkotlinx/serialization/internal/PluginGeneratedSerialDescriptor;", super_desc: Some("Ljava/lang/Object;"), interfaces: &["Lkotlinx/serialization/descriptors/SerialDescriptor;"], flags: 0, statics: &[] },
        ShimDef { desc: "Lkotlinx/serialization/internal/ArrayListSerializer;", super_desc: Some("Ljava/lang/Object;"), interfaces: &["Lkotlinx/serialization/KSerializer;"], flags: 0, statics: &[] },
        ShimDef { desc: "Lkotlinx/serialization/json/okio/OkioStreamsKt;", super_desc: Some("Ljava/lang/Object;"), interfaces: &[], flags: 0, statics: &[] },
        ShimDef { desc: "Lcom/squareup/zstd/okio/OkioZstd;", super_desc: Some("Ljava/lang/Object;"), interfaces: &[], flags: 0, statics: &[] },
        ShimDef { desc: "Lkotlinx/serialization/json/internal/StreamingJsonDecoder;", super_desc: Some("Ljava/lang/Object;"), interfaces: &[ "Lkotlinx/serialization/json/JsonDecoder;", "Lkotlinx/serialization/encoding/CompositeDecoder;", ], flags: 0, statics: &[] },
        ShimDef { desc: "Lkotlinx/serialization/UnknownFieldException;", super_desc: Some("Ljava/lang/IllegalArgumentException;"), interfaces: &[], flags: 0, statics: &[] },
        ShimDef { desc: "Luy/kohesive/injekt/InjektKt;", super_desc: Some("Ljava/lang/Object;"), interfaces: &[], flags: 0, statics: &[] },
        ShimDef { desc: "Luy/kohesive/injekt/api/InjektScope;", super_desc: None, interfaces: &["Luy/kohesive/injekt/api/InjektFactory;"], flags: ACC_INTERFACE | ACC_ABSTRACT, statics: &[] },
        ShimDef { desc: "Luy/kohesive/injekt/api/InjektFactory;", super_desc: None, interfaces: &[], flags: ACC_INTERFACE | ACC_ABSTRACT, statics: &[] },
        ShimDef { desc: "Luy/kohesive/injekt/api/InjektRegister;", super_desc: None, interfaces: &[], flags: ACC_INTERFACE | ACC_ABSTRACT, statics: &[] },
        ShimDef { desc: "Luy/kohesive/injekt/api/FullTypeReference;", super_desc: Some("Ljava/lang/Object;"), interfaces: &[], flags: 0, statics: &[] },
    ]
}

fn shim_classes_8() -> (r: Vec<ShimDef>)
    ensures
        r@ == shim_part_8(),
{
    let mut v: Vec<ShimDef> = Vec::new();
    v.push(ShimDef { desc: "Lkotlinx/serialization/internal/GeneratedSerializer;", super_desc: None, interfaces: &["Lkotlinx/serialization/KSerializer;"], flags: ACC_INTERFACE | ACC_ABSTRACT, statics: &[] });
    v.push(ShimDef { desc: "Lkotlinx/serialization/internal/PluginGeneratedSerialDescriptor;", super_desc: Some("Ljava/lang/Object;"), interfaces: &["Lkotlinx/serialization/descriptors/SerialDescriptor;"], flags: 0, statics: &[] });
    v.push(ShimDef { desc: "Lkotlinx/serialization/internal/ArrayListSerializer;", super_desc: Some("Ljava/lang/Object;"), interfaces: &["Lkotlinx/serialization/KSerializer;"], flags: 0, statics: &[] });
    v.push(ShimDef { desc: "Lkotlinx/serialization/json/okio/OkioStreamsKt;", super_desc: Some("Ljava/lang/Object;"), interfaces: &[], flags: 0, statics: &[] });
    v.push(ShimDef { desc: "Lcom/squareup/zstd/okio/OkioZstd;", super_desc: Some("Ljava/lang/Object;"), interfaces: &[], flags: 0, statics: &[] });
    v.push(ShimDef { desc: "Lkotlinx/serialization/json/internal/StreamingJsonDecoder;", super_desc: Some("Ljava/lang/Object;"), interfaces: &[ "Lkotlinx/serialization/json/JsonDecoder;", "Lkotlinx/serialization/encoding/CompositeDecoder;", ], flags: 0, statics: &[] });
    v.push(ShimDef { desc: "Lkotlinx/serialization/UnknownFieldException;", super_desc: Some("Ljava/lang/IllegalArgumentException;"), interfaces: &[], flags: 0, statics: &[] });
    v.push(ShimDef { desc: "Luy/kohesive/injekt/InjektKt;", super_desc: Some("Ljava/lang/Object;"), interfaces: &[], flags: 0, statics: &[] });
    v.push(ShimDef { desc: "Luy/kohesive/injekt/api/InjektScope;", super_desc: None, interfaces: &["Luy/kohesive/injekt/api/InjektFactory;"], flags: ACC_INTERFACE | ACC_ABSTRACT, statics: &[] });
    v.push(ShimDef { desc: "Luy/kohesive/injekt/api/InjektFactory;", super_desc: None, interfaces: &[], flags: ACC_INTERFACE | ACC_ABSTRACT, statics: &[] });
    v.push(ShimDef { desc: "Luy/kohesive/injekt/api/InjektRegister;", super_desc: None, interfaces: &[], flags: ACC_INTERFACE | ACC_ABSTRACT, statics: &[] });
    v.push(ShimDef { desc: "Luy/kohesive/injekt/api/FullTypeReference;", super_desc: Some("Ljava/lang/Object;"), interfaces: &[], flags: 0, statics: &[] });
    proof {
        assert(v@ =~= shim_part_8());
    }
    v
}

/// Every shim class definition, in order.
pub open spec fn shim_table() -> Seq<ShimDef> {
    shim_part_0() + shim_part_1() + shim_part_2() + shim_part_3() + shim_part_4() + shim_part_5() + shim_part_6() + shim_part_7() + shim_part_8()
}

/// The shim classes the host provides (descriptor, superclass, interfaces,
/// access flags and static fields).
pub fn shim_classes() -> (r: Vec<ShimDef>)
    ensures
        r@ == shim_table(),
{
    let mut v = shim_classes_0();
    let mut w = shim_classes_1();
    v.append(&mut w);
    let mut w = shim_classes_2();
    v.append(&mut w);
    let mut w = shim_classes_3();
    v.append(&mut w);
    let mut w = shim_classes_4();
    v.append(&mut w);
    let mut w = shim_classes_5();
    v.append(&mut w);
    let mut w = shim_classes_6();
    v.append(&mut w);
    let mut w = shim_classes_7();
    v.append(&mut w);
    let mut w = shim_classes_8();
    v.append(&mut w);
    proof {
        assert(v@ =~= shim_table());
    }
    v
}

/// The shim definition for descriptor `desc`, if there is one.
pub fn find_shim(defs: &Vec<ShimDef>, desc: &str) -> (r: Option<ShimDef>)
    ensures
        r is Some <==> exists|i: int| 0 <= i < defs@.len() && defs@[i].desc@ == desc@,
        r matches Some(d) ==> d.desc@ == desc@ && exists|i: int| 0 <= i < defs@.len() && defs@[i] == d,
{
    let mut i: usize = 0;
    while i < defs.len()
        invariant
            i <= defs@.len(),
            forall|j: int| 0 <= j < i ==> defs@[j].desc@ != desc@,
        decreases defs@.len() - i,
    {
        if str_eq(defs[i].desc, desc) {
            return Some(defs[i]);
        }
        i += 1;
    }
    None
}


proof fn lemma_pair_lookup_update<V>(s: Seq<((u32, u32), V)>, i: int, k: (u32, u32), v: V, q: (u32, u32))
    requires
        0 <= i < s.len(),
        s[i].0 == k,
        forall|j: int| 0 <= j < i ==> s[j].0 != k,
    ensures
        pair_lookup(s.update(i, (k, v)), q) == (if q == k { Some(v) } else { pair_lookup(s, q) }),
    decreases s.len(),
{
    let u = s.update(i, (k, v));
    if i > 0 {
        assert(u.drop_first() =~= s.drop_first().update(i - 1, (k, v)));
        lemma_pair_lookup_update(s.drop_first(), i - 1, k, v, q);
        assert(u[0] == s[0]);
    } else {
        assert(u.drop_first() =~= s.drop_first());
        assert(u[0] == (k, v));
    }
}

proof fn lemma_pair_lookup_push<V>(s: Seq<((u32, u32), V)>, k: (u32, u32), v: V, q: (u32, u32))
    requires
        pair_lookup(s, k) is None,
    ensures
        pair_lookup(s.push((k, v)), q) == (if q == k { Some(v) } else { pair_lookup(s, q) }),
    decreases s.len(),
{
    let p = s.push((k, v));
    if s.len() > 0 {
        assert(p.drop_first() =~= s.drop_first().push((k, v)));
        lemma_pair_lookup_push(s.drop_first(), k, v, q);
        assert(p[0] == s[0]);
    } else {
        assert(p.drop_first() =~= s);
        assert(p[0] == (k, v));
    }
}

proof fn lemma_pair_lookup_none<V>(s: Seq<((u32, u32), V)>, k: (u32, u32))
    requires
        forall|j: int| 0 <= j < s.len() ==> s[j].0 != k,
    ensures
        pair_lookup(s, k) is None,
    decreases s.len(),
{
    if s.len() > 0 {
        lemma_pair_lookup_none(s.drop_first(), k);
    }
}

/// Stores `v` under `k`, replacing the value a previous entry held.
pub fn pair_put<V: Copy>(s: &mut Vec<((u32, u32), V)>, k: (u32, u32), v: V)
    ensures
        forall|q: (u32, u32)| pair_lookup(final(s)@, q) == (if q == k { Some(v) } else { pair_lookup(old(s)@, q) }),
        final(s)@.len() <= old(s)@.len() + 1,
        forall|j: int| 0 <= j < final(s)@.len() ==> final(s)@[j] == old(s)@[j] || final(s)@[j] == (k, v),
        forall|j: int| 0 <= j < old(s)@.len() ==> final(s)@[j] == old(s)@[j] || final(s)@[j] == (k, v),
        final(s)@.len() >= old(s)@.len(),
        final(s)@.len() == old(s)@.len() || final(s)@[old(s)@.len() as int] == (k, v),
{
    let mut i: usize = 0;
    while i < s.len()
        invariant
            i <= s@.len(),
            s@ == old(s)@,
            forall|j: int| 0 <= j < i ==> s@[j].0 != k,
        decreases s@.len() - i,
    {
        if s[i].0.0 == k.0 && s[i].0.1 == k.1 {
            proof {
                assert forall|q: (u32, u32)| pair_lookup(s@.update(i as int, (k, v)), q) == (if q == k { Some(v) } else { pair_lookup(old(s)@, q) }) by {
                    lemma_pair_lookup_update(old(s)@, i as int, k, v, q);
                }
            }
            s.set(i, (k, v));
            return;
        }
        i += 1;
    }
    proof {
        lemma_pair_lookup_none(old(s)@, k);
        assert forall|q: (u32, u32)| pair_lookup(old(s)@.push((k, v)), q) == (if q == k { Some(v) } else { pair_lookup(old(s)@, q) }) by {
            lemma_pair_lookup_push(old(s)@, k, v, q);
        }
    }
    s.push((k, v));
}

} // verus!
