//! Locating the class an extension is entered through: a loaded class
//! declaring a method, a dex class declaring one (the factory shape), or a
//! concrete subclass of `HttpSource` (the older shape).

use vstd::prelude::*;

use crate::cipher::{ends, str_ends_with};
use crate::class::Class;
use crate::dex::{ClassDef, DexFile, EncodedMethod};
use crate::error::JvmError;
use crate::loader::dex_defines;
use crate::value::{concat, str_eq, to_owned_string};
use crate::vm::{load_post, Vm};

verus! {

/// Loaded class `c` declares a method called `name`.
pub open spec fn declares(vm: &Vm, c: Class, name: Seq<char>) -> bool {
    exists|k: int| 0 <= k < c.methods@.len() && vm.intern@[(#[trigger] c.methods@[k]).name as int]@ == name
}

/// Method id `m` of dex `d` is called `name`.
pub open spec fn dex_method_named(d: DexFile, m: u32, name: Seq<char>) -> bool {
    &&& (m as int) < d.methods@.len()
    &&& (d.methods@[m as int].name as int) < d.strings@.len()
    &&& d.strings@[d.methods@[m as int].name as int]@ == name
}

/// Class definition `cd` of dex `d` declares (directly or virtually) a
/// method called `name`.
pub open spec fn def_declares(d: DexFile, cd: ClassDef, name: Seq<char>) -> bool {
    match cd.class_data {
        Some(data) => (exists|k: int| 0 <= k < data.direct_methods@.len() && dex_method_named(d, (#[trigger] data.direct_methods@[k]).method_idx, name))
            || (exists|k: int| 0 <= k < data.virtual_methods@.len() && dex_method_named(d, (#[trigger] data.virtual_methods@[k]).method_idx, name)),
        None => false,
    }
}

/// `(d1, k1)` comes before `(d2, k2)` in dex order.
pub open spec fn before(d1: int, k1: int, d2: int, k2: int) -> bool {
    d1 < d2 || (d1 == d2 && k1 < k2)
}

/// Class definition `k` of dex `d` exists.
pub open spec fn def_at(vm: &Vm, d: int, k: int) -> bool {
    0 <= d < vm.dexes@.len() && 0 <= k < vm.dexes@[d].classes@.len()
}

/// `(d, k)` is the first class definition, in dex order, declaring `name`.
pub open spec fn first_declaring(vm: &Vm, name: Seq<char>, d: int, k: int) -> bool {
    &&& def_at(vm, d, k)
    &&& def_declares(vm.dexes@[d], vm.dexes@[d].classes@[k], name)
    &&& forall|d2: int, k2: int| #[trigger] def_at(vm, d2, k2) && before(d2, k2, d, k)
        ==> !def_declares(vm.dexes@[d2], vm.dexes@[d2].classes@[k2], name)
}

/// The descriptor of class definition `cd` of dex `d`.
pub open spec fn def_desc(d: DexFile, cd: ClassDef) -> Seq<char> {
    d.type_desc(cd.class_idx)
}

/// Whether some method in `ms` is called `name`.
fn any_named(d: &DexFile, ms: &Vec<EncodedMethod>, name: &str) -> (r: bool)
    ensures
        r == exists|k: int| 0 <= k < ms@.len() && dex_method_named(*d, (#[trigger] ms@[k]).method_idx, name@),
{
    let mut i: usize = 0;
    while i < ms.len()
        invariant
            i <= ms@.len(),
            forall|k: int| 0 <= k < i ==> !dex_method_named(*d, (#[trigger] ms@[k]).method_idx, name@),
        decreases ms@.len() - i,
    {
        match d.method_at(ms[i].method_idx) {
            Some(m) => match d.string_at(m.name) {
                Some(s) => {
                    if str_eq(s, name) {
                        return true;
                    }
                },
                None => {},
            },
            None => {},
        }
        i += 1;
    }
    false
}

/// Whether class definition `cd` of dex `d` declares a method `name`.
fn declares_exec(d: &DexFile, cd: &ClassDef, name: &str) -> (r: bool)
    ensures
        r == def_declares(*d, *cd, name@),
{
    match &cd.class_data {
        Some(data) => any_named(d, &data.direct_methods, name) || any_named(d, &data.virtual_methods, name),
        None => false,
    }
}

/// The descriptor of the superclass named by class definition `cd` of dex
/// `d` (none for a root class or an index out of range).
pub open spec fn def_super(d: DexFile, cd: ClassDef) -> Option<Seq<char>> {
    let s = cd.superclass_idx;
    if s == u32::MAX {
        None
    } else if (s as int) < d.types@.len() && (d.types@[s as int] as int) < d.strings@.len() {
        Some(d.strings@[d.types@[s as int] as int]@)
    } else {
        None
    }
}

/// `(d, k)` is where descriptor `desc` is found: the first dex defining it,
/// and the first definition in that dex.
pub open spec fn first_def(vm: &Vm, desc: Seq<char>, d: int, k: int) -> bool {
    &&& def_at(vm, d, k)
    &&& vm.dexes@[d].type_desc(vm.dexes@[d].classes@[k].class_idx) == desc
    &&& forall|e: int| 0 <= e < d ==> !dex_defines(#[trigger] vm.dexes@[e], desc)
    &&& forall|j: int| 0 <= j < k ==> vm.dexes@[d].type_desc(vm.dexes@[d].classes@[j].class_idx) != desc
}

/// The superclass descriptor of the class found for `desc`.
pub open spec fn next_super(vm: &Vm, desc: Seq<char>) -> Option<Seq<char>> {
    if exists|d: int, k: int| #[trigger] first_def(vm, desc, d, k) {
        let (d, k) = choose|d: int, k: int| #[trigger] first_def(vm, desc, d, k);
        def_super(vm.dexes@[d], vm.dexes@[d].classes@[k])
    } else {
        None
    }
}

/// The class every online source extends.
pub open spec fn http_source() -> Seq<char> {
    "Leu/kanade/tachiyomi/source/online/HttpSource;"@
}

/// Following superclass descriptors from `sup`, `HttpSource` comes within
/// `fuel` steps.
pub open spec fn reaches_http_source(vm: &Vm, sup: Option<Seq<char>>, fuel: nat) -> bool
    decreases fuel,
{
    if fuel == 0 {
        false
    } else {
        match sup {
            None => false,
            Some(s) => s == http_source() || reaches_http_source(vm, next_super(vm, s), (fuel - 1) as nat),
        }
    }
}

/// Class definition `(d, k)` is a concrete class, not `HttpSource` itself,
/// whose superclass chain reaches `HttpSource` within four steps.
pub open spec fn source_candidate(vm: &Vm, d: int, k: int) -> bool {
    let dx = vm.dexes@[d];
    let cd = dx.classes@[k];
    &&& def_at(vm, d, k)
    &&& def_desc(dx, cd) != http_source()
    &&& reaches_http_source(vm, def_super(dx, cd), 4)
    &&& cd.access_flags & 0x400 == 0
}

/// A candidate named like a generated extension entry.
pub open spec fn entry_candidate(vm: &Vm, d: int, k: int) -> bool {
    source_candidate(vm, d, k) && ends(def_desc(vm.dexes@[d], vm.dexes@[d].classes@[k]), "ExtensionGenerated;"@)
}

/// Two positions with the same class descriptor found are the same.
proof fn lemma_first_def_unique(vm: &Vm, desc: Seq<char>, d1: int, k1: int, d2: int, k2: int)
    requires
        first_def(vm, desc, d1, k1),
        first_def(vm, desc, d2, k2),
    ensures
        d1 == d2 && k1 == k2,
{
    if d1 < d2 {
        assert(vm.dexes@[d1].type_desc(vm.dexes@[d1].classes@[k1].class_idx) == desc);
        assert(dex_defines(vm.dexes@[d1], desc));
    } else if d2 < d1 {
        assert(vm.dexes@[d2].type_desc(vm.dexes@[d2].classes@[k2].class_idx) == desc);
        assert(dex_defines(vm.dexes@[d2], desc));
    }
}

impl Vm {
    /// The descriptor of the first loaded class declaring a method called
    /// `name`.
    pub fn find_class_with_method(&self, name: &str) -> (r: Option<String>)
        requires
            self.wf(),
        ensures
            r matches Some(s) ==> exists|c: int| 0 <= c < self.classes@.len() && #[trigger] declares(self, self.classes@[c], name@)
                && (forall|c2: int| 0 <= c2 < c ==> !declares(self, #[trigger] self.classes@[c2], name@))
                && s@ == self.intern@[self.classes@[c].descriptor as int]@,
            r is None ==> forall|c: int| 0 <= c < self.classes@.len() ==> !declares(self, #[trigger] self.classes@[c], name@),
    {
        let mut c: usize = 0;
        while c < self.classes.len()
            invariant
                self.wf(),
                c <= self.classes@.len(),
                forall|c2: int| 0 <= c2 < c ==> !declares(self, #[trigger] self.classes@[c2], name@),
            decreases self.classes@.len() - c,
        {
            let ms = &self.classes[c].methods;
            proof {
                assert(self.class_ok(self.classes@[c as int]));
            }
            let mut k: usize = 0;
            while k < ms.len()
                invariant
                    self.wf(),
                    c < self.classes@.len(),
                    ms == &self.classes@[c as int].methods,
                    self.class_ok(self.classes@[c as int]),
                    forall|c2: int| 0 <= c2 < c ==> !declares(self, #[trigger] self.classes@[c2], name@),
                    k <= ms@.len(),
                    forall|j: int| 0 <= j < k ==> self.intern@[(#[trigger] ms@[j]).name as int]@ != name@,
                decreases ms@.len() - k,
            {
                assert(ms@[k as int].name < self.intern@.len());
                if str_eq(self.str_of(ms[k].name), name) {
                    proof {
                        assert(declares(self, self.classes@[c as int], name@));
                    }
                    assert(self.class_ok(self.classes@[c as int]));
                    return Some(to_owned_string(self.str_of(self.classes[c].descriptor)));
                }
                k += 1;
            }
            c += 1;
        }
        None
    }

    /// Finds, among the classes of the dex files (loaded or not), the first
    /// declaring a method called `name`, loads it and returns its
    /// descriptor. This is how an extension's factory class is located.
    pub fn find_factory_class(&mut self, name: &str) -> (r: Result<String, JvmError>)
        requires
            old(self).wf(),
        ensures
            load_post(old(self), final(self)),
            (exists|d: int, k: int| #[trigger] first_declaring(old(self), name@, d, k)) ==> (r matches Ok(s)
                ==> exists|d: int, k: int| #[trigger] first_declaring(old(self), name@, d, k)
                && s@ == def_desc(old(self).dexes@[d], old(self).dexes@[d].classes@[k])),
            !(exists|d: int, k: int| #[trigger] first_declaring(old(self), name@, d, k)) ==> (r matches Err(e)
                && e matches JvmError::Resolution(m) && m@ == "no class with method "@ + name@ + " in dex"@),
    {
        let mut d: usize = 0;
        while d < self.dexes.len()
            invariant
                *self == *old(self),
                self.wf(),
                d <= self.dexes@.len(),
                forall|d2: int, k2: int| #[trigger] def_at(self, d2, k2) && d2 < d
                    ==> !def_declares(self.dexes@[d2], self.dexes@[d2].classes@[k2], name@),
            decreases self.dexes@.len() - d,
        {
            let dx = &self.dexes[d];
            let mut k: usize = 0;
            while k < dx.classes.len()
                invariant
                    *self == *old(self),
                    self.wf(),
                    d < self.dexes@.len(),
                    dx == &self.dexes@[d as int],
                    k <= dx.classes@.len(),
                    forall|d2: int, k2: int| #[trigger] def_at(self, d2, k2) && before(d2, k2, d as int, k as int)
                        ==> !def_declares(self.dexes@[d2], self.dexes@[d2].classes@[k2], name@),
                decreases dx.classes@.len() - k,
            {
                if declares_exec(dx, &dx.classes[k], name) {
                    let desc = to_owned_string(dx.type_descriptor(dx.classes[k].class_idx));
                    proof {
                        assert(first_declaring(self, name@, d as int, k as int));
                    }
                    let cid = self.ensure_class_by_desc(desc.as_str())?;
                    return Ok(to_owned_string(self.str_of(self.classes[cid as usize].descriptor)));
                }
                k += 1;
            }
            d += 1;
        }
        proof {
            assert forall|d2: int, k2: int| !#[trigger] first_declaring(self, name@, d2, k2) by {
                if first_declaring(self, name@, d2, k2) {
                    assert(def_at(self, d2, k2));
                }
            }
        }
        Err(JvmError::Resolution(concat(concat("no class with method ", name).as_str(), " in dex")))
    }

    /// The superclass descriptor of class definition `cd` of `dx`.
    fn def_super_exec<'a>(dx: &'a DexFile, cd: &ClassDef) -> (r: Option<&'a str>)
        ensures
            r matches Some(t) ==> def_super(*dx, *cd) == Some(t@),
            r is None ==> def_super(*dx, *cd) is None,
    {
        let s = cd.superclass_idx;
        if s == u32::MAX {
            return None;
        }
        if (s as usize) < dx.types.len() {
            dx.string_at(dx.types[s as usize])
        } else {
            None
        }
    }

    /// The superclass descriptor of the class found for `desc`.
    fn next_super_exec(&self, desc: &str) -> (r: Option<&str>)
        requires
            self.dexes@.len() < u32::MAX,
        ensures
            r matches Some(t) ==> next_super(self, desc@) == Some(t@),
            r is None ==> next_super(self, desc@) is None,
    {
        match self.class_location(desc) {
            Some((d, k)) => {
                proof {
                    assert(first_def(self, desc@, d as int, k as int));
                    let (d2, k2) = choose|d2: int, k2: int| #[trigger] first_def(self, desc@, d2, k2);
                    lemma_first_def_unique(self, desc@, d as int, k as int, d2, k2);
                }
                Self::def_super_exec(&self.dexes[d as usize], &self.dexes[d as usize].classes[k])
            },
            None => {
                proof {
                    assert forall|d: int, k: int| !#[trigger] first_def(self, desc@, d, k) by {
                        if first_def(self, desc@, d, k) {
                            assert(dex_defines(self.dexes@[d], desc@));
                        }
                    }
                }
                None
            },
        }
    }

    /// Whether `HttpSource` comes within four superclass steps from `sup`.
    fn reaches_http_source_exec(&self, sup: Option<&str>) -> (r: bool)
        requires
            self.dexes@.len() < u32::MAX,
        ensures
            r == reaches_http_source(self, match sup {
                Some(t) => Some(t@),
                None => None,
            }, 4),
    {
        let ghost start = match sup {
            Some(t) => Some(t@),
            None => None::<Seq<char>>,
        };
        let mut cur = sup;
        let mut fuel: u32 = 4;
        proof {
            reveal_strlit("Leu/kanade/tachiyomi/source/online/HttpSource;");
        }
        while fuel > 0
            invariant
                self.dexes@.len() < u32::MAX,
                start == match sup {
                    Some(t) => Some(t@),
                    None => None::<Seq<char>>,
                },
                fuel <= 4,
                reaches_http_source(self, start, 4) == reaches_http_source(self, match cur {
                    Some(t) => Some(t@),
                    None => None,
                }, fuel as nat),
            decreases fuel,
        {
            match cur {
                None => {
                    assert(reaches_http_source(self, None, fuel as nat) == false);
                    return false;
                },
                Some(t) => {
                    if str_eq(t, "Leu/kanade/tachiyomi/source/online/HttpSource;") {
                        assert(t@ == http_source());
                        assert(reaches_http_source(self, Some(t@), fuel as nat));
                        return true;
                    }
                    cur = self.next_super_exec(t);
                },
            }
            fuel -= 1;
        }
        false
    }

    /// The older extension shape: the first concrete class definition
    /// whose superclass chain reaches `HttpSource` within four steps,
    /// preferring one named `...ExtensionGenerated;`; it is loaded and its
    /// descriptor returned.
    pub fn find_http_source_subclass(&mut self) -> (r: Result<String, JvmError>)
        requires
            old(self).wf(),
            old(self).dexes@.len() < u32::MAX,
        ensures
            load_post(old(self), final(self)),
            (exists|d: int, k: int| #[trigger] entry_candidate(old(self), d, k)) ==> (r matches Ok(s) ==> exists|d: int, k: int|
                #[trigger] entry_candidate(old(self), d, k) && (forall|d2: int, k2: int| #[trigger] entry_candidate(old(self), d2, k2)
                ==> !before(d2, k2, d, k)) && s@ == def_desc(old(self).dexes@[d], old(self).dexes@[d].classes@[k])),
            !(exists|d: int, k: int| #[trigger] entry_candidate(old(self), d, k)) && (exists|d: int, k: int|
                #[trigger] source_candidate(old(self), d, k)) ==> (r matches Ok(s) ==> exists|d: int, k: int|
                #[trigger] source_candidate(old(self), d, k) && (forall|d2: int, k2: int| #[trigger] source_candidate(old(self), d2, k2)
                ==> !before(d2, k2, d, k)) && s@ == def_desc(old(self).dexes@[d], old(self).dexes@[d].classes@[k])),
            !(exists|d: int, k: int| #[trigger] source_candidate(old(self), d, k)) ==> (r matches Err(e)
                && e matches JvmError::Resolution(m) && m@ == "no HttpSource subclass in dex"@),
    {
        let mut first_any: Option<(usize, usize)> = None;
        let mut first_entry: Option<(usize, usize)> = None;
        proof {
            reveal_strlit("Leu/kanade/tachiyomi/source/online/HttpSource;");
        }
        let mut d: usize = 0;
        while d < self.dexes.len()
            invariant
                *self == *old(self),
                self.wf(),
                self.dexes@.len() < u32::MAX,
                d <= self.dexes@.len(),
                first_any matches Some((a, b)) ==> source_candidate(self, a as int, b as int)
                    && forall|d2: int, k2: int| #[trigger] source_candidate(self, d2, k2) ==> !before(d2, k2, a as int, b as int),
                first_any is None ==> forall|d2: int, k2: int| #[trigger] source_candidate(self, d2, k2) ==> d2 >= d,
                first_entry matches Some((a, b)) ==> entry_candidate(self, a as int, b as int)
                    && forall|d2: int, k2: int| #[trigger] entry_candidate(self, d2, k2) ==> !before(d2, k2, a as int, b as int),
                first_entry is None ==> forall|d2: int, k2: int| #[trigger] entry_candidate(self, d2, k2) ==> d2 >= d,
            decreases self.dexes@.len() - d,
        {
            let dx = &self.dexes[d];
            let mut k: usize = 0;
            while k < dx.classes.len()
                invariant
                    *self == *old(self),
                    self.wf(),
                    self.dexes@.len() < u32::MAX,
                    d < self.dexes@.len(),
                    dx == &self.dexes@[d as int],
                    k <= dx.classes@.len(),
                    first_any matches Some((a, b)) ==> source_candidate(self, a as int, b as int)
                        && forall|d2: int, k2: int| #[trigger] source_candidate(self, d2, k2) ==> !before(d2, k2, a as int, b as int),
                    first_any is None ==> forall|d2: int, k2: int| #[trigger] source_candidate(self, d2, k2) ==> !before(d2, k2, d as int, k as int),
                    first_entry matches Some((a, b)) ==> entry_candidate(self, a as int, b as int)
                        && forall|d2: int, k2: int| #[trigger] entry_candidate(self, d2, k2) ==> !before(d2, k2, a as int, b as int),
                    first_entry is None ==> forall|d2: int, k2: int| #[trigger] entry_candidate(self, d2, k2) ==> !before(d2, k2, d as int, k as int),
                decreases dx.classes@.len() - k,
            {
                let cd = &dx.classes[k];
                let desc = dx.type_descriptor(cd.class_idx);
                let is_cand = !str_eq(desc, "Leu/kanade/tachiyomi/source/online/HttpSource;")
                    && self.reaches_http_source_exec(Self::def_super_exec(dx, cd))
                    && cd.access_flags & 0x400 == 0;
                proof {
                    assert(is_cand == source_candidate(self, d as int, k as int));
                }
                if is_cand {
                    if first_any.is_none() {
                        first_any = Some((d, k));
                    }
                    if first_entry.is_none() && str_ends_with(desc, "ExtensionGenerated;") {
                        first_entry = Some((d, k));
                    }
                }
                k += 1;
            }
            d += 1;
        }
        let pick = match first_entry {
            Some(p) => Some(p),
            None => first_any,
        };
        match pick {
            Some((d, k)) => {
                let desc = to_owned_string(self.dexes[d].type_descriptor(self.dexes[d].classes[k].class_idx));
                let cid = self.ensure_class_by_desc(desc.as_str())?;
                Ok(to_owned_string(self.str_of(self.classes[cid as usize].descriptor)))
            },
            None => Err(JvmError::Resolution(to_owned_string("no HttpSource subclass in dex"))),
        }
    }
}

} // verus!
