//! Register values of the VM and descriptor helpers.

use vstd::prelude::*;

verus! {

/// A register or field value. Floating-point values are held by their IEEE-754
/// bit patterns (`Float` holds the `f32` bits, `Double` the `f64` bits).
#[derive(Clone, Copy, Debug, PartialEq, Eq, Structural)]
pub enum JValue {
    Int(i32),
    Long(i64),
    Float(u32),
    Double(u64),
    /// Reference to an arena object.
    Obj(u32),
    Null,
}

/// The integer a value carries: `Int` gives its payload, every other value 0.
pub open spec fn int_value(v: JValue) -> i32 {
    match v {
        JValue::Int(i) => i,
        _ => 0,
    }
}

/// The long a value carries: `Long` gives its payload, `Int` its sign
/// extension, every other value 0.
pub open spec fn long_value(v: JValue) -> i64 {
    match v {
        JValue::Long(l) => l,
        JValue::Int(i) => i as i64,
        _ => 0,
    }
}

impl JValue {
    /// The value is the null reference.
    pub fn is_null(&self) -> (r: bool)
        ensures
            r == (*self is Null),
    {
        match self {
            JValue::Null => true,
            _ => false,
        }
    }

    /// The value behaves as a null reference: `Null`, or an untyped zero
    /// register (`Int(0)`) used in a reference slot.
    /// `null`, or a zero `int` standing in a reference register.
    pub open spec fn is_null_ref_spec(&self) -> bool {
        *self == JValue::Null || *self == JValue::Int(0)
    }

    pub fn is_null_ref(&self) -> (r: bool)
        ensures
            r == self.is_null_ref_spec(),
    {
        match self {
            JValue::Null => true,
            JValue::Int(0) => true,
            _ => false,
        }
    }

    /// The object id of a reference value.
    pub fn as_obj(&self) -> (r: u32)
        requires
            *self is Obj,
        ensures
            *self == JValue::Obj(r),
    {
        match self {
            JValue::Obj(o) => *o,
            _ => 0,
        }
    }

    /// The `int` payload (0 for any other kind of value).
    pub fn as_int(&self) -> (r: i32)
        ensures
            r == int_value(*self),
    {
        match self {
            JValue::Int(i) => *i,
            _ => 0,
        }
    }

    /// The `long` payload; an `Int` is sign-extended, anything else is 0.
    pub fn as_long(&self) -> (r: i64)
        ensures
            r == long_value(*self),
    {
        match self {
            JValue::Long(l) => *l,
            JValue::Int(i) => *i as i64,
            _ => 0,
        }
    }

    /// Zero test used by the `if-*z` family: integer zero, long zero, a
    /// positive or negative float zero, or null.
    pub fn is_zero(&self) -> (r: bool)
        ensures
            r == match *self {
                JValue::Int(i) => i == 0,
                JValue::Long(l) => l == 0,
                JValue::Float(b) => b == 0 || b == 0x8000_0000u32,
                JValue::Double(b) => b == 0 || b == 0x8000_0000_0000_0000u64,
                JValue::Obj(_) => false,
                JValue::Null => true,
            },
    {
        match self {
            JValue::Int(i) => *i == 0,
            JValue::Long(l) => *l == 0,
            JValue::Float(b) => *b == 0 || *b == 0x8000_0000u32,
            JValue::Double(b) => *b == 0 || *b == 0x8000_0000_0000_0000u64,
            JValue::Obj(_) => false,
            JValue::Null => true,
        }
    }
}

/// Default value of a field with type descriptor `desc`.
pub open spec fn default_of_spec(desc: Seq<char>) -> JValue {
    if desc == seq!['J'] {
        JValue::Long(0)
    } else if desc == seq!['F'] {
        JValue::Float(0)
    } else if desc == seq!['D'] {
        JValue::Double(0)
    } else if desc.len() == 1 && (desc[0] == 'I' || desc[0] == 'Z' || desc[0] == 'B'
        || desc[0] == 'S' || desc[0] == 'C') {
        JValue::Int(0)
    } else {
        JValue::Null
    }
}

/// Default (zero) value for a field of type `desc`.
pub fn default_of(desc: &str) -> (r: JValue)
    ensures
        r == default_of_spec(desc@),
{
    let n = desc.unicode_len();
    if n != 1 {
        return JValue::Null;
    }
    let c = desc.get_char(0);
    assert(desc@ == seq![c]);
    match c {
        'J' => JValue::Long(0),
        'F' => JValue::Float(0),
        'D' => JValue::Double(0),
        'I' | 'Z' | 'B' | 'S' | 'C' => JValue::Int(0),
        _ => JValue::Null,
    }
}

/// A descriptor occupies two registers (`J` or `D`).
pub open spec fn is_wide_spec(d: Seq<char>) -> bool {
    d == seq!['J'] || d == seq!['D']
}

/// Whether a value of descriptor `d` takes a register pair.
pub fn is_wide_desc(d: &str) -> (r: bool)
    ensures
        r == is_wide_spec(d@),
{
    if d.unicode_len() != 1 {
        return false;
    }
    let c = d.get_char(0);
    assert(d@ == seq![c]);
    c == 'J' || c == 'D'
}

/// Reference equality of two register values as `if-eq` sees it: same kind
/// and same payload (floats compared by bit pattern).
pub fn jval_eq(a: &JValue, b: &JValue) -> (r: bool)
    ensures
        r == (*a == *b),
{
    match (a, b) {
        (JValue::Int(x), JValue::Int(y)) => x == y,
        (JValue::Long(x), JValue::Long(y)) => x == y,
        (JValue::Float(x), JValue::Float(y)) => x == y,
        (JValue::Double(x), JValue::Double(y)) => x == y,
        (JValue::Obj(x), JValue::Obj(y)) => x == y,
        (JValue::Null, JValue::Null) => true,
        _ => false,
    }
}

/// Dotted form of a class descriptor: `Lcom/foo/Bar;` becomes `com.foo.Bar`;
/// any other descriptor keeps its characters with `/` turned into `.`.
pub open spec fn dotted_spec(d: Seq<char>) -> Seq<char> {
    let inner = if d.len() >= 2 && d[0] == 'L' && d[d.len() - 1] == ';' {
        d.subrange(1, d.len() - 1)
    } else {
        d
    };
    inner.map_values(|c: char| if c == '/' { '.' } else { c })
}

/// Appends one character to a string.
#[verifier::external_body]
pub(crate) fn push_char(s: &mut String, c: char)
    ensures
        final(s)@ == old(s)@.push(c),
{
    s.push(c);
}

/// Dotted class name for a descriptor, e.g. `La/b/Main;` becomes `a.b.Main`.
pub fn dotted_name(d: &str) -> (r: String)
    ensures
        r@ == dotted_spec(d@),
{
    let n = d.unicode_len();
    let wrapped = n >= 2 && d.get_char(0) == 'L' && d.get_char(n - 1) == ';';
    let (lo, hi) = if wrapped { (1, n - 1) } else { (0, n) };
    let ghost inner = d@.subrange(lo as int, hi as int);
    assert(wrapped ==> inner == d@.subrange(1, d@.len() - 1));
    assert(!wrapped ==> inner =~= d@);
    let mut out = String::new();
    let mut i = lo;
    while i < hi
        invariant
            lo <= i <= hi <= n,
            n == d@.len(),
            inner == d@.subrange(lo as int, hi as int),
            out@ =~= inner.subrange(0, i - lo).map_values(|c: char| if c == '/' { '.' } else { c }),
        decreases hi - i,
    {
        let c = d.get_char(i);
        let mapped = if c == '/' { '.' } else { c };
        push_char(&mut out, mapped);
        assert(inner.subrange(0, i + 1 - lo) =~= inner.subrange(0, i - lo).push(c));
        i += 1;
    }
    assert(inner.subrange(0, hi - lo) =~= inner);
    out
}

} // verus!

verus! {

/// Character-wise string equality.
pub fn str_eq(a: &str, b: &str) -> (r: bool)
    ensures
        r == (a@ == b@),
{
    let n = a.unicode_len();
    if n != b.unicode_len() {
        return false;
    }
    let mut i: usize = 0;
    while i < n
        invariant
            n == a@.len(),
            n == b@.len(),
            i <= n,
            forall|j: int| 0 <= j < i ==> a@[j] == b@[j],
        decreases n - i,
    {
        if a.get_char(i) != b.get_char(i) {
            return false;
        }
        i += 1;
    }
    assert(a@ =~= b@);
    true
}

/// An owned copy of a string slice.
pub fn to_owned_string(s: &str) -> (r: String)
    ensures
        r@ == s@,
{
    String::from_str(s)
}

} // verus!

verus! {

/// `a` followed by `b`.
pub fn concat(a: &str, b: &str) -> (r: String)
    ensures
        r@ == a@ + b@,
{
    let mut s = String::from_str(a);
    s.append(b);
    s
}

/// The first character of `s`, if any.
pub fn first_char(s: &str) -> (r: Option<char>)
    ensures
        r == (if s@.len() > 0 { Some(s@[0]) } else { None::<char> }),
{
    if s.unicode_len() > 0 {
        Some(s.get_char(0))
    } else {
        None
    }
}

} // verus!
