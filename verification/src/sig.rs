//! Method signature parsing: `(args)ret` into argument and return descriptors.

use vstd::prelude::*;

verus! {

/// Index of the first `c` in `s` at or after `from`, or `s.len()` when there is none.
pub open spec fn find_from(s: Seq<char>, c: char, from: int) -> int
    decreases s.len() - from,
{
    if from >= s.len() {
        s.len() as int
    } else if s[from] == c {
        from
    } else {
        find_from(s, c, from + 1)
    }
}

/// Index of the first character at or after `from` that is not `[`.
pub open spec fn skip_brackets(s: Seq<char>, from: int) -> int
    decreases s.len() - from,
{
    if from >= s.len() {
        s.len() as int
    } else if s[from] != '[' {
        from
    } else {
        skip_brackets(s, from + 1)
    }
}

/// End (exclusive) of the type descriptor that starts at `i` in `a`: a class
/// type runs to its `;`, an array type to the end of its element type, a
/// primitive is one character.
pub open spec fn token_end(a: Seq<char>, i: int) -> int {
    if a[i] == 'L' {
        let e = find_from(a, ';', i);
        if e < a.len() { e + 1 } else { a.len() as int }
    } else if a[i] == '[' {
        let j = skip_brackets(a, i);
        if a[j] == 'L' {
            let e = find_from(a, ';', j);
            if e < a.len() { e + 1 } else { a.len() as int }
        } else {
            j + 1
        }
    } else {
        i + 1
    }
}

proof fn lemma_find_from_bounds(s: Seq<char>, c: char, from: int)
    requires
        0 <= from <= s.len(),
    ensures
        from <= find_from(s, c, from) <= s.len(),
        find_from(s, c, from) < s.len() ==> s[find_from(s, c, from)] == c,
        forall|k: int| from <= k < find_from(s, c, from) ==> s[k] != c,
    decreases s.len() - from,
{
    if from < s.len() && s[from] != c {
        lemma_find_from_bounds(s, c, from + 1);
    }
}

proof fn lemma_skip_bounds(s: Seq<char>, from: int)
    requires
        0 <= from <= s.len(),
    ensures
        from <= skip_brackets(s, from) <= s.len(),
        skip_brackets(s, from) < s.len() ==> s[skip_brackets(s, from)] != '[',
        forall|k: int| from <= k < skip_brackets(s, from) ==> s[k] == '[',
    decreases s.len() - from,
{
    if from < s.len() && s[from] == '[' {
        lemma_skip_bounds(s, from + 1);
    }
}

/// An array token starting anywhere in `a` has an element type: no run of
/// `[` reaches the end of the argument list.
pub open spec fn brackets_terminated(a: Seq<char>) -> bool {
    forall|i: int| 0 <= i < a.len() ==> skip_brackets(a, i) < a.len()
}

/// The argument descriptors of the argument list `a`, from position `i` on.
pub open spec fn split_args(a: Seq<char>, i: int) -> Seq<Seq<char>>
    decreases a.len() - i,
{
    if i >= a.len() || i < 0 {
        Seq::empty()
    } else {
        let e = token_end(a, i);
        if e <= i || e > a.len() {
            Seq::empty()
        } else {
            seq![a.subrange(i, e)] + split_args(a, e)
        }
    }
}

/// Where the argument list of a signature starts (after the first `(`, or
/// at 1 when there is none) and ends (the first `)`).
pub open spec fn sig_open(sig: Seq<char>) -> int {
    let o = find_from(sig, '(', 0);
    if o < sig.len() { o } else { 0 }
}

/// A signature the parser accepts: it has a `)` and the argument list between
/// the parentheses is well formed.
pub open spec fn sig_parseable(sig: Seq<char>) -> bool {
    let close = find_from(sig, ')', 0);
    &&& close < sig.len()
    &&& sig_open(sig) + 1 <= close
    &&& brackets_terminated(sig.subrange(sig_open(sig) + 1, close))
}

/// The argument descriptors of a signature.
pub open spec fn sig_args(sig: Seq<char>) -> Seq<Seq<char>> {
    let close = find_from(sig, ')', 0);
    split_args(sig.subrange(sig_open(sig) + 1, close), 0)
}

/// The return descriptor of a signature.
pub open spec fn sig_ret(sig: Seq<char>) -> Seq<char> {
    let close = find_from(sig, ')', 0);
    sig.subrange(close + 1, sig.len() as int)
}

fn find_char(s: &str, n: usize, c: char, from: usize) -> (r: usize)
    requires
        n == s@.len(),
        from <= n,
    ensures
        r == find_from(s@, c, from as int),
{
    let mut k = from;
    while k < n
        invariant
            from <= k <= n,
            n == s@.len(),
            find_from(s@, c, from as int) == find_from(s@, c, k as int),
        decreases n - k,
    {
        if s.get_char(k) == c {
            return k;
        }
        k += 1;
    }
    k
}

/// Parse `(args)ret` into (arg descriptors, return descriptor).
pub fn parse_sig(sig: &str) -> (r: (Vec<&str>, &str))
    requires
        sig_parseable(sig@),
    ensures
        r.0@.len() == sig_args(sig@).len(),
        forall|k: int| 0 <= k < r.0@.len() ==> (#[trigger] r.0@[k])@ == sig_args(sig@)[k],
        r.1@ == sig_ret(sig@),
{
    let n = sig.unicode_len();
    let o = find_char(sig, n, '(', 0);
    let open = if o < n { o } else { 0 };
    let close = find_char(sig, n, ')', 0);
    let args = sig.substring_char(open + 1, close);
    let ret = sig.substring_char(close + 1, n);
    let an = args.unicode_len();
    let ghost a = args@;
    let mut out: Vec<&str> = Vec::new();
    let mut i: usize = 0;
    assert(sig_args(sig@) == split_args(a, 0));
    while i < an
        invariant
            an == a.len(),
            a == args@,
            brackets_terminated(a),
            i <= an,
            out@.len() + split_args(a, i as int).len() == split_args(a, 0).len(),
            forall|k: int| 0 <= k < out@.len() ==> (#[trigger] out@[k])@ == split_args(a, 0)[k],
            forall|k: int| 0 <= k < split_args(a, i as int).len() ==> split_args(a, i as int)[k] == split_args(a, 0)[out@.len() + k],
        decreases an - i,
    {
        let c = args.get_char(i);
        let end: usize;
        if c == 'L' {
            let e = find_char(args, an, ';', i);
            proof { lemma_find_from_bounds(a, ';', i as int); }
            end = if e < an { e + 1 } else { an };
        } else if c == '[' {
            let mut j = i;
            while args.get_char(j) == '['
                invariant
                    i <= j < an,
                    an == a.len(),
                    a == args@,
                    brackets_terminated(a),
                    skip_brackets(a, i as int) == skip_brackets(a, j as int),
                decreases an - j,
            {
                proof { lemma_skip_bounds(a, j as int + 1); }
                assert(skip_brackets(a, j as int + 1) < an);
                j += 1;
            }
            proof { lemma_skip_bounds(a, i as int); }
            if args.get_char(j) == 'L' {
                let e = find_char(args, an, ';', j);
                proof { lemma_find_from_bounds(a, ';', j as int); }
                end = if e < an { e + 1 } else { an };
            } else {
                end = j + 1;
            }
        } else {
            end = i + 1;
        }
        assert(end == token_end(a, i as int));
        let tok = args.substring_char(i, end);
        proof {
            let rest = split_args(a, end as int);
            assert(split_args(a, i as int) == seq![a.subrange(i as int, end as int)] + rest);
            assert(split_args(a, i as int)[0] == a.subrange(i as int, end as int));
            assert forall|k: int| 0 <= k < rest.len() implies rest[k] == split_args(a, 0)[out@.len() + 1 + k] by {
                assert(rest[k] == split_args(a, i as int)[k + 1]);
            }
        }
        out.push(tok);
        i = end;
    }
    (out, ret)
}

} // verus!

verus! {

pub proof fn lemma_brackets_terminated(a: Seq<char>)
    requires
        a.len() == 0 || a[a.len() - 1] != '[',
    ensures
        brackets_terminated(a),
{
    assert forall|i: int| 0 <= i < a.len() implies skip_brackets(a, i) < a.len() by {
        lemma_skip_bounds(a, i);
        if skip_brackets(a, i) == a.len() {
            assert(a[a.len() - 1] == '[');
        }
    }
}

proof fn lemma_brackets_terminated_last(a: Seq<char>)
    requires
        brackets_terminated(a),
        a.len() > 0,
    ensures
        a[a.len() - 1] != '[',
{
    lemma_skip_bounds(a, a.len() - 1);
}

/// Whether `parse_sig` accepts `sig`.
pub fn sig_ok(sig: &str) -> (r: bool)
    ensures
        r == sig_parseable(sig@),
{
    let n = sig.unicode_len();
    let o = find_char(sig, n, '(', 0);
    let open = if o < n { o } else { 0 };
    let close = find_char(sig, n, ')', 0);
    if close >= n || open + 1 > close {
        return false;
    }
    let ghost a = sig@.subrange(open + 1, close as int);
    if close == open + 1 {
        proof { lemma_brackets_terminated(a); }
        return true;
    }
    let last = sig.get_char(close - 1);
    proof {
        assert(a[a.len() - 1] == sig@[close - 1]);
        if last != '[' {
            lemma_brackets_terminated(a);
        } else if brackets_terminated(a) {
            lemma_brackets_terminated_last(a);
        }
    }
    last != '['
}


/// A character that may stand in a class name between `L` and `;`.
pub open spec fn name_char(c: char) -> bool {
    c != ';' && c != '(' && c != ')' && c != '['
}

/// The descriptor character of a primitive field type.
pub open spec fn prim_char(c: char) -> bool {
    c == 'Z' || c == 'B' || c == 'S' || c == 'C' || c == 'I' || c == 'J' || c == 'F' || c == 'D'
}

/// A field type descriptor: a primitive, a class `Lname;`, or `[` before a
/// field type.
pub open spec fn field_desc(t: Seq<char>) -> bool
    decreases t.len(),
{
    if t.len() == 0 {
        false
    } else if t[0] == '[' {
        field_desc(t.drop_first())
    } else if t[0] == 'L' {
        t.len() >= 2 && t.last() == ';' && forall|k: int| 1 <= k < t.len() - 1 ==> name_char(#[trigger] t[k])
    } else {
        t.len() == 1 && prim_char(t[0])
    }
}

pub proof fn lemma_find_from_at(s: Seq<char>, c: char, from: int, j: int)
    requires
        0 <= from <= j < s.len(),
        s[j] == c,
        forall|k: int| from <= k < j ==> s[k] != c,
    ensures
        find_from(s, c, from) == j,
    decreases j - from,
{
    if from < j {
        lemma_find_from_at(s, c, from + 1, j);
    }
}

/// A field type descriptor holds no parenthesis and does not end in `[`.
pub proof fn lemma_field_desc_chars(t: Seq<char>)
    requires
        field_desc(t),
    ensures
        t.len() >= 1,
        t.last() != '[',
        forall|k: int| 0 <= k < t.len() ==> #[trigger] t[k] != ')' && t[k] != '(',
    decreases t.len(),
{
    if t[0] == '[' {
        let u = t.drop_first();
        lemma_field_desc_chars(u);
        assert forall|k: int| 0 <= k < t.len() implies #[trigger] t[k] != ')' && t[k] != '(' by {
            if k > 0 {
                assert(t[k] == u[k - 1]);
            }
        }
        assert(t.last() == u.last());
    } else if t[0] == 'L' {
        assert forall|k: int| 0 <= k < t.len() implies #[trigger] t[k] != ')' && t[k] != '(' by {
            if 1 <= k < t.len() - 1 {
                assert(name_char(t[k]));
            }
        }
    }
}

proof fn lemma_token_end_bracket(a: Seq<char>, i: int)
    requires
        0 <= i,
        i + 1 < a.len(),
        a[i] == '[',
    ensures
        token_end(a, i) == token_end(a, i + 1),
{
    if a[i + 1] == '[' {
        assert(skip_brackets(a, i) == skip_brackets(a, i + 1));
    } else {
        assert(skip_brackets(a, i + 1) == i + 1);
        assert(skip_brackets(a, i) == i + 1);
    }
}

/// A field type descriptor standing at `i` in `a` is one token.
pub proof fn lemma_token_end_desc(a: Seq<char>, i: int, t: Seq<char>)
    requires
        field_desc(t),
        0 <= i,
        i + t.len() <= a.len(),
        a.subrange(i, i + t.len()) == t,
    ensures
        token_end(a, i) == i + t.len(),
    decreases t.len(),
{
    assert(a[i] == t[0]);
    if t[0] == '[' {
        let u = t.drop_first();
        lemma_field_desc_chars(u);
        assert(a.subrange(i + 1, i + 1 + u.len()) =~= u);
        lemma_token_end_desc(a, i + 1, u);
        lemma_token_end_bracket(a, i);
    } else if t[0] == 'L' {
        assert forall|k: int| i <= k < i + t.len() - 1 implies a[k] != ';' by {
            assert(a[k] == t[k - i]);
            if k > i {
                assert(name_char(t[k - i]));
            }
        }
        assert(a[i + t.len() - 1] == t[t.len() - 1]);
        lemma_find_from_at(a, ';', i, i + t.len() - 1);
    }
}

/// Splitting an argument list at a field type descriptor takes exactly it.
pub proof fn lemma_split_desc(a: Seq<char>, i: int, t: Seq<char>)
    requires
        field_desc(t),
        0 <= i,
        i + t.len() <= a.len(),
        a.subrange(i, i + t.len()) == t,
    ensures
        split_args(a, i) == seq![t] + split_args(a, i + t.len()),
{
    lemma_field_desc_chars(t);
    lemma_token_end_desc(a, i, t);
}

} // verus!
