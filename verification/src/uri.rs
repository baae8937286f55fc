//! URI text: percent-encoding and -decoding as `android.net.Uri` does it,
//! and splitting a URI string into host, path and query.

use vstd::prelude::*;

use crate::value::push_char;
use vstd::string::StringSliceAdditionalSpecFns;

verus! {

/// Bytes `Uri.encode` leaves as they are: ASCII letters, digits and
/// `-_.!~*'()`.
pub open spec fn unreserved(b: u8) -> bool {
    ||| (0x30 <= b <= 0x39)
    ||| (0x41 <= b <= 0x5a)
    ||| (0x61 <= b <= 0x7a)
    ||| b == 0x2d || b == 0x5f || b == 0x2e || b == 0x21 || b == 0x7e || b == 0x2a || b == 0x27 || b == 0x28 || b == 0x29
}

/// The upper-case hex digit for `d` (below 16).
pub open spec fn hex_upper(d: u8) -> char {
    if d < 10 { ((0x30u8 + d) as u8) as char } else { ((0x41u8 + (d - 10)) as u8) as char }
}

/// One byte as `Uri.encode` writes it: itself, or `%` and two upper-case
/// hex digits.
pub open spec fn encode_byte(b: u8) -> Seq<char> {
    if unreserved(b) { seq![b as char] } else { seq!['%', hex_upper(b / 16), hex_upper(b % 16)] }
}

/// The percent-encoding of a byte string.
pub open spec fn pct_encode(b: Seq<u8>) -> Seq<char>
    decreases b.len(),
{
    if b.len() == 0 { Seq::empty() } else { pct_encode(b.drop_last()) + encode_byte(b.last()) }
}

fn hex_upper_exec(d: u8) -> (c: char)
    requires
        d < 16,
    ensures
        c == hex_upper(d),
{
    if d < 10 { (0x30u8 + d) as char } else { (0x41u8 + (d - 10)) as char }
}

/// `Uri.encode`: the UTF-8 bytes of `s`, percent-encoded but for the
/// unreserved ones.
pub fn uri_encode_text(s: &str) -> (r: String)
    ensures
        r@ == pct_encode(vstd::utf8::encode_utf8(s@)),
{
    let bytes = s.as_bytes();
    let mut out = String::new();
    let mut i: usize = 0;
    while i < bytes.len()
        invariant
            i <= bytes@.len(),
            bytes@ == vstd::utf8::encode_utf8(s@),
            out@ == pct_encode(bytes@.take(i as int)),
        decreases bytes@.len() - i,
    {
        let b = bytes[i];
        let keep = (0x30 <= b && b <= 0x39) || (0x41 <= b && b <= 0x5a) || (0x61 <= b && b <= 0x7a)
            || b == 0x2d || b == 0x5f || b == 0x2e || b == 0x21 || b == 0x7e || b == 0x2a || b == 0x27
            || b == 0x28 || b == 0x29;
        if keep {
            push_char(&mut out, b as char);
        } else {
            push_char(&mut out, '%');
            push_char(&mut out, hex_upper_exec(b / 16));
            push_char(&mut out, hex_upper_exec(b % 16));
        }
        proof {
            let t = bytes@.take(i + 1);
            assert(t.drop_last() =~= bytes@.take(i as int));
            assert(out@ =~= pct_encode(t));
        }
        i += 1;
    }
    proof {
        assert(bytes@.take(bytes@.len() as int) =~= bytes@);
    }
    out
}

/// A character `Uri.encode` may write as itself: an ASCII letter or digit,
/// or one of `-_.!~*'()`.
pub open spec fn uri_safe(c: char) -> bool {
    ||| ('a' <= c && c <= 'z')
    ||| ('A' <= c && c <= 'Z')
    ||| ('0' <= c && c <= '9')
    ||| c == '-' || c == '_' || c == '.' || c == '!' || c == '~' || c == '*' || c == '\'' || c == '(' || c == ')'
}

/// An upper-case hex digit and its value.
pub open spec fn upper_hex_value(c: char) -> Option<int> {
    if '0' <= c && c <= '9' {
        Some(c as int - '0' as int)
    } else if 'A' <= c && c <= 'F' {
        Some(c as int - 'A' as int + 10)
    } else {
        None
    }
}

proof fn lemma_encode_byte(x: u8)
    ensures
        uri_safe(x as char) ==> pct_encode(seq![x]) == seq![x as char],
        !uri_safe(x as char) ==> ({
            let e = pct_encode(seq![x]);
            &&& e.len() == 3 && e[0] == '%'
            &&& upper_hex_value(e[1]) matches Some(h) && upper_hex_value(e[2]) matches Some(l) && h * 16 + l == x
        }),
        forall|i: int| 0 <= i < pct_encode(seq![x]).len() ==> uri_safe(#[trigger] pct_encode(seq![x])[i])
            || pct_encode(seq![x])[i] == '%',
{
    let one = seq![x];
    assert(one.drop_last() =~= Seq::<u8>::empty());
    assert(one.last() == x);
    assert(pct_encode(Seq::<u8>::empty()) == Seq::<char>::empty());
    assert(pct_encode(one) == pct_encode(one.drop_last()) + encode_byte(one.last()));
    assert(Seq::<char>::empty() + encode_byte(x) =~= encode_byte(x));
    assert(pct_encode(one) == encode_byte(x));
    assert(unreserved(x) <==> uri_safe(x as char));
    if !unreserved(x) {
        let h = x / 16;
        let l = x % 16;
        assert(h < 16 && l < 16);
        assert(upper_hex_value(hex_upper(h)) == Some(h as int));
        assert(upper_hex_value(hex_upper(l)) == Some(l as int));
        assert(uri_safe(hex_upper(h)));
        assert(uri_safe(hex_upper(l)));
    }
}

proof fn lemma_pct_encode_append(a: Seq<u8>, b: Seq<u8>)
    ensures
        pct_encode(a + b) == pct_encode(a) + pct_encode(b),
    decreases b.len(),
{
    if b.len() == 0 {
        assert(a + b =~= a);
        assert(pct_encode(a) + pct_encode(b) =~= pct_encode(a));
    } else {
        lemma_pct_encode_append(a, b.drop_last());
        assert((a + b).drop_last() =~= a + b.drop_last());
        assert((a + b).last() == b.last());
        assert(pct_encode(a + b) =~= pct_encode(a) + pct_encode(b));
    }
}

proof fn lemma_pct_encode_chars(a: Seq<u8>)
    ensures
        forall|i: int| 0 <= i < pct_encode(a).len() ==> uri_safe(#[trigger] pct_encode(a)[i]) || pct_encode(a)[i] == '%',
    decreases a.len(),
{
    if a.len() > 0 {
        lemma_pct_encode_chars(a.drop_last());
        lemma_encode_byte(a.last());
        let p = pct_encode(a.drop_last());
        let e = pct_encode(seq![a.last()]);
        assert(seq![a.last()].drop_last() =~= Seq::<u8>::empty());
        assert(e == encode_byte(a.last()));
        assert forall|i: int| 0 <= i < pct_encode(a).len() implies uri_safe(#[trigger] pct_encode(a)[i]) || pct_encode(a)[i] == '%' by {
            if i < p.len() {
                assert(pct_encode(a)[i] == p[i]);
            } else {
                assert(pct_encode(a)[i] == e[i - p.len()]);
            }
        }
    }
}

/// `Uri.encode` works byte by byte: it keeps ASCII letters, digits and
/// `-_.!~*'()`, writes every other byte as `%` and the two upper-case hex
/// digits of its value, and so writes nothing but those characters and `%`.
pub proof fn law_uri_encode(a: Seq<u8>, b: Seq<u8>, x: u8)
    ensures
        pct_encode(a + b) == pct_encode(a) + pct_encode(b),
        uri_safe(x as char) ==> pct_encode(seq![x]) == seq![x as char],
        !uri_safe(x as char) ==> ({
            let e = pct_encode(seq![x]);
            &&& e.len() == 3 && e[0] == '%'
            &&& upper_hex_value(e[1]) matches Some(h) && upper_hex_value(e[2]) matches Some(l) && h * 16 + l == x
        }),
        forall|i: int| 0 <= i < pct_encode(a).len() ==> uri_safe(#[trigger] pct_encode(a)[i]) || pct_encode(a)[i] == '%',
{
    lemma_pct_encode_append(a, b);
    lemma_encode_byte(x);
    lemma_pct_encode_chars(a);
}

/// The value of an ASCII hex digit, either case.
pub open spec fn hex_val(b: u8) -> Option<u8> {
    if 0x30 <= b <= 0x39 {
        Some((b - 0x30) as u8)
    } else if 0x61 <= b <= 0x66 {
        Some((b - 0x61 + 10) as u8)
    } else if 0x41 <= b <= 0x46 {
        Some((b - 0x41 + 10) as u8)
    } else {
        None
    }
}

/// Percent-decoding: `%` with two hex digits after it, and at least one
/// more byte after those, becomes the byte they spell; every other byte
/// stays.
pub open spec fn pct_decode(b: Seq<u8>) -> Seq<u8>
    decreases b.len(),
{
    if b.len() == 0 {
        Seq::empty()
    } else if b[0] == 0x25 && 2 < b.len() && hex_val(b[1]) is Some && hex_val(b[2]) is Some {
        seq![(hex_val(b[1])->Some_0 * 16 + hex_val(b[2])->Some_0) as u8] + pct_decode(b.subrange(3, b.len() as int))
    } else {
        seq![b[0]] + pct_decode(b.subrange(1, b.len() as int))
    }
}

fn hex_val_exec(b: u8) -> (r: Option<u8>)
    ensures
        r == hex_val(b),
{
    if 0x30 <= b && b <= 0x39 {
        Some(b - 0x30)
    } else if 0x61 <= b && b <= 0x66 {
        Some(b - 0x61 + 10)
    } else if 0x41 <= b && b <= 0x46 {
        Some(b - 0x41 + 10)
    } else {
        None
    }
}

/// The percent-decoded bytes of `b`.
pub fn pct_decode_bytes(b: &[u8]) -> (r: Vec<u8>)
    ensures
        r@ == pct_decode(b@),
{
    let n = b.len();
    let mut out: Vec<u8> = Vec::new();
    let mut i: usize = 0;
    proof {
        assert(b@.subrange(0, n as int) =~= b@);
    }
    while i < n
        invariant
            n == b@.len(),
            i <= n,
            out@ + pct_decode(b@.subrange(i as int, n as int)) == pct_decode(b@),
        decreases n - i,
    {
        let ghost rest = b@.subrange(i as int, n as int);
        let ghost o = out@;
        if b[i] == 0x25 && n - i > 2 {
            let hi = hex_val_exec(b[i + 1]);
            let lo = hex_val_exec(b[i + 2]);
            match (hi, lo) {
                (Some(h), Some(l)) => {
                    out.push(h * 16 + l);
                    proof {
                        assert(rest.subrange(3, rest.len() as int) =~= b@.subrange(i + 3, n as int));
                        assert(out@ + pct_decode(b@.subrange(i + 3, n as int)) =~= o + pct_decode(rest));
                    }
                    i += 3;
                    continue;
                },
                _ => {},
            }
        }
        out.push(b[i]);
        proof {
            assert(rest.subrange(1, rest.len() as int) =~= b@.subrange(i + 1, n as int));
            assert(out@ + pct_decode(b@.subrange(i + 1, n as int)) =~= o + pct_decode(rest));
        }
        i += 1;
    }
    proof {
        assert(b@.subrange(n as int, n as int) =~= Seq::<u8>::empty());
        assert(out@ + Seq::<u8>::empty() =~= out@);
    }
    out
}

/// What `String::from_utf8_lossy` makes of a byte string.
pub uninterp spec fn utf8_lossy(b: Seq<u8>) -> Seq<char>;

/// `String::from_utf8_lossy`: the text of the bytes, each invalid sequence
/// replaced by U+FFFD; valid UTF-8 decodes as it is.
#[verifier::external_body]
fn from_utf8_lossy(b: &[u8]) -> (r: String)
    ensures
        r@ == utf8_lossy(b@),
        vstd::utf8::valid_utf8(b@) ==> r@ == vstd::utf8::decode_utf8(b@),
{
    String::from_utf8_lossy(b).into_owned()
}

/// The percent-decoded text of `s` (its UTF-8 bytes decoded, read back
/// leniently).
pub fn percent_decode(s: &str) -> (r: String)
    ensures
        r@ == utf8_lossy(pct_decode(vstd::utf8::encode_utf8(s@))),
{
    let d = pct_decode_bytes(s.as_bytes());
    from_utf8_lossy(d.as_slice())
}

/// Index of the first `c` in `s`.
pub open spec fn first_index(s: Seq<char>, c: char) -> Option<int> {
    if exists|i: int| 0 <= i < s.len() && s[i] == c {
        Some(choose|i: int| 0 <= i < s.len() && s[i] == c && forall|j: int| 0 <= j < i ==> s[j] != c)
    } else {
        None
    }
}

/// Index of the first `c` in `s`, as [`first_index`] gives it.
pub fn find_char(s: &str, c: char) -> (r: Option<usize>)
    ensures
        r matches Some(i) ==> first_index(s@, c) == Some(i as int) && (i as int) < s@.len() && s@[i as int] == c,
        r is None ==> first_index(s@, c) is None,
{
    let n = s.unicode_len();
    let mut i: usize = 0;
    while i < n
        invariant
            n == s@.len(),
            i <= n,
            forall|j: int| 0 <= j < i ==> s@[j] != c,
        decreases n - i,
    {
        if s.get_char(i) == c {
            proof {
                let k = choose|k: int| 0 <= k < s@.len() && s@[k] == c && forall|j: int| 0 <= j < k ==> s@[j] != c;
                assert(0 <= i < s@.len() && s@[i as int] == c && forall|j: int| 0 <= j < i ==> s@[j] != c);
                if k < i {
                } else if k > i {
                    assert(s@[i as int] != c);
                }
            }
            return Some(i);
        }
        i += 1;
    }
    None
}

/// The characters of `s` from `a` up to `b`.
pub fn sub_text(s: &str, a: usize, b: usize) -> (r: String)
    requires
        a <= b <= s@.len(),
    ensures
        r@ == s@.subrange(a as int, b as int),
{
    let mut out = String::new();
    let mut i: usize = a;
    while i < b
        invariant
            a <= i <= b,
            b <= s@.len(),
            out@ == s@.subrange(a as int, i as int),
        decreases b - i,
    {
        push_char(&mut out, s.get_char(i));
        proof {
            assert(out@ =~= s@.subrange(a as int, i + 1));
        }
        i += 1;
    }
    out
}

/// `s` before the first `c` (all of it when there is none).
pub open spec fn before(s: Seq<char>, c: char) -> Seq<char> {
    match first_index(s, c) {
        Some(i) => s.subrange(0, i),
        None => s,
    }
}

/// `s` after the first `c` (`None` when there is none).
pub open spec fn after(s: Seq<char>, c: char) -> Option<Seq<char>> {
    match first_index(s, c) {
        Some(i) => Some(s.subrange(i + 1, s.len() as int)),
        None => None,
    }
}

/// Host, path and query of a URI string: the fragment is dropped, the query
/// is what follows the first `?`, a scheme is what precedes the first `:`,
/// and after `//` the host runs up to the next `/`, where the path starts.
pub open spec fn uri_parts(s: Seq<char>) -> (Option<Seq<char>>, Seq<char>, Option<Seq<char>>) {
    let no_frag = before(s, '#');
    let before_query = before(no_frag, '?');
    let query = after(no_frag, '?');
    let rest = match after(before_query, ':') {
        Some(r) => r,
        None => before_query,
    };
    if rest.len() >= 2 && rest[0] == '/' && rest[1] == '/' {
        let r = rest.subrange(2, rest.len() as int);
        match first_index(r, '/') {
            Some(i) => (Some(r.subrange(0, i)), r.subrange(i, r.len() as int), query),
            None => (Some(r), Seq::empty(), query),
        }
    } else {
        (None, rest, query)
    }
}

fn split_first(s: &str, c: char) -> (r: (String, Option<String>))
    ensures
        r.0@ == before(s@, c),
        r.1 matches Some(t) ==> after(s@, c) == Some(t@),
        r.1 is None ==> after(s@, c) is None,
{
    let n = s.unicode_len();
    match find_char(s, c) {
        Some(i) => (sub_text(s, 0, i), Some(sub_text(s, i + 1, n))),
        None => (sub_text(s, 0, n), None),
    }
}

/// Host, path and query of a URI string, as [`uri_parts`] says.
#[verifier::rlimit(40)]
pub fn split_uri(s: &str) -> (r: (Option<String>, String, Option<String>))
    ensures
        ({
            let (h, p, q) = uri_parts(s@);
            &&& (r.0 matches Some(x) ==> h == Some(x@)) && (r.0 is None ==> h is None)
            &&& r.1@ == p
            &&& (r.2 matches Some(x) ==> q == Some(x@)) && (r.2 is None ==> q is None)
        }),
{
    let (no_frag, _) = split_first(s, '#');
    let (before_query, query) = split_first(no_frag.as_str(), '?');
    let bn = before_query.unicode_len();
    let rest = match find_char(before_query.as_str(), ':') {
        Some(i) => sub_text(before_query.as_str(), i + 1, bn),
        None => sub_text(before_query.as_str(), 0, bn),
    };
    proof {
        assert(before_query@.subrange(0, before_query@.len() as int) =~= before_query@);
    }
    let n = rest.unicode_len();
    if n >= 2 && rest.get_char(0) == '/' && rest.get_char(1) == '/' {
        let r = sub_text(rest.as_str(), 2, n);
        match find_char(r.as_str(), '/') {
            Some(i) => {
                let h = sub_text(r.as_str(), 0, i);
                let p = sub_text(r.as_str(), i, r.unicode_len());
                (Some(h), p, query)
            },
            None => (Some(r), String::new(), query),
        }
    } else {
        (None, rest, query)
    }
}

/// Text outside markup: characters between a `<` and the next `>` are
/// dropped along with the brackets (the flag says whether a tag is open).
pub open spec fn strip_tags(s: Seq<char>) -> (Seq<char>, bool)
    decreases s.len(),
{
    if s.len() == 0 {
        (Seq::empty(), false)
    } else {
        let (o, in_tag) = strip_tags(s.drop_last());
        let c = s.last();
        if c == '<' {
            (o, true)
        } else if c == '>' {
            (o, false)
        } else if !in_tag {
            (o.push(c), false)
        } else {
            (o, true)
        }
    }
}

/// `str::replace`: every occurrence of `pat`, from the left and without
/// overlaps, replaced by `rep`.
pub open spec fn replace_all(s: Seq<char>, pat: Seq<char>, rep: Seq<char>) -> Seq<char>
    recommends
        pat.len() > 0,
    decreases s.len(),
{
    if s.len() == 0 || pat.len() == 0 {
        s
    } else if s.len() >= pat.len() && s.subrange(0, pat.len() as int) == pat {
        rep + replace_all(s.subrange(pat.len() as int, s.len() as int), pat, rep)
    } else {
        seq![s[0]] + replace_all(s.subrange(1, s.len() as int), pat, rep)
    }
}

/// Whether `pat` occurs in `s` at `i`.
fn occurs_at(s: &str, n: usize, i: usize, pat: &str) -> (r: bool)
    requires
        n == s@.len(),
        i <= n,
    ensures
        r == (n - i >= pat@.len() && s@.subrange(i as int, i + pat@.len()) == pat@),
{
    let m = pat.unicode_len();
    if n - i < m {
        return false;
    }
    let mut k: usize = 0;
    while k < m
        invariant
            m == pat@.len(),
            n == s@.len(),
            i + m <= n,
            k <= m,
            forall|j: int| 0 <= j < k ==> s@[i + j] == pat@[j],
        decreases m - k,
    {
        if s.get_char(i + k) != pat.get_char(k) {
            proof {
                assert(s@.subrange(i as int, i + m)[k as int] != pat@[k as int]);
            }
            return false;
        }
        k += 1;
    }
    proof {
        assert(s@.subrange(i as int, i + m) =~= pat@);
    }
    true
}

/// `s` with every `pat` replaced by `rep`, as [`replace_all`] says.
pub fn replace_text(s: &str, pat: &str, rep: &str) -> (r: String)
    requires
        pat@.len() > 0,
    ensures
        r@ == replace_all(s@, pat@, rep@),
{
    let n = s.unicode_len();
    let m = pat.unicode_len();
    let mut out = String::new();
    let mut i: usize = 0;
    proof {
        assert(s@.subrange(0, n as int) =~= s@);
    }
    while i < n
        invariant
            n == s@.len(),
            m == pat@.len(),
            m > 0,
            i <= n,
            out@ + replace_all(s@.subrange(i as int, n as int), pat@, rep@) == replace_all(s@, pat@, rep@),
        decreases n - i,
    {
        let ghost rest = s@.subrange(i as int, n as int);
        let ghost o = out@;
        if occurs_at(s, n, i, pat) {
            proof {
                assert(rest.subrange(0, m as int) =~= s@.subrange(i as int, i + m));
                assert(rest.subrange(m as int, rest.len() as int) =~= s@.subrange(i + m, n as int));
            }
            let t = crate::value::concat(out.as_str(), rep);
            out = t;
            proof {
                assert(out@ + replace_all(s@.subrange(i + m, n as int), pat@, rep@) =~= o + replace_all(rest, pat@, rep@));
            }
            i += m;
        } else {
            proof {
                if rest.len() >= m {
                    assert(rest.subrange(0, m as int) =~= s@.subrange(i as int, i + m));
                }
                assert(rest.subrange(1, rest.len() as int) =~= s@.subrange(i + 1, n as int));
            }
            push_char(&mut out, s.get_char(i));
            proof {
                assert(out@ + replace_all(s@.subrange(i + 1, n as int), pat@, rep@) =~= o + replace_all(rest, pat@, rep@));
            }
            i += 1;
        }
    }
    proof {
        assert(s@.subrange(n as int, n as int) =~= Seq::<char>::empty());
        assert(out@ + Seq::<char>::empty() =~= out@);
    }
    out
}

/// The text of an HTML fragment: tags stripped, then the entities `&amp;`,
/// `&lt;`, `&gt;`, `&quot;`, `&#39;` and `&nbsp;` replaced in that order.
pub open spec fn html_text(s: Seq<char>) -> Seq<char> {
    let a = strip_tags(s).0;
    let b = replace_all(a, "&amp;"@, "&"@);
    let c = replace_all(b, "&lt;"@, "<"@);
    let d = replace_all(c, "&gt;"@, ">"@);
    let e = replace_all(d, "&quot;"@, seq!['"']);
    let f = replace_all(e, "&#39;"@, "'"@);
    replace_all(f, "&nbsp;"@, " "@)
}

/// The text of an HTML fragment, as [`html_text`] says.
pub fn html_to_text(s: &str) -> (r: String)
    ensures
        r@ == html_text(s@),
{
    let n = s.unicode_len();
    let mut out = String::new();
    let mut in_tag = false;
    let mut i: usize = 0;
    while i < n
        invariant
            n == s@.len(),
            i <= n,
            strip_tags(s@.take(i as int)) == (out@, in_tag),
        decreases n - i,
    {
        let c = s.get_char(i);
        proof {
            assert(s@.take(i + 1).drop_last() =~= s@.take(i as int));
        }
        if c == '<' {
            in_tag = true;
        } else if c == '>' {
            in_tag = false;
        } else if !in_tag {
            push_char(&mut out, c);
        }
        i += 1;
    }
    proof {
        assert(s@.take(n as int) =~= s@);
        reveal_strlit("&amp;");
        reveal_strlit("&lt;");
        reveal_strlit("&gt;");
        reveal_strlit("&quot;");
        reveal_strlit("&#39;");
        reveal_strlit("&nbsp;");
        reveal_strlit("\"");
        assert("\""@ =~= seq!['"']);
    }
    let b = replace_text(out.as_str(), "&amp;", "&");
    let c = replace_text(b.as_str(), "&lt;", "<");
    let d = replace_text(c.as_str(), "&gt;", ">");
    let e = replace_text(d.as_str(), "&quot;", "\"");
    let f = replace_text(e.as_str(), "&#39;", "'");
    replace_text(f.as_str(), "&nbsp;", " ")
}


/// Plain text: no markup brackets, no `&` and no `;`.
pub open spec fn plain_text(t: Seq<char>) -> bool {
    forall|i: int| 0 <= i < t.len() ==> t[i] != '<' && t[i] != '>' && t[i] != '&' && t[i] != ';'
}

/// The shape of an HTML entity: `&`, characters other than `&`, `;`, `<`
/// and `>`, then `;`.
pub open spec fn entity_shape(e: Seq<char>) -> bool {
    &&& e.len() >= 2 && e[0] == '&' && e[e.len() - 1] == ';'
    &&& forall|i: int| 1 <= i < e.len() - 1 ==> e[i] != '&' && e[i] != ';' && e[i] != '<' && e[i] != '>'
}

proof fn lemma_strip_plain(s: Seq<char>)
    requires
        forall|i: int| 0 <= i < s.len() ==> s[i] != '<' && s[i] != '>',
    ensures
        strip_tags(s) == (s, false),
    decreases s.len(),
{
    if s.len() > 0 {
        lemma_strip_plain(s.drop_last());
        assert(s.drop_last().push(s.last()) =~= s);
    }
}

proof fn lemma_replace_absent(s: Seq<char>, pat: Seq<char>, rep: Seq<char>)
    requires
        pat.len() > 0,
        forall|i: int| 0 <= i && i + pat.len() <= s.len() ==> #[trigger] s.subrange(i, i + pat.len()) != pat,
    ensures
        replace_all(s, pat, rep) == s,
    decreases s.len(),
{
    if s.len() > 0 {
        let t = s.subrange(1, s.len() as int);
        assert forall|i: int| 0 <= i && i + pat.len() <= t.len() implies #[trigger] t.subrange(i, i + pat.len()) != pat by {
            assert(t.subrange(i, i + pat.len()) =~= s.subrange(i + 1, i + 1 + pat.len()));
        }
        lemma_replace_absent(t, pat, rep);
        if s.len() >= pat.len() {
            let z: int = 0;
            assert(s.subrange(z, z + pat.len()) != pat);
        }
        assert(seq![s[0]] + t =~= s);
    }
}

/// Text without `;` holds no entity.
proof fn lemma_replace_no_semicolon(s: Seq<char>, pat: Seq<char>, rep: Seq<char>)
    requires
        entity_shape(pat),
        forall|i: int| 0 <= i < s.len() ==> s[i] != ';',
    ensures
        replace_all(s, pat, rep) == s,
{
    assert forall|i: int| 0 <= i && i + pat.len() <= s.len() implies #[trigger] s.subrange(i, i + pat.len()) != pat by {
        if s.subrange(i, i + pat.len()) == pat {
            assert(s.subrange(i, i + pat.len())[pat.len() - 1] == s[i + pat.len() - 1]);
        }
    }
    lemma_replace_absent(s, pat, rep);
}

/// Text without `&` holds no entity.
proof fn lemma_replace_no_amp(s: Seq<char>, pat: Seq<char>, rep: Seq<char>)
    requires
        entity_shape(pat),
        forall|i: int| 0 <= i < s.len() ==> s[i] != '&',
    ensures
        replace_all(s, pat, rep) == s,
{
    assert forall|i: int| 0 <= i && i + pat.len() <= s.len() implies #[trigger] s.subrange(i, i + pat.len()) != pat by {
        if s.subrange(i, i + pat.len()) == pat {
            assert(s.subrange(i, i + pat.len())[0] == s[i]);
        }
    }
    lemma_replace_absent(s, pat, rep);
}

/// Replacing the one entity `e` between texts without `&`.
proof fn lemma_replace_entity(t1: Seq<char>, e: Seq<char>, t2: Seq<char>, d: Seq<char>)
    requires
        forall|i: int| 0 <= i < t1.len() ==> t1[i] != '&',
        forall|i: int| 0 <= i < t2.len() ==> t2[i] != '&',
        entity_shape(e),
    ensures
        replace_all(t1 + e + t2, e, d) == t1 + d + t2,
    decreases t1.len(),
{
    let s = t1 + e + t2;
    if t1.len() == 0 {
        assert(s =~= e + t2);
        assert(s.subrange(0, e.len() as int) =~= e);
        assert(s.subrange(e.len() as int, s.len() as int) =~= t2);
        lemma_replace_no_amp(t2, e, d);
        assert(t1 + d + t2 =~= d + t2);
    } else {
        let u = t1.subrange(1, t1.len() as int);
        assert(s[0] == t1[0]);
        if s.len() >= e.len() && s.subrange(0, e.len() as int) == e {
            assert(s.subrange(0, e.len() as int)[0] == s[0]);
        }
        assert(s.subrange(1, s.len() as int) =~= u + e + t2);
        lemma_replace_entity(u, e, t2, d);
        assert(seq![t1[0]] + (u + d + t2) =~= t1 + d + t2);
    }
}

/// Between plain texts, an entity `p` other than `e` does not occur.
proof fn lemma_replace_other(t1: Seq<char>, e: Seq<char>, t2: Seq<char>, p: Seq<char>, r: Seq<char>)
    requires
        plain_text(t1),
        plain_text(t2),
        entity_shape(e),
        entity_shape(p),
        p != e,
    ensures
        replace_all(t1 + e + t2, p, r) == t1 + e + t2,
{
    let s = t1 + e + t2;
    let n1 = t1.len() as int;
    let ne = e.len() as int;
    assert forall|k: int| 0 <= k < s.len() && s[k] == '&' implies k == n1 by {
        if k < n1 {
            assert(s[k] == t1[k]);
        } else if k < n1 + ne {
            assert(s[k] == e[k - n1]);
        } else {
            assert(s[k] == t2[k - n1 - ne]);
        }
    }
    assert forall|k: int| 0 <= k < s.len() && s[k] == ';' implies k == n1 + ne - 1 by {
        if k < n1 {
            assert(s[k] == t1[k]);
        } else if k < n1 + ne {
            assert(s[k] == e[k - n1]);
        } else {
            assert(s[k] == t2[k - n1 - ne]);
        }
    }
    assert forall|i: int| 0 <= i && i + p.len() <= s.len() implies #[trigger] s.subrange(i, i + p.len()) != p by {
        if s.subrange(i, i + p.len()) == p {
            assert(s.subrange(i, i + p.len())[0] == s[i]);
            assert(s.subrange(i, i + p.len())[p.len() - 1] == s[i + p.len() - 1]);
            assert(i == n1);
            assert(p.len() == ne);
            assert(s.subrange(i, i + p.len()) =~= e);
        }
    }
    lemma_replace_absent(s, p, r);
}

/// A one-character replacement leaves no `;` around it.
proof fn lemma_no_semicolon_join(t1: Seq<char>, d: Seq<char>, t2: Seq<char>)
    requires
        plain_text(t1),
        plain_text(t2),
        forall|i: int| 0 <= i < d.len() ==> d[i] != ';',
    ensures
        forall|i: int| 0 <= i < (t1 + d + t2).len() ==> (t1 + d + t2)[i] != ';',
{
    let s = t1 + d + t2;
    assert forall|k: int| 0 <= k < s.len() implies s[k] != ';' by {
        if k < t1.len() {
            assert(s[k] == t1[k]);
        } else if k < t1.len() + d.len() {
            assert(s[k] == d[k - t1.len()]);
        } else {
            assert(s[k] == t2[k - t1.len() - d.len()]);
        }
    }
}

/// Markup brackets are absent around an entity between plain texts.
proof fn lemma_no_brackets(t1: Seq<char>, e: Seq<char>, t2: Seq<char>)
    requires
        plain_text(t1),
        plain_text(t2),
        entity_shape(e),
    ensures
        forall|i: int| 0 <= i < (t1 + e + t2).len() ==> (t1 + e + t2)[i] != '<' && (t1 + e + t2)[i] != '>',
{
    let s = t1 + e + t2;
    assert forall|k: int| 0 <= k < s.len() implies s[k] != '<' && s[k] != '>' by {
        if k < t1.len() {
            assert(s[k] == t1[k]);
        } else if k < t1.len() + e.len() {
            assert(s[k] == e[k - t1.len()]);
        } else {
            assert(s[k] == t2[k - t1.len() - e.len()]);
        }
    }
}

/// `Html.fromHtml` decodes every entity it knows: in plain text (no markup,
/// `&` or `;`) each of `&amp;`, `&lt;`, `&gt;`, `&quot;`, `&#39;` and
/// `&nbsp;` becomes its character and the text around it stays as it is,
/// and plain text alone comes back unchanged.
pub proof fn law_html_entities(t1: Seq<char>, t2: Seq<char>)
    requires
        plain_text(t1),
        plain_text(t2),
    ensures
        html_text(t1) == t1,
        html_text(t1 + "&amp;"@ + t2) == t1 + "&"@ + t2,
        html_text(t1 + "&lt;"@ + t2) == t1 + "<"@ + t2,
        html_text(t1 + "&gt;"@ + t2) == t1 + ">"@ + t2,
        html_text(t1 + "&quot;"@ + t2) == t1 + seq!['"'] + t2,
        html_text(t1 + "&#39;"@ + t2) == t1 + "'"@ + t2,
        html_text(t1 + "&nbsp;"@ + t2) == t1 + " "@ + t2,
        html_text(t1 + "&amp;lt;"@ + t2) == t1 + "<"@ + t2,
{
    reveal_strlit("&amp;");
    reveal_strlit("&lt;");
    reveal_strlit("&gt;");
    reveal_strlit("&quot;");
    reveal_strlit("&#39;");
    reveal_strlit("&nbsp;");
    reveal_strlit("&");
    reveal_strlit("<");
    reveal_strlit(">");
    reveal_strlit("'");
    reveal_strlit(" ");
    let es = seq!["&amp;"@, "&lt;"@, "&gt;"@, "&quot;"@, "&#39;"@, "&nbsp;"@];
    assert forall|j: int| 0 <= j < 6 implies entity_shape(#[trigger] es[j]) by {
        assert(entity_shape(es[j]));
    }
    assert("&amp;"@ != "&lt;"@) by { if "&amp;"@.len() == "&lt;"@.len() { assert("&amp;"@[1] != "&lt;"@[1] || "&amp;"@[2] != "&lt;"@[2]); } }
    assert("&amp;"@ != "&gt;"@) by { if "&amp;"@.len() == "&gt;"@.len() { assert("&amp;"@[1] != "&gt;"@[1] || "&amp;"@[2] != "&gt;"@[2]); } }
    assert("&amp;"@ != "&quot;"@) by { if "&amp;"@.len() == "&quot;"@.len() { assert("&amp;"@[1] != "&quot;"@[1] || "&amp;"@[2] != "&quot;"@[2]); } }
    assert("&amp;"@ != "&#39;"@) by { if "&amp;"@.len() == "&#39;"@.len() { assert("&amp;"@[1] != "&#39;"@[1] || "&amp;"@[2] != "&#39;"@[2]); } }
    assert("&amp;"@ != "&nbsp;"@) by { if "&amp;"@.len() == "&nbsp;"@.len() { assert("&amp;"@[1] != "&nbsp;"@[1] || "&amp;"@[2] != "&nbsp;"@[2]); } }
    assert("&lt;"@ != "&gt;"@) by { if "&lt;"@.len() == "&gt;"@.len() { assert("&lt;"@[1] != "&gt;"@[1] || "&lt;"@[2] != "&gt;"@[2]); } }
    assert("&lt;"@ != "&quot;"@) by { if "&lt;"@.len() == "&quot;"@.len() { assert("&lt;"@[1] != "&quot;"@[1] || "&lt;"@[2] != "&quot;"@[2]); } }
    assert("&lt;"@ != "&#39;"@) by { if "&lt;"@.len() == "&#39;"@.len() { assert("&lt;"@[1] != "&#39;"@[1] || "&lt;"@[2] != "&#39;"@[2]); } }
    assert("&lt;"@ != "&nbsp;"@) by { if "&lt;"@.len() == "&nbsp;"@.len() { assert("&lt;"@[1] != "&nbsp;"@[1] || "&lt;"@[2] != "&nbsp;"@[2]); } }
    assert("&gt;"@ != "&quot;"@) by { if "&gt;"@.len() == "&quot;"@.len() { assert("&gt;"@[1] != "&quot;"@[1] || "&gt;"@[2] != "&quot;"@[2]); } }
    assert("&gt;"@ != "&#39;"@) by { if "&gt;"@.len() == "&#39;"@.len() { assert("&gt;"@[1] != "&#39;"@[1] || "&gt;"@[2] != "&#39;"@[2]); } }
    assert("&gt;"@ != "&nbsp;"@) by { if "&gt;"@.len() == "&nbsp;"@.len() { assert("&gt;"@[1] != "&nbsp;"@[1] || "&gt;"@[2] != "&nbsp;"@[2]); } }
    assert("&quot;"@ != "&#39;"@) by { if "&quot;"@.len() == "&#39;"@.len() { assert("&quot;"@[1] != "&#39;"@[1] || "&quot;"@[2] != "&#39;"@[2]); } }
    assert("&quot;"@ != "&nbsp;"@) by { if "&quot;"@.len() == "&nbsp;"@.len() { assert("&quot;"@[1] != "&nbsp;"@[1] || "&quot;"@[2] != "&nbsp;"@[2]); } }
    assert("&#39;"@ != "&nbsp;"@) by { if "&#39;"@.len() == "&nbsp;"@.len() { assert("&#39;"@[1] != "&nbsp;"@[1] || "&#39;"@[2] != "&nbsp;"@[2]); } }
    // `&amp;` goes first, so `&amp;lt;` ends as `<`
    reveal_strlit("&amp;lt;");
    reveal_strlit("lt;");
    {
        let amp = "&amp;"@;
        let tail = "lt;"@ + t2;
        let s0 = t1 + "&amp;lt;"@ + t2;
        assert(s0 =~= t1 + amp + tail);
        assert(entity_shape(es[0]));
        assert(entity_shape(es[1]));
        assert forall|i: int| 0 <= i < tail.len() implies tail[i] != '&' by {
            if i >= 3 {
                assert(tail[i] == t2[i - 3]);
            }
        }
        assert forall|i: int| 0 <= i < s0.len() implies s0[i] != '<' && s0[i] != '>' by {
            if i < t1.len() {
                assert(s0[i] == t1[i]);
            } else if i < t1.len() + 8 {
                assert(s0[i] == "&amp;lt;"@[i - t1.len()]);
            } else {
                assert(s0[i] == t2[i - t1.len() - 8]);
            }
        }
        lemma_strip_plain(s0);
        lemma_replace_entity(t1, amp, tail, "&"@);
        assert(t1 + "&"@ + tail =~= t1 + "&lt;"@ + t2);
        lemma_replace_entity(t1, "&lt;"@, t2, "<"@);
        lemma_no_semicolon_join(t1, "<"@, t2);
        lemma_replace_no_semicolon(t1 + "<"@ + t2, "&gt;"@, ">"@);
        lemma_replace_no_semicolon(t1 + "<"@ + t2, "&quot;"@, seq!['"']);
        lemma_replace_no_semicolon(t1 + "<"@ + t2, "&#39;"@, "'"@);
        lemma_replace_no_semicolon(t1 + "<"@ + t2, "&nbsp;"@, " "@);
    }
    // plain text alone
    lemma_strip_plain(t1);
    lemma_replace_no_semicolon(t1, "&amp;"@, "&"@);
    lemma_replace_no_semicolon(t1, "&lt;"@, "<"@);
    lemma_replace_no_semicolon(t1, "&gt;"@, ">"@);
    lemma_replace_no_semicolon(t1, "&quot;"@, seq!['"']);
    lemma_replace_no_semicolon(t1, "&#39;"@, "'"@);
    lemma_replace_no_semicolon(t1, "&nbsp;"@, " "@);
    // "&amp;"@
    {
        let e = "&amp;"@;
        let d = "&"@;
        assert(entity_shape(es[0]));
        lemma_no_brackets(t1, e, t2);
        lemma_strip_plain(t1 + e + t2);
        lemma_replace_entity(t1, e, t2, d);
        lemma_no_semicolon_join(t1, d, t2);
        lemma_replace_no_semicolon(t1 + d + t2, "&lt;"@, "<"@);
        lemma_replace_no_semicolon(t1 + d + t2, "&gt;"@, ">"@);
        lemma_replace_no_semicolon(t1 + d + t2, "&quot;"@, seq!['"']);
        lemma_replace_no_semicolon(t1 + d + t2, "&#39;"@, "'"@);
        lemma_replace_no_semicolon(t1 + d + t2, "&nbsp;"@, " "@);
    }
    // "&lt;"@
    {
        let e = "&lt;"@;
        let d = "<"@;
        assert(entity_shape(es[1]));
        lemma_no_brackets(t1, e, t2);
        lemma_strip_plain(t1 + e + t2);
        lemma_replace_other(t1, e, t2, "&amp;"@, "&"@);
        lemma_replace_entity(t1, e, t2, d);
        lemma_no_semicolon_join(t1, d, t2);
        lemma_replace_no_semicolon(t1 + d + t2, "&gt;"@, ">"@);
        lemma_replace_no_semicolon(t1 + d + t2, "&quot;"@, seq!['"']);
        lemma_replace_no_semicolon(t1 + d + t2, "&#39;"@, "'"@);
        lemma_replace_no_semicolon(t1 + d + t2, "&nbsp;"@, " "@);
    }
    // "&gt;"@
    {
        let e = "&gt;"@;
        let d = ">"@;
        assert(entity_shape(es[2]));
        lemma_no_brackets(t1, e, t2);
        lemma_strip_plain(t1 + e + t2);
        lemma_replace_other(t1, e, t2, "&amp;"@, "&"@);
        lemma_replace_other(t1, e, t2, "&lt;"@, "<"@);
        lemma_replace_entity(t1, e, t2, d);
        lemma_no_semicolon_join(t1, d, t2);
        lemma_replace_no_semicolon(t1 + d + t2, "&quot;"@, seq!['"']);
        lemma_replace_no_semicolon(t1 + d + t2, "&#39;"@, "'"@);
        lemma_replace_no_semicolon(t1 + d + t2, "&nbsp;"@, " "@);
    }
    // "&quot;"@
    {
        let e = "&quot;"@;
        let d = seq!['"'];
        assert(entity_shape(es[3]));
        lemma_no_brackets(t1, e, t2);
        lemma_strip_plain(t1 + e + t2);
        lemma_replace_other(t1, e, t2, "&amp;"@, "&"@);
        lemma_replace_other(t1, e, t2, "&lt;"@, "<"@);
        lemma_replace_other(t1, e, t2, "&gt;"@, ">"@);
        lemma_replace_entity(t1, e, t2, d);
        lemma_no_semicolon_join(t1, d, t2);
        lemma_replace_no_semicolon(t1 + d + t2, "&#39;"@, "'"@);
        lemma_replace_no_semicolon(t1 + d + t2, "&nbsp;"@, " "@);
    }
    // "&#39;"@
    {
        let e = "&#39;"@;
        let d = "'"@;
        assert(entity_shape(es[4]));
        lemma_no_brackets(t1, e, t2);
        lemma_strip_plain(t1 + e + t2);
        lemma_replace_other(t1, e, t2, "&amp;"@, "&"@);
        lemma_replace_other(t1, e, t2, "&lt;"@, "<"@);
        lemma_replace_other(t1, e, t2, "&gt;"@, ">"@);
        lemma_replace_other(t1, e, t2, "&quot;"@, seq!['"']);
        lemma_replace_entity(t1, e, t2, d);
        lemma_no_semicolon_join(t1, d, t2);
        lemma_replace_no_semicolon(t1 + d + t2, "&nbsp;"@, " "@);
    }
    // "&nbsp;"@
    {
        let e = "&nbsp;"@;
        let d = " "@;
        assert(entity_shape(es[5]));
        lemma_no_brackets(t1, e, t2);
        lemma_strip_plain(t1 + e + t2);
        lemma_replace_other(t1, e, t2, "&amp;"@, "&"@);
        lemma_replace_other(t1, e, t2, "&lt;"@, "<"@);
        lemma_replace_other(t1, e, t2, "&gt;"@, ">"@);
        lemma_replace_other(t1, e, t2, "&quot;"@, seq!['"']);
        lemma_replace_other(t1, e, t2, "&#39;"@, "'"@);
        lemma_replace_entity(t1, e, t2, d);
        lemma_no_semicolon_join(t1, d, t2);
    }
}


proof fn lemma_strip_no_brackets(s: Seq<char>)
    ensures
        forall|i: int| 0 <= i < strip_tags(s).0.len() ==> #[trigger] strip_tags(s).0[i] != '<' && strip_tags(s).0[i] != '>',
    decreases s.len(),
{
    if s.len() > 0 {
        lemma_strip_no_brackets(s.drop_last());
        let (o, _) = strip_tags(s.drop_last());
        let c = s.last();
        assert forall|i: int| 0 <= i < strip_tags(s).0.len() implies #[trigger] strip_tags(s).0[i] != '<' && strip_tags(s).0[i] != '>' by {
            if i < o.len() {
                assert(strip_tags(s).0[i] == o[i]);
            }
        }
    }
}

/// Stripping markup leaves no `<` or `>` behind, keeps text that has none,
/// and drops a whole tag `<...>` standing after such text.
pub proof fn law_strip_tags(s: Seq<char>, a: Seq<char>, tag: Seq<char>)
    requires
        forall|i: int| 0 <= i < a.len() ==> a[i] != '<' && a[i] != '>',
        forall|i: int| 0 <= i < tag.len() ==> tag[i] != '<' && tag[i] != '>',
    ensures
        forall|i: int| 0 <= i < strip_tags(s).0.len() ==> #[trigger] strip_tags(s).0[i] != '<' && strip_tags(s).0[i] != '>',
        strip_tags(a) == (a, false),
        strip_tags(a + seq!['<'] + tag + seq!['>']) == (a, false),
{
    lemma_strip_no_brackets(s);
    lemma_strip_plain(a);
    let open = a + seq!['<'];
    assert(open.drop_last() =~= a);
    assert(strip_tags(open) == (a, true));
    lemma_strip_inside(open, tag, a);
    let full = open + tag + seq!['>'];
    assert(full.drop_last() =~= open + tag);
    assert(a + seq!['<'] + tag + seq!['>'] =~= full);
}

proof fn lemma_strip_inside(open: Seq<char>, tag: Seq<char>, a: Seq<char>)
    requires
        strip_tags(open) == (a, true),
        forall|i: int| 0 <= i < tag.len() ==> tag[i] != '<' && tag[i] != '>',
    ensures
        strip_tags(open + tag) == (a, true),
    decreases tag.len(),
{
    if tag.len() == 0 {
        assert(open + tag =~= open);
    } else {
        let t = tag.drop_last();
        lemma_strip_inside(open, t, a);
        assert((open + tag).drop_last() =~= open + t);
        assert((open + tag).last() == tag.last());
    }
}


/// The bytes of an ASCII text, one per character.
pub open spec fn ascii_bytes(t: Seq<char>) -> Seq<u8> {
    t.map_values(|c: char| c as u8)
}

proof fn lemma_ascii_bytes_append(a: Seq<char>, b: Seq<char>)
    ensures
        ascii_bytes(a + b) == ascii_bytes(a) + ascii_bytes(b),
{
    assert(ascii_bytes(a + b) =~= ascii_bytes(a) + ascii_bytes(b));
}

proof fn lemma_hex_round_trip(d: u8)
    requires
        d < 16,
    ensures
        hex_val(hex_upper(d) as u8) == Some(d),
{
}

proof fn lemma_decode_one(x: u8, t: Seq<u8>)
    ensures
        pct_decode(ascii_bytes(encode_byte(x)) + t) == seq![x] + pct_decode(t),
{
    let e = ascii_bytes(encode_byte(x));
    let s = e + t;
    if unreserved(x) {
        assert(e =~= seq![x]);
        assert(s[0] == x);
        assert(s.subrange(1, s.len() as int) =~= t);
    } else {
        let h = x / 16;
        let l = x % 16;
        lemma_hex_round_trip(h);
        lemma_hex_round_trip(l);
        assert(e =~= seq![0x25u8, hex_upper(h) as u8, hex_upper(l) as u8]);
        assert(s[0] == 0x25u8);
        assert(s[1] == hex_upper(h) as u8);
        assert(s[2] == hex_upper(l) as u8);
        assert((h * 16 + l) as u8 == x);
        assert(s.subrange(3, s.len() as int) =~= t);
    }
}

/// Percent-decoding undoes `Uri.encode`: decoding the encoded bytes of any
/// byte string gives that byte string back.
pub proof fn law_uri_decode_encode(b: Seq<u8>)
    ensures
        pct_decode(ascii_bytes(pct_encode(b))) == b,
    decreases b.len(),
{
    if b.len() == 0 {
        assert(ascii_bytes(pct_encode(b)) =~= Seq::<u8>::empty());
    } else {
        let rest = b.subrange(1, b.len() as int);
        assert(b =~= seq![b[0]] + rest);
        lemma_pct_encode_append(seq![b[0]], rest);
        lemma_encode_byte(b[0]);
        let one = seq![b[0]];
        assert(one.drop_last() =~= Seq::<u8>::empty());
        assert(pct_encode(one) == pct_encode(one.drop_last()) + encode_byte(one.last()));
        assert(Seq::<char>::empty() + encode_byte(b[0]) =~= encode_byte(b[0]));
        lemma_ascii_bytes_append(encode_byte(b[0]), pct_encode(rest));
        lemma_decode_one(b[0], ascii_bytes(pct_encode(rest)));
        law_uri_decode_encode(rest);
    }
}

} // verus!
