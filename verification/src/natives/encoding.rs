//! `android.util.Base64`: encoding and decoding with the `base64` crate's
//! standard and URL-safe alphabets, with and without padding, and the
//! line wrapping Android applies.

use vstd::prelude::*;

use base64::engine::general_purpose::{STANDARD, STANDARD_NO_PAD, URL_SAFE, URL_SAFE_NO_PAD};
use base64::Engine;

use crate::error::NatErr;
use crate::natives::crypto::{byte_array_of, bytes_of, new_byte_array, text_of};
use crate::natives::{iae, int_of, int_val, jstr, nat_post, new_str, npe, str_result, R};
use crate::value::{push_char, JValue};
use crate::vm::Vm;

verus! {

/// Base64 (standard alphabet, padded) of `bytes`.
pub uninterp spec fn b64_std_enc(bytes: Seq<u8>) -> Seq<char>;
/// Base64 (standard alphabet, unpadded) of `bytes`.
pub uninterp spec fn b64_std_nopad_enc(bytes: Seq<u8>) -> Seq<char>;
/// Base64 (URL-safe alphabet, padded) of `bytes`.
pub uninterp spec fn b64_url_enc(bytes: Seq<u8>) -> Seq<char>;
/// Base64 (URL-safe alphabet, unpadded) of `bytes`.
pub uninterp spec fn b64_url_nopad_enc(bytes: Seq<u8>) -> Seq<char>;
/// The bytes `text` decodes to (standard alphabet, padding required).
pub uninterp spec fn b64_std_dec(text: Seq<char>) -> Option<Seq<u8>>;
/// The bytes `text` decodes to (standard alphabet, no padding allowed).
pub uninterp spec fn b64_std_nopad_dec(text: Seq<char>) -> Option<Seq<u8>>;
/// The bytes `text` decodes to (URL-safe alphabet, padding required).
pub uninterp spec fn b64_url_dec(text: Seq<char>) -> Option<Seq<u8>>;
/// The bytes `text` decodes to (URL-safe alphabet, no padding allowed).
pub uninterp spec fn b64_url_nopad_dec(text: Seq<char>) -> Option<Seq<u8>>;

/// `STANDARD.encode`.
#[verifier::external_body]
fn std_encode(bytes: &[u8]) -> (r: String)
    ensures
        r@ == b64_std_enc(bytes@),
{
    STANDARD.encode(bytes)
}

/// `STANDARD_NO_PAD.encode`.
#[verifier::external_body]
fn std_nopad_encode(bytes: &[u8]) -> (r: String)
    ensures
        r@ == b64_std_nopad_enc(bytes@),
{
    STANDARD_NO_PAD.encode(bytes)
}

/// `URL_SAFE.encode`.
#[verifier::external_body]
fn url_encode(bytes: &[u8]) -> (r: String)
    ensures
        r@ == b64_url_enc(bytes@),
{
    URL_SAFE.encode(bytes)
}

/// `URL_SAFE_NO_PAD.encode`.
#[verifier::external_body]
fn url_nopad_encode(bytes: &[u8]) -> (r: String)
    ensures
        r@ == b64_url_nopad_enc(bytes@),
{
    URL_SAFE_NO_PAD.encode(bytes)
}

/// `STANDARD.decode` of the text's UTF-8 bytes; `None` on a decode error.
#[verifier::external_body]
fn std_decode(text: &str) -> (r: Option<Vec<u8>>)
    ensures
        r matches Some(v) ==> b64_std_dec(text@) == Some(v@),
        r is None ==> b64_std_dec(text@) is None,
{
    match STANDARD.decode(text) {
        Ok(v) => Some(v),
        Err(_) => None,
    }
}

/// `STANDARD_NO_PAD.decode`.
#[verifier::external_body]
fn std_nopad_decode(text: &str) -> (r: Option<Vec<u8>>)
    ensures
        r matches Some(v) ==> b64_std_nopad_dec(text@) == Some(v@),
        r is None ==> b64_std_nopad_dec(text@) is None,
{
    match STANDARD_NO_PAD.decode(text) {
        Ok(v) => Some(v),
        Err(_) => None,
    }
}

/// `URL_SAFE.decode`.
#[verifier::external_body]
fn url_decode(text: &str) -> (r: Option<Vec<u8>>)
    ensures
        r matches Some(v) ==> b64_url_dec(text@) == Some(v@),
        r is None ==> b64_url_dec(text@) is None,
{
    match URL_SAFE.decode(text) {
        Ok(v) => Some(v),
        Err(_) => None,
    }
}

/// `URL_SAFE_NO_PAD.decode`.
#[verifier::external_body]
fn url_nopad_decode(text: &str) -> (r: Option<Vec<u8>>)
    ensures
        r matches Some(v) ==> b64_url_nopad_dec(text@) == Some(v@),
        r is None ==> b64_url_nopad_dec(text@) is None,
{
    match URL_SAFE_NO_PAD.decode(text) {
        Ok(v) => Some(v),
        Err(_) => None,
    }
}

/// ASCII whitespace: space, tab, line feed, form feed, carriage return.
pub open spec fn ascii_ws(c: char) -> bool {
    c == ' ' || c == '\t' || c == '\n' || c == '\x0C' || c == '\r'
}

/// `s` without its ASCII whitespace.
pub open spec fn strip_ws(s: Seq<char>) -> Seq<char> {
    s.filter(|c: char| !ascii_ws(c))
}

/// `s` without trailing `=` characters.
pub open spec fn trim_pad(s: Seq<char>) -> Seq<char>
    decreases s.len(),
{
    if s.len() > 0 && s.last() == '=' { trim_pad(s.drop_last()) } else { s }
}

/// The bytes `Base64.decode(text, flags)` gives: whitespace dropped, the
/// padded form of the alphabet tried first (URL-safe when flag 8 is set),
/// then the unpadded form on the text without trailing `=`.
pub open spec fn b64_decode_spec(text: Seq<char>, flags: i32) -> Option<Seq<u8>> {
    let t = strip_ws(text);
    if flags & 8 != 0 {
        match b64_url_dec(t) {
            Some(b) => Some(b),
            None => b64_url_nopad_dec(trim_pad(t)),
        }
    } else {
        match b64_std_dec(t) {
            Some(b) => Some(b),
            None => b64_std_nopad_dec(trim_pad(t)),
        }
    }
}

/// `s` without ASCII whitespace.
fn strip_ws_exec(s: &str) -> (r: String)
    ensures
        r@ == strip_ws(s@),
{
    let n = s.unicode_len();
    let mut out = String::new();
    let mut i: usize = 0;
    while i < n
        invariant
            n == s@.len(),
            i <= n,
            out@ == strip_ws(s@.take(i as int)),
        decreases n - i,
    {
        let c = s.get_char(i);
        proof {
            assert(s@.take(i + 1) =~= s@.take(i as int).push(c));
            s@.take(i as int).lemma_filter_push(c, |c: char| !ascii_ws(c));
        }
        if !(c == ' ' || c == '\t' || c == '\n' || c == '\x0C' || c == '\r') {
            push_char(&mut out, c);
        }
        i += 1;
    }
    proof {
        assert(s@.take(n as int) =~= s@);
    }
    out
}

/// `s` without trailing `=`.
fn trim_pad_exec(s: &str) -> (r: String)
    ensures
        r@ == trim_pad(s@),
{
    let mut n = s.unicode_len();
    proof {
        assert(s@.take(n as int) =~= s@);
    }
    while n > 0 && s.get_char(n - 1) == '='
        invariant
            n <= s@.len(),
            trim_pad(s@.take(n as int)) == trim_pad(s@),
        decreases n,
    {
        proof {
            assert(s@.take(n as int).drop_last() =~= s@.take(n - 1));
        }
        n -= 1;
    }
    proof {
        assert(s@.subrange(0, n as int) =~= s@.take(n as int));
    }
    s.substring_char(0, n).to_string()
}

/// `Base64.decode(String, int)`: the decoded bytes; text that is not base64
/// throws `IllegalArgumentException`.
pub fn base64_decode(vm: &mut Vm, args: &[JValue]) -> (r: R)
    requires
        old(vm).wf(),
        args@.len() >= 2,
    ensures
        nat_post(old(vm), final(vm)),
        r is Ok ==> text_of(old(vm), args@[0]) is Some
            && b64_decode_spec(text_of(old(vm), args@[0])->Some_0, int_val(old(vm), args@[1])) is Some
            && byte_array_of(final(vm), r->Ok_0) == b64_decode_spec(text_of(old(vm), args@[0])->Some_0, int_val(old(vm), args@[1])),
        text_of(old(vm), args@[0]) is Some
            && b64_decode_spec(text_of(old(vm), args@[0])->Some_0, int_val(old(vm), args@[1])) is None ==> r matches Err(NatErr::Throw(_)),
{
    let s = jstr(vm, args[0])?;
    let flags = int_of(vm, args[1]);
    let t = strip_ws_exec(s.as_str());
    let decoded = if flags & 8 != 0 {
        match url_decode(t.as_str()) {
            Some(b) => Some(b),
            None => url_nopad_decode(trim_pad_exec(t.as_str()).as_str()),
        }
    } else {
        match std_decode(t.as_str()) {
            Some(b) => Some(b),
            None => std_nopad_decode(trim_pad_exec(t.as_str()).as_str()),
        }
    };
    match decoded {
        Some(b) => new_byte_array(vm, &b),
        None => Err(iae(vm, "Base64 decode failed")),
    }
}

/// `text` cut into lines of at most 76 characters, each ended by `nl`.
pub open spec fn wrap76(text: Seq<char>, nl: Seq<char>) -> Seq<char>
    decreases text.len(),
{
    if text.len() <= 76 {
        text + nl
    } else {
        text.take(76) + nl + wrap76(text.skip(76), nl)
    }
}

proof fn lemma_strip_all_ws(nl: Seq<char>)
    requires
        forall|i: int| 0 <= i < nl.len() ==> ascii_ws(#[trigger] nl[i]),
    ensures
        strip_ws(nl) == Seq::<char>::empty(),
    decreases nl.len(),
{
    if nl.len() > 0 {
        lemma_strip_all_ws(nl.drop_last());
        nl.drop_last().lemma_filter_push(nl.last(), |c: char| !ascii_ws(c));
        assert(nl.drop_last().push(nl.last()) =~= nl);
    }
}

/// Wrapping adds only line ends: with whitespace line ends, dropping the
/// whitespace of the wrapped text gives the text's own characters back, so
/// decoding wrapped base64 sees the same alphabet characters. Every wrapped
/// text ends with a line end.
pub proof fn law_wrap76_strips_back(text: Seq<char>, nl: Seq<char>)
    requires
        forall|i: int| 0 <= i < nl.len() ==> ascii_ws(#[trigger] nl[i]),
    ensures
        strip_ws(wrap76(text, nl)) == strip_ws(text),
        wrap76(text, nl).len() >= nl.len(),
        wrap76(text, nl).subrange(wrap76(text, nl).len() - nl.len(), wrap76(text, nl).len() as int) == nl,
    decreases text.len(),
{
    lemma_strip_all_ws(nl);
    let f = |c: char| !ascii_ws(c);
    if text.len() <= 76 {
        Seq::filter_distributes_over_add(text, nl, f);
        assert(strip_ws(text) + Seq::<char>::empty() =~= strip_ws(text));
        let w = text + nl;
        assert(w.subrange(w.len() - nl.len(), w.len() as int) =~= nl);
    } else {
        let a = text.take(76);
        let b = text.skip(76);
        law_wrap76_strips_back(b, nl);
        let wb = wrap76(b, nl);
        Seq::filter_distributes_over_add(a + nl, wb, f);
        Seq::filter_distributes_over_add(a, nl, f);
        Seq::filter_distributes_over_add(a, b, f);
        assert(a + b =~= text);
        assert(strip_ws(a) + Seq::<char>::empty() =~= strip_ws(a));
        let w = a + nl + wb;
        assert(w.subrange(w.len() - nl.len(), w.len() as int) =~= wb.subrange(wb.len() - nl.len(), wb.len() as int));
    }
}

/// The text `Base64.encodeToString(bytes, flags)` gives: URL-safe alphabet
/// for flag 8, no padding for flag 1; unless flag 2 (no wrap) is set or the
/// text is empty, lines of 76 characters each ended by a line feed (a
/// carriage return and line feed for flag 4).
pub open spec fn b64_encode_spec(bytes: Seq<u8>, flags: i32) -> Seq<char> {
    let raw = if flags & 8 != 0 {
        if flags & 1 != 0 { b64_url_nopad_enc(bytes) } else { b64_url_enc(bytes) }
    } else {
        if flags & 1 != 0 { b64_std_nopad_enc(bytes) } else { b64_std_enc(bytes) }
    };
    if flags & 2 != 0 || raw.len() == 0 {
        raw
    } else {
        wrap76(raw, if flags & 4 != 0 { seq!['\r', '\n'] } else { seq!['\n'] })
    }
}

/// Appends `s[from..to]` to `out`.
fn push_range(out: &mut String, s: &str, from: usize, to: usize)
    requires
        from <= to <= s@.len(),
    ensures
        final(out)@ == old(out)@ + s@.subrange(from as int, to as int),
{
    let mut i = from;
    while i < to
        invariant
            from <= i <= to <= s@.len(),
            out@ == old(out)@ + s@.subrange(from as int, i as int),
        decreases to - i,
    {
        push_char(out, s.get_char(i));
        proof {
            assert(s@.subrange(from as int, i + 1) =~= s@.subrange(from as int, i as int).push(s@[i as int]));
        }
        i += 1;
    }
}

/// `raw` wrapped into lines of 76 characters ended by `nl`.
fn wrap_lines(raw: &str, crlf: bool) -> (r: String)
    ensures
        r@ == wrap76(raw@, if crlf { seq!['\r', '\n'] } else { seq!['\n'] }),
{
    let ghost nl = if crlf { seq!['\r', '\n'] } else { seq!['\n'] };
    let n = raw.unicode_len();
    let mut out = String::new();
    let mut at: usize = 0;
    proof {
        assert(raw@.skip(0) =~= raw@);
    }
    while n - at > 76
        invariant
            n == raw@.len(),
            at <= n,
            nl == if crlf { seq!['\r', '\n'] } else { seq!['\n'] },
            out@ + wrap76(raw@.skip(at as int), nl) == wrap76(raw@, nl),
        decreases n - at,
    {
        let ghost o0 = out@;
        push_range(&mut out, raw, at, at + 76);
        let ghost o2 = out@;
        if crlf {
            push_char(&mut out, '\r');
        }
        push_char(&mut out, '\n');
        proof {
            let rest = raw@.skip(at as int);
            assert(rest.take(76) =~= raw@.subrange(at as int, at + 76));
            if crlf {
                assert(out@ =~= o2 + seq!['\r', '\n']);
            } else {
                assert(out@ =~= o2 + seq!['\n']);
            }
            assert(rest.skip(76) =~= raw@.skip(at + 76));
            assert(out@ =~= o0 + rest.take(76) + nl);
            assert(o0 + wrap76(rest, nl) =~= out@ + wrap76(raw@.skip(at + 76), nl));
        }
        at += 76;
    }
    let ghost o1 = out@;
    push_range(&mut out, raw, at, n);
    let ghost o3 = out@;
    if crlf {
        push_char(&mut out, '\r');
    }
    push_char(&mut out, '\n');
    proof {
        let rest = raw@.skip(at as int);
        if crlf {
            assert(out@ =~= o3 + seq!['\r', '\n']);
        } else {
            assert(out@ =~= o3 + seq!['\n']);
        }
        assert(rest =~= raw@.subrange(at as int, n as int));
        assert(out@ =~= o1 + wrap76(rest, nl));
    }
    out
}

/// `Base64.encodeToString(byte[], int)`.
pub fn base64_encode_to_string(vm: &mut Vm, args: &[JValue]) -> (r: R)
    requires
        old(vm).wf(),
        args@.len() >= 2,
    ensures
        nat_post(old(vm), final(vm)),
        r is Ok ==> byte_array_of(old(vm), args@[0]) is Some
            && str_result(old(vm), final(vm), r->Ok_0, b64_encode_spec(byte_array_of(old(vm), args@[0])->Some_0, int_val(old(vm), args@[1]))),
        byte_array_of(old(vm), args@[0]) is Some ==> r is Ok,
{
    let bytes = match bytes_of(vm, args[0]) {
        Some(b) => b,
        None => return Err(npe(vm)),
    };
    let flags = int_of(vm, args[1]);
    let raw = if flags & 8 != 0 {
        if flags & 1 != 0 { url_nopad_encode(bytes.as_slice()) } else { url_encode(bytes.as_slice()) }
    } else {
        if flags & 1 != 0 { std_nopad_encode(bytes.as_slice()) } else { std_encode(bytes.as_slice()) }
    };
    if flags & 2 != 0 || raw.unicode_len() == 0 {
        return Ok(new_str(vm, raw.as_str()));
    }
    let wrapped = wrap_lines(raw.as_str(), flags & 4 != 0);
    Ok(new_str(vm, wrapped.as_str()))
}

} // verus!
