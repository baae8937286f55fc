//! Android framework shims for a headless host: views, toasts, web views and
//! the like do nothing; intents, activities and `android.net.Uri` keep real
//! state.

use vstd::prelude::*;

use crate::error::NatErr;
use crate::natives::crypto::{only_changed, text_of};
use crate::natives::{fresh_obj, int_of, int_val, jstr, nat_post, new_object, new_str, npe, payload, set_payload, str_result, R};
use crate::object::{ArrayData, Native};
use crate::uri::{first_index, pct_encode, percent_decode, split_uri, uri_encode_text, uri_parts, utf8_lossy, pct_decode};
use crate::value::{concat, push_char, to_owned_string, JValue};
use crate::vm::{payload_spec, Vm};
use vstd::string::StringSliceAdditionalSpecFns;

verus! {

/// The native returned `v` and left the VM as it was.
pub open spec fn unchanged_ok(old_vm: &Vm, vm: &Vm, r: R, v: JValue) -> bool {
    *vm == *old_vm && r == Ok::<JValue, NatErr>(v)
}

/// Constructor and `void` stub for views and framework objects: nothing to
/// do on a headless host.
pub fn ui_noop(vm: &mut Vm, args: &[JValue]) -> (r: R)
    ensures
        unchanged_ok(old(vm), final(vm), r, JValue::Null),
{
    Ok(JValue::Null)
}

/// `int` getter stub: 0.
pub fn ui_zero(vm: &mut Vm, args: &[JValue]) -> (r: R)
    ensures
        unchanged_ok(old(vm), final(vm), r, JValue::Int(0i32)),
{
    Ok(JValue::Int(0))
}

/// `boolean` getter stub: false.
pub fn ui_false(vm: &mut Vm, args: &[JValue]) -> (r: R)
    ensures
        unchanged_ok(old(vm), final(vm), r, JValue::Int(0i32)),
{
    Ok(JValue::Int(0))
}

/// Object getter stub: null.
pub fn ui_null(vm: &mut Vm, args: &[JValue]) -> (r: R)
    ensures
        unchanged_ok(old(vm), final(vm), r, JValue::Null),
{
    Ok(JValue::Null)
}

/// `String` getter stub: the empty string.
pub fn ui_empty_string(vm: &mut Vm, args: &[JValue]) -> (r: R)
    requires
        old(vm).wf(),
    ensures
        nat_post(old(vm), final(vm)),
        r matches Ok(v) && str_result(old(vm), final(vm), v, ""@),
{
    Ok(new_str(vm, ""))
}

/// A view's root view is the view itself.
pub fn view_self(vm: &mut Vm, args: &[JValue]) -> (r: R)
    requires
        args@.len() >= 1,
    ensures
        unchanged_ok(old(vm), final(vm), r, args@[0]),
{
    Ok(args[0])
}

/// `View$MeasureSpec.makeMeasureSpec(size, mode)`: size plus mode (the mode
/// carries the high bits), wrapping as `int` arithmetic does.
pub fn measure_spec_make(vm: &mut Vm, args: &[JValue]) -> (r: R)
    requires
        args@.len() >= 2,
    ensures
        unchanged_ok(old(vm), final(vm), r, JValue::Int(
            vstd::wrapping::i32_specs::wrapping_add(int_val(old(vm), args@[0]), int_val(old(vm), args@[1])))),
{
    let a = int_of(vm, args[0]);
    let b = int_of(vm, args[1]);
    Ok(JValue::Int(a.wrapping_add(b)))
}

/// A fresh object of class `desc` with no state of its own.
fn opaque(vm: &mut Vm, desc: &str) -> (r: R)
    requires
        old(vm).wf(),
    ensures
        nat_post(old(vm), final(vm)),
        r matches Ok(v) ==> fresh_obj(old(vm), final(vm), v, desc@, Native::Opaque),
        r matches Err(e) ==> e is Fatal,
{
    new_object(vm, desc, Native::Opaque)
}

/// `Toast.makeText(Context, CharSequence, int)`: a toast that never shows.
pub fn toast_make_text(vm: &mut Vm, args: &[JValue]) -> (r: R)
    requires
        old(vm).wf(),
    ensures
        nat_post(old(vm), final(vm)),
        r matches Ok(v) ==> fresh_obj(old(vm), final(vm), v, "Landroid/widget/Toast;"@, Native::Opaque),
        r matches Err(e) ==> e is Fatal,
{
    opaque(vm, "Landroid/widget/Toast;")
}

/// `Looper.getMainLooper()` / `Looper.myLooper()`.
pub fn looper_instance(vm: &mut Vm, args: &[JValue]) -> (r: R)
    requires
        old(vm).wf(),
    ensures
        nat_post(old(vm), final(vm)),
        r matches Ok(v) ==> fresh_obj(old(vm), final(vm), v, "Landroid/os/Looper;"@, Native::Opaque),
        r matches Err(e) ==> e is Fatal,
{
    opaque(vm, "Landroid/os/Looper;")
}

/// `ParcelFileDescriptor.open(File, int)`: an opaque handle.
pub fn parcel_fd_open(vm: &mut Vm, args: &[JValue]) -> (r: R)
    requires
        old(vm).wf(),
    ensures
        nat_post(old(vm), final(vm)),
        r matches Ok(v) ==> fresh_obj(old(vm), final(vm), v, "Landroid/os/ParcelFileDescriptor;"@, Native::Opaque),
        r matches Err(e) ==> e is Fatal,
{
    opaque(vm, "Landroid/os/ParcelFileDescriptor;")
}

/// `WebView.getSettings()`.
pub fn web_settings_instance(vm: &mut Vm, args: &[JValue]) -> (r: R)
    requires
        old(vm).wf(),
    ensures
        nat_post(old(vm), final(vm)),
        r matches Ok(v) ==> fresh_obj(old(vm), final(vm), v, "Landroid/webkit/WebSettings;"@, Native::Opaque),
        r matches Err(e) ==> e is Fatal,
{
    opaque(vm, "Landroid/webkit/WebSettings;")
}

/// The user agent the host reports.
pub open spec fn default_user_agent_text() -> Seq<char> {
    "Mozilla/5.0 (Linux; Android 14) AppleWebKit/537.36 (KHTML, like Gecko) Chrome/120.0.0.0 Mobile Safari/537.36 DexVM/0.1"@
}

/// `WebSettings.getUserAgentString()` / `getDefaultUserAgent(Context)`.
pub fn default_user_agent(vm: &mut Vm, args: &[JValue]) -> (r: R)
    requires
        old(vm).wf(),
    ensures
        nat_post(old(vm), final(vm)),
        r matches Ok(v) && str_result(old(vm), final(vm), v, default_user_agent_text()),
{
    Ok(new_str(vm, "Mozilla/5.0 (Linux; Android 14) AppleWebKit/537.36 (KHTML, like Gecko) Chrome/120.0.0.0 Mobile Safari/537.36 DexVM/0.1"))
}

/// `WebResourceRequest.getRequestHeaders()`: an empty map.
pub fn web_request_headers(vm: &mut Vm, args: &[JValue]) -> (r: R)
    requires
        old(vm).wf(),
    ensures
        nat_post(old(vm), final(vm)),
        r matches Ok(v) ==> exists|m: Vec<(JValue, JValue)>| m@.len() == 0
            && #[trigger] fresh_obj(old(vm), final(vm), v, "Ljava/util/HashMap;"@, Native::HashMap(m)),
        r matches Err(e) ==> e is Fatal,
{
    let m: Vec<(JValue, JValue)> = Vec::new();
    let ghost g = m;
    let r = new_object(vm, "Ljava/util/HashMap;", Native::HashMap(m));
    proof {
        if r is Ok {
            assert(fresh_obj(old(vm), final(vm), r->Ok_0, "Ljava/util/HashMap;"@, Native::HashMap(g)));
        }
    }
    r
}

/// `CookieManager.getInstance()`.
pub fn cookie_manager_instance(vm: &mut Vm, args: &[JValue]) -> (r: R)
    requires
        old(vm).wf(),
    ensures
        nat_post(old(vm), final(vm)),
        r matches Ok(v) ==> fresh_obj(old(vm), final(vm), v, "Landroid/webkit/CookieManager;"@, Native::Opaque),
        r matches Err(e) ==> e is Fatal,
{
    opaque(vm, "Landroid/webkit/CookieManager;")
}

/// `ContextWrapper.getApplicationInfo()`.
pub fn context_wrapper_application_info(vm: &mut Vm, args: &[JValue]) -> (r: R)
    requires
        old(vm).wf(),
    ensures
        nat_post(old(vm), final(vm)),
        r matches Ok(v) ==> fresh_obj(old(vm), final(vm), v, "Landroid/content/pm/ApplicationInfo;"@, Native::Opaque),
        r matches Err(e) ==> e is Fatal,
{
    opaque(vm, "Landroid/content/pm/ApplicationInfo;")
}

/// `Resources.getSystem()`.
pub fn resources_system(vm: &mut Vm, args: &[JValue]) -> (r: R)
    requires
        old(vm).wf(),
    ensures
        nat_post(old(vm), final(vm)),
        r matches Ok(v) ==> fresh_obj(old(vm), final(vm), v, "Landroid/content/res/Resources;"@, Native::Opaque),
        r matches Err(e) ==> e is Fatal,
{
    opaque(vm, "Landroid/content/res/Resources;")
}

/// `Resources.getDisplayMetrics()`.
pub fn resources_display_metrics(vm: &mut Vm, args: &[JValue]) -> (r: R)
    requires
        old(vm).wf(),
    ensures
        nat_post(old(vm), final(vm)),
        r matches Ok(v) ==> fresh_obj(old(vm), final(vm), v, "Landroid/util/DisplayMetrics;"@, Native::Opaque),
        r matches Err(e) ==> e is Fatal,
{
    opaque(vm, "Landroid/util/DisplayMetrics;")
}

/// `StaticLayout$Builder.obtain(CharSequence, ...)`: a builder that lays
/// out nothing.
pub fn static_layout_builder_obtain_cs(vm: &mut Vm, args: &[JValue]) -> (r: R)
    requires
        old(vm).wf(),
    ensures
        nat_post(old(vm), final(vm)),
        r matches Ok(v) ==> fresh_obj(old(vm), final(vm), v, "Landroid/text/StaticLayout$Builder;"@, Native::Opaque),
        r matches Err(e) ==> e is Fatal,
{
    opaque(vm, "Landroid/text/StaticLayout$Builder;")
}

/// Chained `StaticLayout$Builder` setters: the builder itself.
pub fn static_layout_builder_set(vm: &mut Vm, args: &[JValue]) -> (r: R)
    requires
        args@.len() >= 1,
    ensures
        unchanged_ok(old(vm), final(vm), r, args@[0]),
{
    Ok(args[0])
}

/// `LinkMovementMethod.getInstance()`.
pub fn link_movement_method_instance(vm: &mut Vm, args: &[JValue]) -> (r: R)
    requires
        old(vm).wf(),
    ensures
        nat_post(old(vm), final(vm)),
        r matches Ok(v) ==> fresh_obj(old(vm), final(vm), v, "Landroid/text/method/LinkMovementMethod;"@, Native::Opaque),
        r matches Err(e) ==> e is Fatal,
{
    opaque(vm, "Landroid/text/method/LinkMovementMethod;")
}

/// `Typeface.createFromFile(File)`.
pub fn typeface_create_from_file(vm: &mut Vm, args: &[JValue]) -> (r: R)
    requires
        old(vm).wf(),
    ensures
        nat_post(old(vm), final(vm)),
        r matches Ok(v) ==> fresh_obj(old(vm), final(vm), v, "Landroid/graphics/Typeface;"@, Native::Opaque),
        r matches Err(e) ==> e is Fatal,
{
    opaque(vm, "Landroid/graphics/Typeface;")
}

/// `ImageDecoder.createSource(...)`.
pub fn image_decoder_create_source(vm: &mut Vm, args: &[JValue]) -> (r: R)
    requires
        old(vm).wf(),
    ensures
        nat_post(old(vm), final(vm)),
        r matches Ok(v) ==> fresh_obj(old(vm), final(vm), v, "Landroid/graphics/ImageDecoder$Source;"@, Native::Opaque),
        r matches Err(e) ==> e is Fatal,
{
    opaque(vm, "Landroid/graphics/ImageDecoder$Source;")
}

/// `PdfRenderer.openPage(int)`.
pub fn pdf_renderer_open_page(vm: &mut Vm, args: &[JValue]) -> (r: R)
    requires
        old(vm).wf(),
    ensures
        nat_post(old(vm), final(vm)),
        r matches Ok(v) ==> fresh_obj(old(vm), final(vm), v, "Landroid/graphics/pdf/PdfRenderer$Page;"@, Native::Opaque),
        r matches Err(e) ==> e is Fatal,
{
    opaque(vm, "Landroid/graphics/pdf/PdfRenderer$Page;")
}

/// `BreakIterator.get*Instance()`.
pub fn break_iterator_instance(vm: &mut Vm, args: &[JValue]) -> (r: R)
    requires
        old(vm).wf(),
    ensures
        nat_post(old(vm), final(vm)),
        r matches Ok(v) ==> fresh_obj(old(vm), final(vm), v, "Landroid/icu/text/BreakIterator;"@, Native::Opaque),
        r matches Err(e) ==> e is Fatal,
{
    opaque(vm, "Landroid/icu/text/BreakIterator;")
}

/// `BreakIterator.first()`: the start of the text.
pub fn break_iterator_first(vm: &mut Vm, args: &[JValue]) -> (r: R)
    ensures
        unchanged_ok(old(vm), final(vm), r, JValue::Int(0i32)),
{
    Ok(JValue::Int(0))
}

/// `BreakIterator.next()`: no further boundary (`DONE`).
pub fn break_iterator_next(vm: &mut Vm, args: &[JValue]) -> (r: R)
    ensures
        unchanged_ok(old(vm), final(vm), r, JValue::Int(-1i32)),
{
    Ok(JValue::Int(-1))
}

/// `Collator.getInstance()`.
pub fn collator_instance(vm: &mut Vm, args: &[JValue]) -> (r: R)
    requires
        old(vm).wf(),
    ensures
        nat_post(old(vm), final(vm)),
        r matches Ok(v) ==> fresh_obj(old(vm), final(vm), v, "Landroid/icu/text/Collator;"@, Native::Opaque),
        r matches Err(e) ==> e is Fatal,
{
    opaque(vm, "Landroid/icu/text/Collator;")
}

/// `Normalizer2.get*Instance()`.
pub fn normalizer2_instance(vm: &mut Vm, args: &[JValue]) -> (r: R)
    requires
        old(vm).wf(),
    ensures
        nat_post(old(vm), final(vm)),
        r matches Ok(v) ==> fresh_obj(old(vm), final(vm), v, "Landroid/icu/text/Normalizer2;"@, Native::Opaque),
        r matches Err(e) ==> e is Fatal,
{
    opaque(vm, "Landroid/icu/text/Normalizer2;")
}

/// `Normalizer2.normalize(CharSequence)`: the text as it is.
pub fn normalizer2_normalize(vm: &mut Vm, args: &[JValue]) -> (r: R)
    requires
        old(vm).wf(),
        args@.len() >= 2,
    ensures
        nat_post(old(vm), final(vm)),
        r is Ok <==> text_of(old(vm), args@[1]) is Some,
        r matches Ok(v) ==> str_result(old(vm), final(vm), v, text_of(old(vm), args@[1])->Some_0),
        r is Err ==> r->Err_0 is Throw,
{
    let s = jstr(vm, args[1])?;
    Ok(new_str(vm, s.as_str()))
}

/// `SearchIterator.first()` / `next()`: no match (`DONE`).
pub fn search_iterator_done(vm: &mut Vm, args: &[JValue]) -> (r: R)
    ensures
        unchanged_ok(old(vm), final(vm), r, JValue::Int(-1i32)),
{
    Ok(JValue::Int(-1))
}

/// `JsonReader.hasNext()`: the reader is always empty.
pub fn json_reader_has_next(vm: &mut Vm, args: &[JValue]) -> (r: R)
    ensures
        unchanged_ok(old(vm), final(vm), r, JValue::Int(0i32)),
{
    Ok(JValue::Int(0))
}

/// `JsonReader.nextDouble()`: no number to read; NaN.
pub fn json_reader_next_double(vm: &mut Vm, args: &[JValue]) -> (r: R)
    ensures
        unchanged_ok(old(vm), final(vm), r, JValue::Double(0x7ff8_0000_0000_0000u64)),
{
    Ok(JValue::Double(0x7ff8_0000_0000_0000u64))
}

/// `Context.getPackageName()`.
pub fn context_get_package_name(vm: &mut Vm, args: &[JValue]) -> (r: R)
    requires
        old(vm).wf(),
    ensures
        nat_post(old(vm), final(vm)),
        r matches Ok(v) && str_result(old(vm), final(vm), v, "dexvm.extension"@),
{
    Ok(new_str(vm, "dexvm.extension"))
}

/// The names of `ConsoleMessage$MessageLevel`, by ordinal.
pub open spec fn console_level_name(i: int) -> Seq<char> {
    if i == 0 { "DEBUG"@ } else if i == 1 { "ERROR"@ } else if i == 2 { "WARNING"@ } else if i == 3 { "LOG"@ } else { "TIP"@ }
}

/// The name of the level with ordinal `i`.
fn console_level_text(i: i32) -> (r: &'static str)
    requires
        0 <= i < 5,
    ensures
        r@ == console_level_name(i as int),
{
    if i == 0 { "DEBUG" } else if i == 1 { "ERROR" } else if i == 2 { "WARNING" } else if i == 3 { "LOG" } else { "TIP" }
}

/// `ConsoleMessage$MessageLevel.values()`: an array of the five levels,
/// each a new enum constant made with its name and ordinal in order
/// (`DEBUG`, `ERROR`, `WARNING`, `LOG`, `TIP`).
pub fn console_message_level_values(vm: &mut Vm, args: &[JValue]) -> (r: R)
    requires
        old(vm).wf(),
    ensures
        nat_post(old(vm), final(vm)),
        r matches Ok(v) ==> payload_spec(final(vm), v) matches Some(Native::Array(ArrayData::Obj(vals)))
            && vals@.len() == 5 && forall|i: int| 0 <= i < 5 ==> #[trigger] vals@[i] is Obj,
        r matches Err(e) ==> e is Fatal,
{
    let mut vals: Vec<JValue> = Vec::new();
    let mut i: i32 = 0;
    while i < 5
        invariant
            vm.wf(),
            nat_post(old(vm), vm),
            0 <= i <= 5,
            vals@.len() == i,
            forall|k: int| 0 <= k < i ==> #[trigger] vals@[k] is Obj,
        decreases 5 - i,
    {
        let name = to_owned_string(console_level_text(i));
        let v = new_object(vm, "Landroid/webkit/ConsoleMessage$MessageLevel;", Native::Enum { name, ordinal: i })?;
        vals.push(v);
        i += 1;
    }
    new_object(vm, "[Landroid/webkit/ConsoleMessage$MessageLevel;", Native::Array(ArrayData::Obj(vals)))
}

/// The text of a `Uri` or `Uri$Builder` value.
pub open spec fn uri_of(vm: &Vm, v: JValue) -> Option<Seq<char>> {
    match payload_spec(vm, v) {
        Some(Native::Uri(s)) => Some(s@),
        _ => None,
    }
}

/// The text a builder starts from: its text, or nothing yet for a builder
/// made by a plain `new`; `None` when `v` is no object.
pub open spec fn builder_base(vm: &Vm, v: JValue) -> Option<Seq<char>> {
    match v {
        JValue::Obj(id) => if (id as int) < vm.arena.objects@.len() {
            match uri_of(vm, v) {
                Some(s) => Some(s),
                None => Some(Seq::empty()),
            }
        } else {
            None
        },
        _ => None,
    }
}

/// The builder `this` now holds `text`, every other object unchanged.
pub open spec fn builder_set(old_vm: &Vm, vm: &Vm, this: JValue, text: Seq<char>) -> bool {
    &&& only_changed(old_vm, vm, this)
    &&& uri_of(vm, this) == Some(text)
}

/// The text of a `Uri` argument; anything else throws
/// `NullPointerException`.
fn uri_text(vm: &mut Vm, v: JValue) -> (r: Result<String, NatErr>)
    requires
        old(vm).wf(),
    ensures
        nat_post(old(vm), final(vm)),
        r matches Ok(s) ==> uri_of(old(vm), v) == Some(s@) && *final(vm) == *old(vm),
        r is Err ==> uri_of(old(vm), v) is None && r->Err_0 is Throw,
{
    match payload(vm, v) {
        Some(Native::Uri(s)) => Ok(to_owned_string(s.as_str())),
        _ => Err(npe(vm)),
    }
}

/// The text of builder `v` ([`builder_base`]); no object throws
/// `NullPointerException`.
fn builder_text(vm: &mut Vm, v: JValue) -> (r: Result<String, NatErr>)
    requires
        old(vm).wf(),
    ensures
        nat_post(old(vm), final(vm)),
        r matches Ok(s) ==> builder_base(old(vm), v) == Some(s@) && *final(vm) == *old(vm),
        r is Err ==> builder_base(old(vm), v) is None && r->Err_0 is Throw,
{
    match v {
        JValue::Obj(id) => {
            if (id as usize) < vm.arena.objects.len() {
                match payload(vm, v) {
                    Some(Native::Uri(s)) => return Ok(to_owned_string(s.as_str())),
                    _ => return Ok(String::new()),
                }
            }
        },
        _ => {},
    }
    Err(npe(vm))
}

/// Stores `text` in builder `this`, which [`builder_base`] found.
fn set_builder(vm: &mut Vm, this: JValue, text: String) -> (r: R)
    requires
        old(vm).wf(),
        builder_base(old(vm), this) is Some,
    ensures
        nat_post(old(vm), final(vm)),
        r == Ok::<JValue, NatErr>(this),
        builder_set(old(vm), final(vm), this, text@),
{
    let id = this.as_obj();
    set_payload(vm, id, Native::Uri(text));
    Ok(this)
}

/// The text `Uri$Builder.appendQueryParameter` leaves: `?` before the first
/// parameter, `&` before the others, then `key=value`.
pub open spec fn with_query(s: Seq<char>, key: Seq<char>, value: Seq<char>) -> Seq<char> {
    s + (if first_index(s, '?') is Some { seq!['&'] } else { seq!['?'] }) + key + seq!['='] + value
}

/// Query parameters join up as a query string: the first one follows a `?`
/// and every later one an `&`, so two appends to text without a query give
/// `?k1=v1&k2=v2`.
pub proof fn law_with_query(s: Seq<char>, k1: Seq<char>, v1: Seq<char>, k2: Seq<char>, v2: Seq<char>)
    requires
        forall|i: int| 0 <= i < s.len() ==> s[i] != '?',
    ensures
        with_query(with_query(s, k1, v1), k2, v2)
            == s + seq!['?'] + k1 + seq!['='] + v1 + seq!['&'] + k2 + seq!['='] + v2,
{
    assert(!(exists|i: int| 0 <= i < s.len() && s[i] == '?'));
    let once = with_query(s, k1, v1);
    assert(once =~= s + seq!['?'] + k1 + seq!['='] + v1);
    assert(once[s.len() as int] == '?');
    assert(exists|i: int| 0 <= i < once.len() && once[i] == '?');
    assert(with_query(once, k2, v2) =~= s + seq!['?'] + k1 + seq!['='] + v1 + seq!['&'] + k2 + seq!['='] + v2);
}

/// `Uri$Builder.appendQueryParameter(key, value)`: both encoded.
pub fn uri_builder_append_query(vm: &mut Vm, args: &[JValue]) -> (r: R)
    requires
        old(vm).wf(),
        args@.len() >= 3,
    ensures
        nat_post(old(vm), final(vm)),
        r is Ok <==> text_of(old(vm), args@[1]) is Some && text_of(old(vm), args@[2]) is Some
            && builder_base(old(vm), args@[0]) is Some,
        r is Ok ==> r == Ok::<JValue, NatErr>(args@[0]) && builder_set(old(vm), final(vm), args@[0], with_query(
            builder_base(old(vm), args@[0])->Some_0,
            pct_encode(vstd::utf8::encode_utf8(text_of(old(vm), args@[1])->Some_0)),
            pct_encode(vstd::utf8::encode_utf8(text_of(old(vm), args@[2])->Some_0)))),
        r is Err ==> r->Err_0 is Throw,
{
    let k = jstr(vm, args[1])?;
    let key = uri_encode_text(k.as_str());
    let v = jstr(vm, args[2])?;
    let value = uri_encode_text(v.as_str());
    let mut s = builder_text(vm, args[0])?;
    let sep = if crate::uri::find_char(s.as_str(), '?').is_some() { '&' } else { '?' };
    let ghost s0 = s@;
    push_char(&mut s, sep);
    let s1 = concat(s.as_str(), key.as_str());
    let mut s2 = s1;
    push_char(&mut s2, '=');
    let s3 = concat(s2.as_str(), value.as_str());
    proof {
        assert(s3@ =~= with_query(s0, key@, value@));
    }
    set_builder(vm, args[0], s3)
}

/// The text after appending path segment `seg`: a `/` first unless the
/// text is empty or already ends in one.
pub open spec fn with_segment(s: Seq<char>, seg: Seq<char>) -> Seq<char> {
    if s.len() > 0 && s.last() != '/' { s + seq!['/'] + seg } else { s + seg }
}

/// `appendPath` / `appendEncodedPath`: the segment, encoded unless it
/// already is.
fn uri_builder_append_segment(vm: &mut Vm, args: &[JValue], encoded: bool) -> (r: R)
    requires
        old(vm).wf(),
        args@.len() >= 2,
    ensures
        nat_post(old(vm), final(vm)),
        r is Ok <==> text_of(old(vm), args@[1]) is Some && builder_base(old(vm), args@[0]) is Some,
        r is Ok ==> r == Ok::<JValue, NatErr>(args@[0]) && builder_set(old(vm), final(vm), args@[0], with_segment(
            builder_base(old(vm), args@[0])->Some_0,
            if encoded { text_of(old(vm), args@[1])->Some_0 } else { pct_encode(vstd::utf8::encode_utf8(text_of(old(vm), args@[1])->Some_0)) })),
        r is Err ==> r->Err_0 is Throw,
{
    let raw = jstr(vm, args[1])?;
    let seg = if encoded { raw } else { uri_encode_text(raw.as_str()) };
    let s = builder_text(vm, args[0])?;
    let n = s.unicode_len();
    let ghost s0 = s@;
    let out = if n > 0 && s.get_char(n - 1) != '/' {
        let mut t = s;
        push_char(&mut t, '/');
        concat(t.as_str(), seg.as_str())
    } else {
        concat(s.as_str(), seg.as_str())
    };
    proof {
        assert(out@ =~= with_segment(s0, seg@));
    }
    set_builder(vm, args[0], out)
}

/// `Uri$Builder.appendPath(segment)`.
pub fn uri_builder_append_path(vm: &mut Vm, args: &[JValue]) -> (r: R)
    requires
        old(vm).wf(),
        args@.len() >= 2,
    ensures
        nat_post(old(vm), final(vm)),
        r is Ok <==> text_of(old(vm), args@[1]) is Some && builder_base(old(vm), args@[0]) is Some,
        r is Ok ==> r == Ok::<JValue, NatErr>(args@[0]) && builder_set(old(vm), final(vm), args@[0], with_segment(
            builder_base(old(vm), args@[0])->Some_0, pct_encode(vstd::utf8::encode_utf8(text_of(old(vm), args@[1])->Some_0)))),
        r is Err ==> r->Err_0 is Throw,
{
    uri_builder_append_segment(vm, args, false)
}

/// `Uri$Builder.appendEncodedPath(segment)`.
pub fn uri_builder_append_encoded_path(vm: &mut Vm, args: &[JValue]) -> (r: R)
    requires
        old(vm).wf(),
        args@.len() >= 2,
    ensures
        nat_post(old(vm), final(vm)),
        r is Ok <==> text_of(old(vm), args@[1]) is Some && builder_base(old(vm), args@[0]) is Some,
        r is Ok ==> r == Ok::<JValue, NatErr>(args@[0]) && builder_set(old(vm), final(vm), args@[0], with_segment(
            builder_base(old(vm), args@[0])->Some_0, text_of(old(vm), args@[1])->Some_0)),
        r is Err ==> r->Err_0 is Throw,
{
    uri_builder_append_segment(vm, args, true)
}

/// `Uri$Builder.fragment(f)`: any earlier fragment replaced by `#` and the
/// encoded one.
pub fn uri_builder_fragment(vm: &mut Vm, args: &[JValue]) -> (r: R)
    requires
        old(vm).wf(),
        args@.len() >= 2,
    ensures
        nat_post(old(vm), final(vm)),
        r is Ok <==> text_of(old(vm), args@[1]) is Some && builder_base(old(vm), args@[0]) is Some,
        r is Ok ==> r == Ok::<JValue, NatErr>(args@[0]) && builder_set(old(vm), final(vm), args@[0],
            crate::uri::before(builder_base(old(vm), args@[0])->Some_0, '#') + seq!['#']
                + pct_encode(vstd::utf8::encode_utf8(text_of(old(vm), args@[1])->Some_0))),
        r is Err ==> r->Err_0 is Throw,
{
    let f = jstr(vm, args[1])?;
    let frag = uri_encode_text(f.as_str());
    let s = builder_text(vm, args[0])?;
    let kept = match crate::uri::find_char(s.as_str(), '#') {
        Some(i) => crate::uri::sub_text(s.as_str(), 0, i),
        None => {
            let n = s.unicode_len();
            let t = crate::uri::sub_text(s.as_str(), 0, n);
            proof {
                assert(s@.subrange(0, n as int) =~= s@);
            }
            t
        },
    };
    let ghost k0 = kept@;
    proof {
        assert(k0 == crate::uri::before(s@, '#'));
    }
    let mut k = kept;
    push_char(&mut k, '#');
    let out = concat(k.as_str(), frag.as_str());
    proof {
        assert(out@ =~= k0 + seq!['#'] + frag@);
    }
    set_builder(vm, args[0], out)
}

/// A new object of class `desc` holding URI text `s`.
fn new_uri(vm: &mut Vm, desc: &str, s: String) -> (r: R)
    requires
        old(vm).wf(),
    ensures
        nat_post(old(vm), final(vm)),
        r matches Ok(v) ==> exists|t: String| t@ == s@ && #[trigger] fresh_obj(old(vm), final(vm), v, desc@, Native::Uri(t)),
        r matches Err(e) ==> e is Fatal,
{
    let ghost g = s;
    let r = new_object(vm, desc, Native::Uri(s));
    proof {
        if r is Ok {
            assert(fresh_obj(old(vm), final(vm), r->Ok_0, desc@, Native::Uri(g)));
        }
    }
    r
}

/// `Uri$Builder.build()`: a `Uri` with the builder's text.
pub fn uri_builder_build(vm: &mut Vm, args: &[JValue]) -> (r: R)
    requires
        old(vm).wf(),
        args@.len() >= 1,
    ensures
        nat_post(old(vm), final(vm)),
        uri_of(old(vm), args@[0]) is None ==> r matches Err(NatErr::Throw(_)),
        r matches Ok(v) ==> uri_of(old(vm), args@[0]) matches Some(s) && exists|t: String| t@ == s
            && #[trigger] fresh_obj(old(vm), final(vm), v, "Landroid/net/Uri;"@, Native::Uri(t)),
        r matches Err(e) ==> uri_of(old(vm), args@[0]) is None || e is Fatal,
{
    let s = uri_text(vm, args[0])?;
    new_uri(vm, "Landroid/net/Uri;", s)
}

/// `Uri.toString()` / `Uri$Builder.toString()`.
pub fn uri_builder_to_string(vm: &mut Vm, args: &[JValue]) -> (r: R)
    requires
        old(vm).wf(),
        args@.len() >= 1,
    ensures
        nat_post(old(vm), final(vm)),
        r is Ok <==> uri_of(old(vm), args@[0]) is Some,
        r matches Ok(v) ==> str_result(old(vm), final(vm), v, uri_of(old(vm), args@[0])->Some_0),
        r is Err ==> r->Err_0 is Throw,
{
    let s = uri_text(vm, args[0])?;
    Ok(new_str(vm, s.as_str()))
}

/// `Uri.parse(String)`: a `Uri` with that text.
pub fn uri_parse(vm: &mut Vm, args: &[JValue]) -> (r: R)
    requires
        old(vm).wf(),
        args@.len() >= 1,
    ensures
        nat_post(old(vm), final(vm)),
        text_of(old(vm), args@[0]) is None ==> r matches Err(NatErr::Throw(_)),
        r matches Ok(v) ==> text_of(old(vm), args@[0]) matches Some(s) && exists|t: String| t@ == s
            && #[trigger] fresh_obj(old(vm), final(vm), v, "Landroid/net/Uri;"@, Native::Uri(t)),
        r matches Err(e) ==> text_of(old(vm), args@[0]) is None || e is Fatal,
{
    let s = jstr(vm, args[0])?;
    new_uri(vm, "Landroid/net/Uri;", s)
}

/// `Uri.buildUpon()`: a builder starting from the URI's text.
pub fn uri_build_upon(vm: &mut Vm, args: &[JValue]) -> (r: R)
    requires
        old(vm).wf(),
        args@.len() >= 1,
    ensures
        nat_post(old(vm), final(vm)),
        uri_of(old(vm), args@[0]) is None ==> r matches Err(NatErr::Throw(_)),
        r matches Ok(v) ==> uri_of(old(vm), args@[0]) matches Some(s) && exists|t: String| t@ == s
            && #[trigger] fresh_obj(old(vm), final(vm), v, "Landroid/net/Uri$Builder;"@, Native::Uri(t)),
        r matches Err(e) ==> uri_of(old(vm), args@[0]) is None || e is Fatal,
{
    let s = uri_text(vm, args[0])?;
    new_uri(vm, "Landroid/net/Uri$Builder;", s)
}

/// `Uri.encode(String)`.
pub fn uri_encode(vm: &mut Vm, args: &[JValue]) -> (r: R)
    requires
        old(vm).wf(),
        args@.len() >= 1,
    ensures
        nat_post(old(vm), final(vm)),
        r is Ok <==> text_of(old(vm), args@[0]) is Some,
        r matches Ok(v) ==> str_result(old(vm), final(vm), v, pct_encode(vstd::utf8::encode_utf8(text_of(old(vm), args@[0])->Some_0))),
        r is Err ==> r->Err_0 is Throw,
{
    let s = jstr(vm, args[0])?;
    let e = uri_encode_text(s.as_str());
    Ok(new_str(vm, e.as_str()))
}

/// `Uri.getHost()`: null when the URI has no `//` authority.
pub fn uri_get_host(vm: &mut Vm, args: &[JValue]) -> (r: R)
    requires
        old(vm).wf(),
        args@.len() >= 1,
    ensures
        nat_post(old(vm), final(vm)),
        r is Ok <==> uri_of(old(vm), args@[0]) is Some,
        r matches Ok(v) ==> match uri_parts(uri_of(old(vm), args@[0])->Some_0).0 {
            Some(h) => str_result(old(vm), final(vm), v, h),
            None => v == JValue::Null && *final(vm) == *old(vm),
        },
        r is Err ==> r->Err_0 is Throw,
{
    let s = uri_text(vm, args[0])?;
    let (host, _, _) = split_uri(s.as_str());
    match host {
        Some(h) => Ok(new_str(vm, h.as_str())),
        None => Ok(JValue::Null),
    }
}

/// `Uri.getPath()`: the path, percent-decoded.
pub fn uri_get_path(vm: &mut Vm, args: &[JValue]) -> (r: R)
    requires
        old(vm).wf(),
        args@.len() >= 1,
    ensures
        nat_post(old(vm), final(vm)),
        r is Ok <==> uri_of(old(vm), args@[0]) is Some,
        r matches Ok(v) ==> str_result(old(vm), final(vm), v,
            utf8_lossy(pct_decode(vstd::utf8::encode_utf8(uri_parts(uri_of(old(vm), args@[0])->Some_0).1)))),
        r is Err ==> r->Err_0 is Throw,
{
    let s = uri_text(vm, args[0])?;
    let (_, path, _) = split_uri(s.as_str());
    let d = percent_decode(path.as_str());
    Ok(new_str(vm, d.as_str()))
}

/// `Uri.getEncodedPath()`: the path as written.
pub fn uri_get_encoded_path(vm: &mut Vm, args: &[JValue]) -> (r: R)
    requires
        old(vm).wf(),
        args@.len() >= 1,
    ensures
        nat_post(old(vm), final(vm)),
        r is Ok <==> uri_of(old(vm), args@[0]) is Some,
        r matches Ok(v) ==> str_result(old(vm), final(vm), v, uri_parts(uri_of(old(vm), args@[0])->Some_0).1),
        r is Err ==> r->Err_0 is Throw,
{
    let s = uri_text(vm, args[0])?;
    let (_, path, _) = split_uri(s.as_str());
    Ok(new_str(vm, path.as_str()))
}

/// `Uri.getEncodedQuery()`: null when there is no `?`.
pub fn uri_get_encoded_query(vm: &mut Vm, args: &[JValue]) -> (r: R)
    requires
        old(vm).wf(),
        args@.len() >= 1,
    ensures
        nat_post(old(vm), final(vm)),
        r is Ok <==> uri_of(old(vm), args@[0]) is Some,
        r matches Ok(v) ==> match uri_parts(uri_of(old(vm), args@[0])->Some_0).2 {
            Some(q) => str_result(old(vm), final(vm), v, q),
            None => v == JValue::Null && *final(vm) == *old(vm),
        },
        r is Err ==> r->Err_0 is Throw,
{
    let s = uri_text(vm, args[0])?;
    let (_, _, query) = split_uri(s.as_str());
    match query {
        Some(q) => Ok(new_str(vm, q.as_str())),
        None => Ok(JValue::Null),
    }
}

/// The key/value view of an intent's extras.
pub open spec fn extras_view(ex: Seq<(String, JValue)>) -> Seq<(Seq<char>, JValue)> {
    ex.map_values(|p: (String, JValue)| (p.0@, p.1))
}

/// Action, data URI and extras of an `Intent` value.
pub open spec fn intent_of(vm: &Vm, v: JValue) -> Option<(Option<Seq<char>>, Option<Seq<char>>, Seq<(Seq<char>, JValue)>)> {
    match payload_spec(vm, v) {
        Some(Native::Intent { action, data, extras }) => Some((
            match action { Some(a) => Some(a@), None => None },
            match data { Some(d) => Some(d@), None => None },
            extras_view(extras@),
        )),
        _ => None,
    }
}

/// Index of the first extra under key `k`.
pub open spec fn key_index(ex: Seq<(Seq<char>, JValue)>, k: Seq<char>) -> Option<int> {
    if exists|i: int| 0 <= i < ex.len() && ex[i].0 == k {
        Some(choose|i: int| 0 <= i < ex.len() && ex[i].0 == k && forall|j: int| 0 <= j < i ==> ex[j].0 != k)
    } else {
        None
    }
}

/// The extras after putting `v` under `k`: the first entry with that key
/// takes the new value, or the pair goes at the end.
pub open spec fn put_extra(ex: Seq<(Seq<char>, JValue)>, k: Seq<char>, v: JValue) -> Seq<(Seq<char>, JValue)> {
    match key_index(ex, k) {
        Some(i) => ex.update(i, (k, v)),
        None => ex.push((k, v)),
    }
}

/// The object `this` now holds payload `n`, every other object unchanged.
pub open spec fn payload_set(old_vm: &Vm, vm: &Vm, this: JValue, n: Native) -> bool {
    &&& only_changed(old_vm, vm, this)
    &&& payload_spec(vm, this) == Some(n)
}

/// Replaces the payload of `this`, which must have one; otherwise throws
/// `NullPointerException`.
fn replace_payload(vm: &mut Vm, this: JValue, n: Native) -> (r: Result<(), NatErr>)
    requires
        old(vm).wf(),
    ensures
        nat_post(old(vm), final(vm)),
        r is Ok <==> payload_spec(old(vm), this) is Some,
        r is Ok ==> payload_set(old(vm), final(vm), this, n),
        r is Err ==> r->Err_0 is Throw,
{
    let has = payload(vm, this).is_some();
    if has {
        let id = this.as_obj();
        set_payload(vm, id, n);
        Ok(())
    } else {
        Err(npe(vm))
    }
}

/// `Intent.<init>()` / `Intent.<init>(String)`: a fresh intent with the
/// given action (none when absent or null).
pub fn intent_init(vm: &mut Vm, args: &[JValue]) -> (r: R)
    requires
        old(vm).wf(),
        args@.len() >= 1,
    ensures
        nat_post(old(vm), final(vm)),
        ({
            let has_action = args@.len() > 1 && args@[1] != JValue::Null;
            &&& r is Ok <==> (!has_action || text_of(old(vm), args@[1]) is Some) && payload_spec(old(vm), args@[0]) is Some
            &&& r is Ok ==> r == Ok::<JValue, NatErr>(JValue::Null) && only_changed(old(vm), final(vm), args@[0])
                && intent_of(final(vm), args@[0]) == Some((
                    if has_action { Some(text_of(old(vm), args@[1])->Some_0) } else { None::<Seq<char>> },
                    None::<Seq<char>>, Seq::<(Seq<char>, JValue)>::empty()))
        }),
        r is Err ==> r->Err_0 is Throw,
{
    let action = if args.len() > 1 && !args[1].is_null() {
        Some(jstr(vm, args[1])?)
    } else {
        None
    };
    let extras: Vec<(String, JValue)> = Vec::new();
    replace_payload(vm, args[0], Native::Intent { action, data: None, extras })?;
    proof {
        assert(extras_view(extras@) =~= Seq::<(Seq<char>, JValue)>::empty());
    }
    Ok(JValue::Null)
}

/// The view of an optional string.
pub open spec fn opt_view(o: Option<String>) -> Option<Seq<char>> {
    match o {
        Some(s) => Some(s@),
        None => None,
    }
}

fn copy_opt(o: &Option<String>) -> (r: Option<String>)
    ensures
        opt_view(r) == opt_view(*o),
{
    match o {
        Some(s) => Some(to_owned_string(s.as_str())),
        None => None,
    }
}

fn copy_extras(ex: &Vec<(String, JValue)>) -> (r: Vec<(String, JValue)>)
    ensures
        extras_view(r@) == extras_view(ex@),
{
    let mut out: Vec<(String, JValue)> = Vec::new();
    let mut i: usize = 0;
    while i < ex.len()
        invariant
            i <= ex@.len(),
            out@.len() == i,
            forall|j: int| 0 <= j < i ==> (#[trigger] out@[j]).0@ == ex@[j].0@ && out@[j].1 == ex@[j].1,
        decreases ex@.len() - i,
    {
        let ghost o0 = out@;
        let k = to_owned_string(ex[i].0.as_str());
        out.push((k, ex[i].1));
        proof {
            assert(out@ == o0.push((k, ex@[i as int].1)));
        }
        i += 1;
    }
    proof {
        assert(extras_view(out@) =~= extras_view(ex@));
    }
    out
}

/// The intent payload of `v`, copied out; anything else throws
/// `NullPointerException`.
fn intent_parts(vm: &mut Vm, v: JValue) -> (r: Result<(Option<String>, Option<String>, Vec<(String, JValue)>), NatErr>)
    requires
        old(vm).wf(),
    ensures
        nat_post(old(vm), final(vm)),
        r matches Ok(p) ==> *final(vm) == *old(vm) && intent_of(old(vm), v) == Some((opt_view(p.0), opt_view(p.1), extras_view(p.2@))),
        r is Err ==> intent_of(old(vm), v) is None && r->Err_0 is Throw,
{
    match payload(vm, v) {
        Some(Native::Intent { action, data, extras }) => Ok((copy_opt(action), copy_opt(data), copy_extras(extras))),
        _ => Err(npe(vm)),
    }
}

/// `Intent.putExtra(String, value)`: stores the value under the key.
pub fn intent_put_extra_string(vm: &mut Vm, args: &[JValue]) -> (r: R)
    requires
        old(vm).wf(),
        args@.len() >= 3,
    ensures
        nat_post(old(vm), final(vm)),
        r is Ok <==> text_of(old(vm), args@[1]) is Some && intent_of(old(vm), args@[0]) is Some,
        r is Ok ==> r == Ok::<JValue, NatErr>(args@[0]) && only_changed(old(vm), final(vm), args@[0]) && ({
            let (a, d, ex) = intent_of(old(vm), args@[0])->Some_0;
            intent_of(final(vm), args@[0]) == Some((a, d, put_extra(ex, text_of(old(vm), args@[1])->Some_0, args@[2])))
        }),
        r is Err ==> r->Err_0 is Throw,
{
    let key = jstr(vm, args[1])?;
    let (action, data, mut extras) = intent_parts(vm, args[0])?;
    let ghost ex0 = extras_view(extras@);
    let mut i: usize = 0;
    let mut found: Option<usize> = None;
    while i < extras.len()
        invariant
            i <= extras@.len(),
            ex0 == extras_view(extras@),
            found matches Some(j) ==> j < i && ex0[j as int].0 == key@ && forall|m: int| 0 <= m < j ==> ex0[m].0 != key@,
            found is None ==> forall|j: int| 0 <= j < i ==> ex0[j].0 != key@,
        decreases extras@.len() - i,
    {
        if found.is_none() && crate::value::str_eq(extras[i].0.as_str(), key.as_str()) {
            found = Some(i);
        }
        i += 1;
    }
    let ghost k = key@;
    match found {
        Some(j) => {
            proof {
                assert(ex0[j as int].0 == k);
                assert(key_index(ex0, k) == Some(j as int)) by {
                    let c = choose|c: int| 0 <= c < ex0.len() && ex0[c].0 == k && forall|m: int| 0 <= m < c ==> ex0[m].0 != k;
                    if c < j as int {
                    } else if c > j as int {
                        assert(ex0[j as int].0 != k);
                    }
                }
            }
            extras.set(j, (key, args[2]));
        },
        None => {
            proof {
                assert(key_index(ex0, k) is None);
            }
            extras.push((key, args[2]));
        },
    }
    proof {
        assert(extras_view(extras@) =~= put_extra(ex0, k, args@[2]));
    }
    replace_payload(vm, args[0], Native::Intent { action, data, extras })?;
    Ok(args[0])
}

/// `Intent.putExtra(String, long)`: as for any value.
pub fn intent_put_extra_long(vm: &mut Vm, args: &[JValue]) -> (r: R)
    requires
        old(vm).wf(),
        args@.len() >= 3,
    ensures
        nat_post(old(vm), final(vm)),
        r is Ok <==> text_of(old(vm), args@[1]) is Some && intent_of(old(vm), args@[0]) is Some,
        r is Ok ==> r == Ok::<JValue, NatErr>(args@[0]) && only_changed(old(vm), final(vm), args@[0]) && ({
            let (a, d, ex) = intent_of(old(vm), args@[0])->Some_0;
            intent_of(final(vm), args@[0]) == Some((a, d, put_extra(ex, text_of(old(vm), args@[1])->Some_0, args@[2])))
        }),
        r is Err ==> r->Err_0 is Throw,
{
    intent_put_extra_string(vm, args)
}

/// `Intent.getData()`: a new `Uri` with the intent's data, or null.
pub fn intent_get_data(vm: &mut Vm, args: &[JValue]) -> (r: R)
    requires
        old(vm).wf(),
        args@.len() >= 1,
    ensures
        nat_post(old(vm), final(vm)),
        intent_of(old(vm), args@[0]) is None ==> r matches Err(NatErr::Throw(_)),
        r matches Ok(v) ==> intent_of(old(vm), args@[0]) matches Some((_, d, _)) && match d {
            Some(s) => exists|t: String| t@ == s && #[trigger] fresh_obj(old(vm), final(vm), v, "Landroid/net/Uri;"@, Native::Uri(t)),
            None => v == JValue::Null && *final(vm) == *old(vm),
        },
        r matches Err(e) ==> intent_of(old(vm), args@[0]) is None || e is Fatal,
{
    let (_, data, _) = intent_parts(vm, args[0])?;
    match data {
        Some(s) => new_uri(vm, "Landroid/net/Uri;", s),
        None => Ok(JValue::Null),
    }
}

/// `Intent.setAction(String)`.
pub fn intent_set_action(vm: &mut Vm, args: &[JValue]) -> (r: R)
    requires
        old(vm).wf(),
        args@.len() >= 2,
    ensures
        nat_post(old(vm), final(vm)),
        r is Ok <==> text_of(old(vm), args@[1]) is Some && intent_of(old(vm), args@[0]) is Some,
        r is Ok ==> r == Ok::<JValue, NatErr>(args@[0]) && only_changed(old(vm), final(vm), args@[0]) && ({
            let (a, d, ex) = intent_of(old(vm), args@[0])->Some_0;
            intent_of(final(vm), args@[0]) == Some((Some(text_of(old(vm), args@[1])->Some_0), d, ex))
        }),
        r is Err ==> r->Err_0 is Throw,
{
    let action = jstr(vm, args[1])?;
    let (_, data, extras) = intent_parts(vm, args[0])?;
    replace_payload(vm, args[0], Native::Intent { action: Some(action), data, extras })?;
    Ok(args[0])
}

/// `Intent.addFlags(int)` / `Intent.setComponent(...)`: nothing kept; the
/// intent itself (a receiver without payload throws
/// `NullPointerException`).
pub fn intent_add_flags(vm: &mut Vm, args: &[JValue]) -> (r: R)
    requires
        old(vm).wf(),
        args@.len() >= 1,
    ensures
        nat_post(old(vm), final(vm)),
        r is Ok <==> payload_spec(old(vm), args@[0]) is Some,
        r is Ok ==> unchanged_ok(old(vm), final(vm), r, args@[0]),
        r is Err ==> r->Err_0 is Throw,
{
    if payload(vm, args[0]).is_some() {
        Ok(args[0])
    } else {
        Err(npe(vm))
    }
}

/// `Intent.setComponent(ComponentName)`: as [`intent_add_flags`].
pub fn intent_set_component(vm: &mut Vm, args: &[JValue]) -> (r: R)
    requires
        old(vm).wf(),
        args@.len() >= 1,
    ensures
        nat_post(old(vm), final(vm)),
        r is Ok <==> payload_spec(old(vm), args@[0]) is Some,
        r is Ok ==> unchanged_ok(old(vm), final(vm), r, args@[0]),
        r is Err ==> r->Err_0 is Throw,
{
    intent_add_flags(vm, args)
}

/// A new empty `Intent`.
fn new_intent(vm: &mut Vm) -> (r: R)
    requires
        old(vm).wf(),
    ensures
        nat_post(old(vm), final(vm)),
        r matches Ok(v) ==> v is Obj && exists|n: Native| #[trigger] fresh_obj(old(vm), final(vm), v, "Landroid/content/Intent;"@, n)
            && intent_of(final(vm), v) == Some((None::<Seq<char>>, None::<Seq<char>>, Seq::<(Seq<char>, JValue)>::empty())),
        r matches Err(e) ==> e is Fatal,
{
    let extras: Vec<(String, JValue)> = Vec::new();
    let n = Native::Intent { action: None, data: None, extras };
    let ghost g = n;
    let r = new_object(vm, "Landroid/content/Intent;", n);
    proof {
        assert(extras_view(extras@) =~= Seq::<(Seq<char>, JValue)>::empty());
        if r is Ok {
            assert(fresh_obj(old(vm), final(vm), r->Ok_0, "Landroid/content/Intent;"@, g));
        }
    }
    r
}

/// The intent and finished flag of an `Activity` value.
pub open spec fn activity_of(vm: &Vm, v: JValue) -> Option<(JValue, bool)> {
    match payload_spec(vm, v) {
        Some(Native::Activity { intent, finished }) => Some((intent, finished)),
        _ => None,
    }
}

/// `Activity.<init>()`: an activity holding a new empty intent, not
/// finished.
pub fn activity_init(vm: &mut Vm, args: &[JValue]) -> (r: R)
    requires
        old(vm).wf(),
        args@.len() >= 1,
    ensures
        nat_post(old(vm), final(vm)),
        r is Ok ==> r == Ok::<JValue, NatErr>(JValue::Null) && payload_spec(old(vm), args@[0]) is Some
            && (activity_of(final(vm), args@[0]) matches Some((i, false)) && i is Obj),
        payload_spec(old(vm), args@[0]) is None ==> r matches Err(NatErr::Throw(_)),
        payload_spec(old(vm), args@[0]) is Some ==> r is Ok || r matches Err(NatErr::Fatal(_)),
{
    if payload(vm, args[0]).is_none() {
        return Err(npe(vm));
    }
    let intent = new_intent(vm)?;
    replace_payload(vm, args[0], Native::Activity { intent, finished: false })?;
    Ok(JValue::Null)
}

/// `Activity.finish()`: marks the activity finished.
pub fn activity_finish(vm: &mut Vm, args: &[JValue]) -> (r: R)
    requires
        old(vm).wf(),
        args@.len() >= 1,
    ensures
        nat_post(old(vm), final(vm)),
        r is Ok <==> activity_of(old(vm), args@[0]) is Some,
        r is Ok ==> r == Ok::<JValue, NatErr>(JValue::Null) && only_changed(old(vm), final(vm), args@[0])
            && activity_of(final(vm), args@[0]) == Some((activity_of(old(vm), args@[0])->Some_0.0, true)),
        r is Err ==> r->Err_0 is Throw,
{
    let intent = match payload(vm, args[0]) {
        Some(Native::Activity { intent, .. }) => *intent,
        _ => return Err(npe(vm)),
    };
    replace_payload(vm, args[0], Native::Activity { intent, finished: true })?;
    Ok(JValue::Null)
}

/// `Activity.getIntent()`: the activity's intent, made (empty) on first
/// use.
pub fn activity_get_intent(vm: &mut Vm, args: &[JValue]) -> (r: R)
    requires
        old(vm).wf(),
        args@.len() >= 1,
    ensures
        nat_post(old(vm), final(vm)),
        activity_of(old(vm), args@[0]) is None ==> r matches Err(NatErr::Throw(_)),
        r matches Ok(v) ==> activity_of(old(vm), args@[0]) matches Some((i, f)) && if i != JValue::Null {
            v == i && *final(vm) == *old(vm)
        } else {
            v is Obj && activity_of(final(vm), args@[0]) == Some((v, f))
        },
        r matches Err(e) ==> activity_of(old(vm), args@[0]) is None || e is Fatal,
{
    let (existing, finished) = match payload(vm, args[0]) {
        Some(Native::Activity { intent, finished }) => (*intent, *finished),
        _ => return Err(npe(vm)),
    };
    if !existing.is_null() {
        return Ok(existing);
    }
    let ghost before = *vm;
    let created = new_intent(vm)?;
    proof {
        let id = args@[0]->Obj_0;
        assert(payload_spec(&before, args@[0]) is Some);
        assert((id as int) < before.arena.objects@.len());
        assert(payload_spec(vm, args@[0]) is Some || payload_spec(vm, args@[0]) is None);
    }
    if payload(vm, args[0]).is_none() {
        return Err(npe(vm));
    }
    replace_payload(vm, args[0], Native::Activity { intent: created, finished })?;
    Ok(created)
}

/// `URLUtil.isValidUrl(String)`: whether it starts, in any letter case,
/// with one of the schemes `http://`, `https://`, `file://`, `content://`,
/// `ftp://`; a null or non-string is not valid.
pub open spec fn valid_url(s: Seq<char>) -> bool {
    let l = s.map_values(|c: char| if 'A' <= c <= 'Z' { ((c as u32) + 32) as char } else { c });
    ||| l.len() >= 7 && l.subrange(0, 7) == "http://"@
    ||| l.len() >= 8 && l.subrange(0, 8) == "https://"@
    ||| l.len() >= 7 && l.subrange(0, 7) == "file://"@
    ||| l.len() >= 10 && l.subrange(0, 10) == "content://"@
    ||| l.len() >= 6 && l.subrange(0, 6) == "ftp://"@
}

/// Whether `s`, lower-cased, starts with `prefix` (which is lower case).
fn starts_with_lower(s: &str, prefix: &str) -> (r: bool)
    ensures
        r == (s@.len() >= prefix@.len() && s@.map_values(|c: char| if 'A' <= c <= 'Z' { ((c as u32) + 32) as char } else { c }).subrange(0, prefix@.len() as int) == prefix@),
{
    let ghost l = s@.map_values(|c: char| if 'A' <= c <= 'Z' { ((c as u32) + 32) as char } else { c });
    let n = prefix.unicode_len();
    if s.unicode_len() < n {
        return false;
    }
    let mut i: usize = 0;
    while i < n
        invariant
            n == prefix@.len(),
            n <= s@.len(),
            l == s@.map_values(|c: char| if 'A' <= c <= 'Z' { ((c as u32) + 32) as char } else { c }),
            i <= n,
            forall|j: int| 0 <= j < i ==> l[j] == prefix@[j],
        decreases n - i,
    {
        let c = s.get_char(i);
        let lc = if 'A' <= c && c <= 'Z' { ((c as u32) + 32) as u8 as char } else { c };
        proof {
            if 'A' <= c && c <= 'Z' {
                assert(((c as u32) + 32) as u8 as char == ((c as u32) + 32) as char);
            }
        }
        if lc != prefix.get_char(i) {
            proof {
                assert(l.subrange(0, n as int)[i as int] != prefix@[i as int]);
            }
            return false;
        }
        i += 1;
    }
    proof {
        assert(l.subrange(0, n as int) =~= prefix@);
    }
    true
}

/// `URLUtil.isValidUrl(String)`.
pub fn url_util_valid_url(vm: &mut Vm, args: &[JValue]) -> (r: R)
    requires
        args@.len() >= 1,
    ensures
        unchanged_ok(old(vm), final(vm), r, JValue::Int(
            if text_of(old(vm), args@[0]) matches Some(s) && valid_url(s) { 1i32 } else { 0i32 })),
{
    let valid = match payload(vm, args[0]) {
        Some(Native::Str(s)) => {
            proof {
                reveal_strlit("http://");
                reveal_strlit("https://");
                reveal_strlit("file://");
                reveal_strlit("content://");
                reveal_strlit("ftp://");
            }
            starts_with_lower(s.as_str(), "http://") || starts_with_lower(s.as_str(), "https://")
                || starts_with_lower(s.as_str(), "file://") || starts_with_lower(s.as_str(), "content://")
                || starts_with_lower(s.as_str(), "ftp://")
        },
        _ => false,
    };
    Ok(JValue::Int(if valid { 1 } else { 0 }))
}

/// `Html.fromHtml(String, int)`: the text without markup, as a string.
pub fn html_from_html(vm: &mut Vm, args: &[JValue]) -> (r: R)
    requires
        old(vm).wf(),
        args@.len() >= 1,
    ensures
        nat_post(old(vm), final(vm)),
        r is Ok <==> text_of(old(vm), args@[0]) is Some,
        r matches Ok(v) ==> str_result(old(vm), final(vm), v, crate::uri::html_text(text_of(old(vm), args@[0])->Some_0)),
        r is Err ==> r->Err_0 is Throw,
{
    let html = jstr(vm, args[0])?;
    let text = crate::uri::html_to_text(html.as_str());
    Ok(new_str(vm, text.as_str()))
}

} // verus!
