//! The locale query adapter: one operation per entry point of the
//! platform's locale service. Every operation allocates a scratch buffer,
//! hands it to the injected service, truncates to the reported length,
//! decodes the units as UTF-16 and normalises the text, and collapses
//! failure into the documented empty result — except the globalization
//! preference query, whose failures propagate as an explicit error.

use vstd::prelude::*;

use crate::langlist::language_list_spec;
use crate::langlist::lemma_language_list_entries;
use crate::langlist::split_ui_languages;
use crate::service::LocaleService;
use crate::service::PreferenceError;
use crate::text::chars_to_string;
use crate::text::lemma_trim_len;
use crate::text::lemma_trim_no_edge_space;
use crate::text::no_edge_space;
use crate::text::trim_chars;
use crate::text::trim_spec;
use crate::utf16::lemma_decode_lossy_len;
use crate::utf16::utf16_decode;
use crate::utf16::utf16_decode_lossy;
use crate::utf16::utf16_to_chars_lossy;

verus! {

/// The platform's maximum length of a locale name, in encoding units,
/// terminator included: the default scratch-buffer capacity for the
/// single-name queries.
pub const LOCALE_NAME_MAX_LENGTH: usize = 85;

/// A zero-initialised scratch buffer of the given capacity.
pub fn zeroed_buffer(capacity: usize) -> (r: Vec<u16>)
    ensures
        r@.len() == capacity,
        forall|j: int| 0 <= j < capacity ==> r@[j] == 0,
{
    let mut r: Vec<u16> = Vec::new();
    let mut k: usize = 0;
    while k < capacity
        invariant
            k <= capacity,
            r@.len() == k,
            forall|j: int| 0 <= j < k ==> r@[j] == 0,
        decreases capacity - k,
    {
        r.push(0);
        k = k + 1;
    }
    r
}

/// Turns a returned buffer and a reported written-unit count into the
/// final text: truncate to the count, decode as UTF-16 (lossily), trim
/// whitespace from both edges. A zero count yields the empty string, the
/// failure sentinel of the single-name queries.
pub fn finish_text_query(buf: &Vec<u16>, written: usize) -> (r: String)
    requires
        written <= buf@.len(),
    ensures
        r@ == trim_spec(utf16_decode_lossy(buf@.take(written as int))),
        r@.len() <= written,
        written == 0 ==> r@.len() == 0,
        no_edge_space(r@),
{
    let mut prefix: Vec<u16> = Vec::new();
    let mut k: usize = 0;
    while k < written
        invariant
            k <= written <= buf@.len(),
            prefix@ == buf@.take(k as int),
        decreases written - k,
    {
        prefix.push(buf[k]);
        proof {
            assert(buf@.take(k as int).push(buf@[k as int]) =~= buf@.take(k as int + 1));
        }
        k = k + 1;
    }
    let cs = utf16_to_chars_lossy(&prefix);
    let trimmed = trim_chars(&cs);
    proof {
        lemma_decode_lossy_len(prefix@);
        lemma_trim_len(cs@);
        lemma_trim_no_edge_space(cs@);
    }
    chars_to_string(&trimmed)
}

/// Caps a reported count at the buffer's length and at the configured
/// capacity, so that a service that reports more than it was given cannot
/// widen the result.
fn clamp_written(written: usize, len: usize, capacity: usize) -> (r: usize)
    ensures
        r <= len && r <= capacity && r <= written,
        written <= len && written <= capacity ==> r == written,
{
    let mut r: usize = written;
    if len < r {
        r = len;
    }
    if capacity < r {
        r = capacity;
    }
    r
}

/// Resolves the current locale identifier to its locale-tag text: empty
/// string on failure, the trimmed decoded name on success.
pub fn get_locale_lcid<S: LocaleService>(service: &mut S, capacity: usize) -> (r: String)
    ensures
        no_edge_space(r@),
        r@.len() <= capacity,
        capacity == 0 ==> r@.len() == 0,
{
    if capacity == 0 {
        return String::new();
    }
    let mut buf = zeroed_buffer(capacity);
    let written = service.locale_name_from_id(&mut buf);
    let w = clamp_written(written, buf.len(), capacity);
    finish_text_query(&buf, w)
}

/// Resolves the locale facet selected by the opaque `info_type` code for
/// the current user locale: empty string on failure, the trimmed decoded
/// facet text on success. The code is not validated here; an unsupported
/// code is the service's failure to signal.
pub fn get_locale_info<S: LocaleService>(service: &mut S, info_type: u32, capacity: usize) -> (r:
    String)
    ensures
        no_edge_space(r@),
        r@.len() <= capacity,
        capacity == 0 ==> r@.len() == 0,
{
    if capacity == 0 {
        return String::new();
    }
    let mut buf = zeroed_buffer(capacity);
    let written = service.locale_info(info_type, &mut buf);
    let w = clamp_written(written, buf.len(), capacity);
    finish_text_query(&buf, w)
}

/// Resolves the user's default locale name: empty string on failure, the
/// trimmed decoded name on success.
pub fn get_user_default_locale_name<S: LocaleService>(service: &mut S, capacity: usize) -> (r:
    String)
    ensures
        no_edge_space(r@),
        r@.len() <= capacity,
        capacity == 0 ==> r@.len() == 0,
{
    if capacity == 0 {
        return String::new();
    }
    let mut buf = zeroed_buffer(capacity);
    let written = service.user_default_name(&mut buf);
    let w = clamp_written(written, buf.len(), capacity);
    finish_text_query(&buf, w)
}

/// The user's ranked UI-language list, in the order the platform reports.
/// Runs the two-phase protocol: ask for the required sizes, then fill a
/// buffer of exactly that length. Failure of either phase yields the
/// empty list, never a partial decode; no returned entry is empty.
pub fn preferred_ui_languages<S: LocaleService>(service: &mut S) -> (r: Vec<String>)
    ensures
        forall|i: int| 0 <= i < r@.len() ==> (#[trigger] r@[i])@.len() > 0,
        forall|i: int|
            0 <= i < r@.len() ==> exists|g: Seq<u16>|
                g.len() > 0 && utf16_decode(g) == Some((#[trigger] r@[i])@),
{
    let (ok, _count, unit_len) = service.ui_languages_sizes();
    if !ok {
        return Vec::new();
    }
    let mut buf = zeroed_buffer(unit_len as usize);
    let filled = service.ui_languages_fill(&mut buf);
    if !filled {
        return Vec::new();
    }
    let r = split_ui_languages(&buf);
    proof {
        lemma_language_list_entries(buf@);
        assert(forall|i: int|
            0 <= i < r@.len() ==> (#[trigger] r@[i])@ == language_list_spec(buf@)[i]);
    }
    r
}

/// Reads the first entry of the preference list: the service holding no
/// entry is itself a failure, as reading the current value of a missing
/// first entry fails on the platform.
pub fn first_preference_language(entries: &Vec<Vec<u16>>) -> (r: Result<String, PreferenceError>)
    ensures
        entries@.len() == 0 ==> r == Err::<String, PreferenceError>(PreferenceError::NoEntries),
        entries@.len() > 0 ==> r is Ok && r->Ok_0@ == utf16_decode_lossy(entries@[0]@),
{
    if entries.len() == 0 {
        return Err(PreferenceError::NoEntries);
    }
    let cs = utf16_to_chars_lossy(&entries[0]);
    Ok(chars_to_string(&cs))
}

/// The user's first preferred language from the globalization preference
/// service, decoded lossily. Any failure reaching the service or listing
/// its entries propagates as `PreferenceError::Service` with the
/// platform's code, and an empty list as `PreferenceError::NoEntries`:
/// this family does not collapse failure into an empty string.
pub fn globalization_preference<S: LocaleService>(service: &mut S) -> (r: Result<
    String,
    PreferenceError,
>)
    ensures
        r is Err ==> (r->Err_0 is Service || r->Err_0 is NoEntries),
{
    match service.preference_languages() {
        Ok(entries) => first_preference_language(&entries),
        Err(code) => Err(PreferenceError::Service { code }),
    }
}

} // verus!
