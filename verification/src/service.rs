//! The injectable locale service: the five entry points of the platform's
//! locale and globalization facilities that the adapter drives.

use vstd::prelude::*;

verus! {

/// The platform's locale service family, one method per entry point.
///
/// The methods carry no contract on purpose: the adapter is verified to
/// meet its own guarantees for every behaviour an implementation may
/// exhibit, including one that ignores the buffer, reports a length larger
/// than it, or fills it with arbitrary units. A reported count of zero
/// means failure for the three text entry points; the two-phase list entry
/// point and the preference entry point report failure explicitly.
pub trait LocaleService {
    /// Identifier-to-name: resolves the current locale identifier to its
    /// locale-tag text, writing UTF-16 units into `buf` and returning the
    /// written-unit count, zero on failure.
    fn locale_name_from_id(&mut self, buf: &mut Vec<u16>) -> usize;

    /// Locale-info-by-code: resolves the facet selected by the opaque
    /// `info_type` code for the current user locale; same buffer and count
    /// convention as `locale_name_from_id`.
    fn locale_info(&mut self, info_type: u32, buf: &mut Vec<u16>) -> usize;

    /// User-default-name: resolves the user's default locale name; same
    /// buffer and count convention as `locale_name_from_id`.
    fn user_default_name(&mut self, buf: &mut Vec<u16>) -> usize;

    /// First phase of the UI-language-list protocol: reports success, the
    /// number of languages, and the unit length the fill buffer needs.
    fn ui_languages_sizes(&mut self) -> (bool, u32, u32);

    /// Second phase: fills `buf` with null-terminated UTF-16 segments and
    /// reports success.
    fn ui_languages_fill(&mut self, buf: &mut Vec<u16>) -> bool;

    /// The globalization-preference entry point: the user's ordered
    /// preference languages, each as its UTF-16 units, or the platform's
    /// error code when reaching or listing them fails.
    fn preference_languages(&mut self) -> Result<Vec<Vec<u16>>, i32>;
}

/// Why a globalization-preference query failed. Unlike the other
/// operations, this family propagates failure instead of collapsing it
/// into an empty result.
#[derive(Clone, Copy, Debug, PartialEq, Eq)]
pub enum PreferenceError {
    /// The platform reported failure while reaching the preference
    /// service or listing its entries; carries the platform's error code.
    Service { code: i32 },
    /// The service was reached but holds no entry to read.
    NoEntries,
}

impl PreferenceError {
    /// A short description, for callers that report the failure.
    pub fn describe(&self) -> (r: &'static str)
        ensures
            (*self is Service) ==> r@ == "globalization preference service failed"@,
            (*self is NoEntries) ==> r@ == "globalization preference list is empty"@,
    {
        match self {
            PreferenceError::Service { .. } => "globalization preference service failed",
            PreferenceError::NoEntries => "globalization preference list is empty",
        }
    }
}

} // verus!
