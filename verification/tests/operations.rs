use winlocale::get_locale_info;
use winlocale::get_locale_lcid;
use winlocale::get_user_default_locale_name;
use winlocale::globalization_preference;
use winlocale::preferred_ui_languages;
use winlocale::LocaleService;
use winlocale::PreferenceError;
use winlocale::LOCALE_NAME_MAX_LENGTH;

fn units(s: &str) -> Vec<u16> {
    s.encode_utf16().collect()
}

fn write_units(buf: &mut Vec<u16>, s: &str) -> usize {
    let us = units(s);
    for (i, u) in us.iter().enumerate() {
        if i < buf.len() {
            buf[i] = *u;
        }
    }
    us.len()
}

/// A service whose every entry point reports failure: zero written units
/// for the text queries, explicit failure for the other two.
struct FailingService;

impl LocaleService for FailingService {
    fn locale_name_from_id(&mut self, _buf: &mut Vec<u16>) -> usize {
        0
    }
    fn locale_info(&mut self, _info_type: u32, _buf: &mut Vec<u16>) -> usize {
        0
    }
    fn user_default_name(&mut self, _buf: &mut Vec<u16>) -> usize {
        0
    }
    fn ui_languages_sizes(&mut self) -> (bool, u32, u32) {
        (false, 0, 0)
    }
    fn ui_languages_fill(&mut self, _buf: &mut Vec<u16>) -> bool {
        false
    }
    fn preference_languages(&mut self) -> Result<Vec<Vec<u16>>, i32> {
        Err(-2147467259)
    }
}

/// A service that answers every text query with the given text and serves
/// a fixed UI-language buffer and preference list.
struct TextService {
    text: &'static str,
}

impl LocaleService for TextService {
    fn locale_name_from_id(&mut self, buf: &mut Vec<u16>) -> usize {
        write_units(buf, self.text)
    }
    fn locale_info(&mut self, _info_type: u32, buf: &mut Vec<u16>) -> usize {
        write_units(buf, self.text)
    }
    fn user_default_name(&mut self, buf: &mut Vec<u16>) -> usize {
        write_units(buf, self.text)
    }
    fn ui_languages_sizes(&mut self) -> (bool, u32, u32) {
        (true, 2, 13)
    }
    fn ui_languages_fill(&mut self, buf: &mut Vec<u16>) -> bool {
        let mut filled = units("en-US");
        filled.push(0);
        filled.extend(units("fr-FR"));
        filled.push(0);
        filled.push(0);
        for (i, u) in filled.iter().enumerate() {
            if i < buf.len() {
                buf[i] = *u;
            }
        }
        true
    }
    fn preference_languages(&mut self) -> Result<Vec<Vec<u16>>, i32> {
        Ok(vec![units(self.text)])
    }
}

/// A two-phase list service whose first phase succeeds with plausible
/// sizes but whose second phase fails after scribbling over the buffer.
struct PhaseBFailure;

impl LocaleService for PhaseBFailure {
    fn locale_name_from_id(&mut self, _buf: &mut Vec<u16>) -> usize {
        0
    }
    fn locale_info(&mut self, _info_type: u32, _buf: &mut Vec<u16>) -> usize {
        0
    }
    fn user_default_name(&mut self, _buf: &mut Vec<u16>) -> usize {
        0
    }
    fn ui_languages_sizes(&mut self) -> (bool, u32, u32) {
        (true, 3, 40)
    }
    fn ui_languages_fill(&mut self, buf: &mut Vec<u16>) -> bool {
        write_units(buf, "ga-RB\u{0}age");
        false
    }
    fn preference_languages(&mut self) -> Result<Vec<Vec<u16>>, i32> {
        Ok(Vec::new())
    }
}

#[test]
fn zero_written_units_yield_empty_text() {
    let mut s = FailingService;
    assert_eq!(get_locale_lcid(&mut s, LOCALE_NAME_MAX_LENGTH), "");
    assert_eq!(get_locale_info(&mut s, 0x59, LOCALE_NAME_MAX_LENGTH), "");
    assert_eq!(get_user_default_locale_name(&mut s, LOCALE_NAME_MAX_LENGTH), "");
}

#[test]
fn failed_size_phase_yields_empty_list() {
    let mut s = FailingService;
    assert!(preferred_ui_languages(&mut s).is_empty());
}

#[test]
fn failed_fill_phase_yields_empty_list() {
    let mut s = PhaseBFailure;
    assert!(preferred_ui_languages(&mut s).is_empty());
}

#[test]
fn successful_list_keeps_platform_order() {
    let mut s = TextService { text: "nb-NO" };
    let langs = preferred_ui_languages(&mut s);
    assert_eq!(langs, vec!["en-US".to_string(), "fr-FR".to_string()]);
}

#[test]
fn text_queries_trim_the_written_units() {
    let mut s = TextService { text: "  fr-FR  " };
    assert_eq!(get_locale_lcid(&mut s, LOCALE_NAME_MAX_LENGTH), "fr-FR");
    assert_eq!(get_locale_info(&mut s, 0x5a, LOCALE_NAME_MAX_LENGTH), "fr-FR");
    assert_eq!(get_user_default_locale_name(&mut s, LOCALE_NAME_MAX_LENGTH), "fr-FR");
}

#[test]
fn interior_whitespace_is_kept() {
    let mut s = TextService { text: " a b " };
    assert_eq!(get_locale_info(&mut s, 0, LOCALE_NAME_MAX_LENGTH), "a b");
}

#[test]
fn zero_capacity_is_rejected_before_the_call() {
    let mut s = TextService { text: "en-US" };
    assert_eq!(get_locale_lcid(&mut s, 0), "");
    assert_eq!(get_locale_info(&mut s, 0, 0), "");
    assert_eq!(get_user_default_locale_name(&mut s, 0), "");
}

#[test]
fn result_never_exceeds_the_capacity() {
    let mut s = TextService { text: "en-US" };
    let r = get_locale_info(&mut s, 0, 3);
    assert!(r.chars().count() <= 3);
    assert_eq!(r, "en-");
}

#[test]
fn preference_failure_propagates() {
    let mut s = FailingService;
    let r = globalization_preference(&mut s);
    assert_eq!(r, Err(PreferenceError::Service { code: -2147467259 }));
}

#[test]
fn empty_preference_list_is_an_error() {
    let mut s = PhaseBFailure;
    let r = globalization_preference(&mut s);
    assert_eq!(r, Err(PreferenceError::NoEntries));
    assert_eq!(
        PreferenceError::NoEntries.describe(),
        "globalization preference list is empty"
    );
}

#[test]
fn preference_success_returns_the_first_entry() {
    let mut s = TextService { text: "de-DE" };
    assert_eq!(globalization_preference(&mut s), Ok("de-DE".to_string()));
}
