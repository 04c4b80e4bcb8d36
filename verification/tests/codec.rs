use winlocale::chars_to_string;
use winlocale::finish_text_query;
use winlocale::first_preference_language;
use winlocale::is_space;
use winlocale::split_ui_languages;
use winlocale::trim_chars;
use winlocale::utf16_to_chars;
use winlocale::utf16_to_chars_lossy;
use winlocale::zeroed_buffer;
use winlocale::PreferenceError;

fn units(s: &str) -> Vec<u16> {
    s.encode_utf16().collect()
}

#[test]
fn strict_decode_of_plain_text() {
    let cs = utf16_to_chars(&units("en-US")).unwrap();
    assert_eq!(chars_to_string(&cs), "en-US");
}

#[test]
fn strict_decode_of_supplementary_plane() {
    let cs = utf16_to_chars(&vec![0xd834, 0xdd1e]).unwrap();
    assert_eq!(chars_to_string(&cs), "\u{1d11e}");
}

#[test]
fn strict_decode_rejects_lone_high_surrogate() {
    assert!(utf16_to_chars(&vec![0xd800]).is_none());
    assert!(utf16_to_chars(&vec![0x41, 0xd800]).is_none());
}

#[test]
fn strict_decode_rejects_lone_low_surrogate() {
    assert!(utf16_to_chars(&vec![0xdc00, 0x41]).is_none());
}

#[test]
fn lossy_decode_replaces_unpaired_surrogates() {
    let cs = utf16_to_chars_lossy(&vec![0x41, 0xd800, 0x42, 0xdfff]);
    assert_eq!(chars_to_string(&cs), "A\u{fffd}B\u{fffd}");
}

#[test]
fn lossy_decode_keeps_valid_pairs() {
    let cs = utf16_to_chars_lossy(&vec![0xd834, 0xdd1e, 0x21]);
    assert_eq!(chars_to_string(&cs), "\u{1d11e}!");
}

#[test]
fn whitespace_classification() {
    assert!(is_space(' '));
    assert!(is_space('\t'));
    assert!(is_space('\u{3000}'));
    assert!(!is_space('a'));
    assert!(!is_space('\u{0}'));
    assert!(!is_space('-'));
}

#[test]
fn trimming_removes_only_the_edges() {
    let cs: Vec<char> = "  fr\u{a0}FR  ".chars().collect();
    let trimmed = trim_chars(&cs);
    assert_eq!(chars_to_string(&trimmed), "fr\u{a0}FR");
    let all_space: Vec<char> = " \t ".chars().collect();
    assert_eq!(chars_to_string(&trim_chars(&all_space)), "");
    let empty: Vec<char> = Vec::new();
    assert_eq!(chars_to_string(&trim_chars(&empty)), "");
}

#[test]
fn round_trip_of_one_terminated_segment() {
    let mut buf = units("en-US");
    buf.push(0);
    buf.push(0);
    let r = split_ui_languages(&buf);
    assert_eq!(r, vec!["en-US".to_string()]);
}

#[test]
fn split_discards_empty_segments_and_keeps_order() {
    let mut buf = Vec::new();
    buf.extend(units("en-US"));
    buf.push(0);
    buf.push(0);
    buf.extend(units("de-DE"));
    buf.push(0);
    buf.extend(units("fr-FR"));
    buf.push(0);
    buf.push(0);
    let r = split_ui_languages(&buf);
    assert_eq!(
        r,
        vec!["en-US".to_string(), "de-DE".to_string(), "fr-FR".to_string()]
    );
}

#[test]
fn split_skips_invalid_segments() {
    let mut buf = Vec::new();
    buf.extend(units("en"));
    buf.push(0);
    buf.push(0xd800);
    buf.push(0);
    buf.extend(units("fr"));
    buf.push(0);
    buf.push(0);
    let r = split_ui_languages(&buf);
    assert_eq!(r, vec!["en".to_string(), "fr".to_string()]);
}

#[test]
fn split_of_empty_buffer_is_empty() {
    let r = split_ui_languages(&Vec::new());
    assert!(r.is_empty());
    let r = split_ui_languages(&vec![0, 0]);
    assert!(r.is_empty());
}

#[test]
fn finish_truncates_to_the_reported_length() {
    let buf = units("en-USWXYZ");
    assert_eq!(finish_text_query(&buf, 5), "en-US");
    assert_eq!(finish_text_query(&buf, 0), "");
    assert_eq!(finish_text_query(&buf, 9), "en-USWXYZ");
}

#[test]
fn finish_trims_after_decoding() {
    let buf = units("  fr-FR  ");
    assert_eq!(finish_text_query(&buf, 9), "fr-FR");
}

#[test]
fn zeroed_buffer_shape() {
    let buf = zeroed_buffer(85);
    assert_eq!(buf.len(), 85);
    assert!(buf.iter().all(|u| *u == 0));
    assert!(zeroed_buffer(0).is_empty());
}

#[test]
fn first_preference_entry_is_decoded() {
    let entries = vec![units("de-DE"), units("en-GB")];
    assert_eq!(first_preference_language(&entries), Ok("de-DE".to_string()));
}

#[test]
fn first_preference_of_empty_list_fails() {
    let entries: Vec<Vec<u16>> = Vec::new();
    assert_eq!(
        first_preference_language(&entries),
        Err(PreferenceError::NoEntries)
    );
}
