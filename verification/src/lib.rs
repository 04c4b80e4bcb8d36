//! Queries of the host platform's locale and globalization facilities.
//!
//! Every query follows the same protocol: allocate a scratch buffer of
//! encoding units, hand it to one entry point of the platform's locale
//! service, truncate to the length the service reports, decode the units
//! as UTF-16, and normalise the text. The platform service is injected
//! through the [`service::LocaleService`] trait, so the buffer-sizing,
//! decoding and trimming logic here is verified for every behaviour the
//! service may exhibit.

pub mod adapter;
pub mod langlist;
pub mod service;
pub mod text;
pub mod utf16;

pub use adapter::LOCALE_NAME_MAX_LENGTH;
pub use adapter::finish_text_query;
pub use adapter::first_preference_language;
pub use adapter::get_locale_info;
pub use adapter::get_locale_lcid;
pub use adapter::get_user_default_locale_name;
pub use adapter::globalization_preference;
pub use adapter::preferred_ui_languages;
pub use adapter::zeroed_buffer;
pub use langlist::split_ui_languages;
pub use service::LocaleService;
pub use service::PreferenceError;
pub use text::chars_to_string;
pub use text::is_space;
pub use text::trim_chars;
pub use utf16::utf16_to_chars;
pub use utf16::utf16_to_chars_lossy;
