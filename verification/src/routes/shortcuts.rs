//! Shortcut routes: small conveniences over the library's capabilities.

pub mod bargain_day;
