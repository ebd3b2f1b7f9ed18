//! Data models: the site owner's contact card and their validated email
//! address.

pub mod contact;
pub mod email;
