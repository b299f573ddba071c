//! Emergency contacts: per-language labels, the contact list and the host
//! form that edits it.

pub mod localized;
pub mod config;
pub mod commands;
pub mod views;
