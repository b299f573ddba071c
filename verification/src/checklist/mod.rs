//! Checkout checklist: items with labels in several languages, and the
//! stays' completions.

pub mod labels;
pub mod storage;
pub mod guest;
pub mod commands;
pub mod views;
