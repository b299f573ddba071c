//! Appliances: device guides with a TipTap description, per language.

pub mod bundle;
pub mod codec;
pub mod commands;
pub mod content;
pub mod legacy;
pub mod queries;
pub mod tiptap;
pub mod views;
