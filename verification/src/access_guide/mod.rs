//! Access guide: arrival method, codes, layers, steps and per-language copy.

pub mod config;
pub mod texts;
pub mod views;
pub mod commands;
pub mod email;
pub mod guest;
pub mod host;
