//! EV parking: the spot, its charger PIN and parking code, revealed to the
//! guest on the configured timing.

pub mod config;
pub mod guest;
