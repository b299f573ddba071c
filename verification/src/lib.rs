//! Verified logic of the Portaki guest modules: access guide, appliances,
//! checklist, emergency contacts and EV parking.

pub mod text;
pub mod ids;
pub mod json;
pub mod keyed;
pub mod order;
pub mod timed_reveal;
pub mod access_guide;
pub mod appliances;
pub mod checklist;
pub mod emergency_contacts;
pub mod ev_parking;
