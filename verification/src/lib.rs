//! Room session core for pairing anonymous participants one-on-one.
//!
//! A room is owned by a single authority that processes joins, leaves,
//! signaling relays and match expiries one at a time. Every operation is a
//! verified transition from the room's state to its next state together with
//! the ordered list of events to deliver.

pub mod app_state;
pub mod connection;
pub mod event;
pub mod handlers;
pub mod laws;
pub mod matchmaking;
pub mod messages;
pub mod model;
pub mod random;
pub mod room;
pub mod util;
