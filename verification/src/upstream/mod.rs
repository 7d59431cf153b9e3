//! Sending a request on: which account carries it, how often it is tried, and
//! what is recorded of it.

pub mod aggregate;
pub mod connections;
pub mod in_flight;
pub mod journey;
pub mod labels;
pub mod provider_loop;
pub mod pump;
pub mod text_map;
pub mod usage;
