//! The decision core of a gateway that speaks several model protocols.
//!
//! The crate holds the rules: how a request or a stream of one protocol is
//! written in another, which account carries a request, what a model name
//! stands for, what is recorded of a request. Reading sockets, files and
//! clocks is left to the program around it.

pub mod double;
pub mod errors;
pub mod json;
pub mod laws;
pub mod lists;
pub mod model_rules;
pub mod protocol;
pub mod providers;
pub mod routing;
pub mod text;
pub mod time;
pub mod upstream;
