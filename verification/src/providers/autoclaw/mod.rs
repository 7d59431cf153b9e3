//! AutoClaw.

pub mod oauth;
