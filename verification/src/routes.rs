//! What the HTTP routes decide, route by route.

pub mod webhook;
pub mod ws;
