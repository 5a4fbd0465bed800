//! The backends that forward DNS requests.

pub mod connection;
pub mod doh3;
pub mod events;
pub mod pass_laws;
pub mod request;
pub mod session;
pub mod start_laws;
