//! The decision logic of a DNS filtering VPN: validation of the configured DNS servers, the
//! DNS-over-HTTP/3 backend, and the main loop that moves packets between the tunnel and the servers.

pub mod address;
pub mod backend;
pub mod controller;
pub mod encoding;
pub mod iteration_laws;
pub mod resolver;
pub mod run;
pub mod run_laws;
pub mod status;
pub mod text;
pub mod validation;
pub mod validation_laws;
pub mod validation_run;
pub mod validator;
pub mod view_laws;
pub mod vpn;
