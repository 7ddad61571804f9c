//! Daemon-owned sessions: output tees, observer subscriptions, request
//! handlers, and the endpoints that serve them.

pub mod observer_registry;
pub mod telemetry;
pub mod protocol;
pub mod compile_session;
pub mod session_endpoint;
pub mod backend_endpoint;
pub mod handlers;
