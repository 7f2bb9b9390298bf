//! Routing through the Windows audio session interface.

pub mod endpoints;
pub mod endpoints_laws;
pub mod engine;
pub mod engine_laws;
pub mod routing;
pub mod routing_laws;
pub mod streams;
pub mod watch;
