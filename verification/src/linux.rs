//! Routing through PulseAudio or PipeWire, driven by the `pactl` command.

pub mod backend;
pub mod cleanup;
pub mod cleanup_laws;
pub mod levels;
pub mod messages;
pub mod modules;
pub mod modules_laws;
pub mod monitor;
pub mod monitor_laws;
pub mod monitor_loop;
pub mod pactl;
pub mod routing;
pub mod routing_laws;
pub mod sinks;
pub mod sinks_laws;
pub mod startup;
pub mod startup_laws;
