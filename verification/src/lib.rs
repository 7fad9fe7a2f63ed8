//! Forwards account updates from a host to a message broker.
//!
//! The host hands every account update to the plugin. The filter holds it
//! against the configured token program and mint; the mapper builds the
//! message of an update that passes; the bridge channel carries the message
//! to the publisher, which writes it in its wire form and publishes it. The
//! plugin instance ties these together and keeps the lifecycle: load, run,
//! unload.

pub mod channel;
pub mod config;
pub mod decimal;
pub mod escape;
pub mod filter;
pub mod identifier;
pub mod mapper;
pub mod message;
pub mod plugin;
pub mod plugin_laws;
pub mod wire;
pub mod wire_laws;
