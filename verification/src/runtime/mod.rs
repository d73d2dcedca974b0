//! The network event loop.

pub mod command_chain;
pub mod event_loop;
pub mod laws;
pub mod relay;
