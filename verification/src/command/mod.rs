//! Commands that the event loop carries out.

pub mod add_infrastructure_peer;
