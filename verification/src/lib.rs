//! Peer-to-peer networking core: data channels with quotas, request-response
//! bookkeeping and the decisions of the network event loop.

pub mod client;
pub mod command;
pub mod config;
pub mod data_channel;
pub mod error;
pub mod event;
pub mod foreign;
pub mod keyed_table;
pub mod pending_map;
pub mod request;
pub mod runtime;
pub mod text;
