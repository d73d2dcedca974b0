//! The client side: opening data channels, issuing commands, exchanging
//! requests and responses.

pub mod data_channel_open;
pub mod future;
pub mod req_resp;
