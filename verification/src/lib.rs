//! A client for the Discord gateway: the message formats it exchanges, the
//! priority queue of outgoing frames, and the decisions it takes on each
//! frame that the gateway sends.

pub mod api;
pub mod dispatch;
pub mod gateway;
pub mod identity;
pub mod json;
pub mod json_read;
pub mod laws;
pub mod order;
pub mod properties;
pub mod queue;
pub mod session;
pub mod text;
