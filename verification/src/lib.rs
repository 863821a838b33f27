//! A small dictionary service over a line-oriented protocol: a table of
//! entries loaded from comma-separated text, the command processor and
//! connection state machine of the server, and the request and reply
//! handling of the client.

pub mod client;
pub mod dataset;
pub mod protocol;
pub mod server;
pub mod text;
