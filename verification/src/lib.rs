//! Framed request/response transport core.

pub mod buf;
pub mod errors;
pub mod frame;
pub mod funnel;
pub mod le_bytes;
pub mod multiplex_client;
pub mod queued_writer;
pub mod server;
pub mod stream_ext;
pub mod uds_client;
pub mod vec_bufs;
