//! A websocket transport for multiplexed sessions, and the proxy that runs over it: everything that
//! is decided or computed between the sockets.

pub mod client;
pub mod encoding;
pub mod etag;
pub mod foreign;
pub mod forward;
pub mod handshake;
pub mod http;
pub mod info;
pub mod key;
pub mod listener;
pub mod meter;
pub mod pipe;
pub mod protocol;
pub mod server;
pub mod shared;
pub mod socks;
pub mod text;

pub use pipe::ObfsWsPipe;
