//! The decision logic of an RTSP server.
//!
//! Everything that the server, its clients, its medias and its media factories decide is a
//! function from plain values to plain values in this crate, with a contract that is proved.
//! Tasks, channels, sockets and timers live around it.

pub mod channel;
pub mod client;
pub mod collections;
pub mod error;
pub mod extra_data;
pub mod headers;
pub mod id;
pub mod listener;
pub mod media;
pub mod media_factory;
pub mod message;
pub mod rtp_info;
pub mod server;
pub mod stream_handler;
pub mod table;
pub mod text;
pub mod time;
pub mod transport;
pub mod transport_laws;
pub mod typemap;
pub mod url;
pub mod url_laws;
pub mod utils;
