//! A Modbus protocol engine: the application message model, the wire
//! encodings of the TCP and RTU transports, the correlation of replies with
//! their requests, and the dispatch of decoded requests to a handler.

pub mod client;
pub mod codec;
pub mod frame;
pub mod server;
pub mod service;
pub mod slave;
pub mod text;
