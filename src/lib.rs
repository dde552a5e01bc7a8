//! A reverse proxy for the Minecraft Java Edition protocol: the wire codec,
//! the packets it speaks, the stream cipher, the status and login exchanges,
//! and the decisions taken on each connection.
pub mod cipher;
pub mod codec;
pub mod command;
pub mod config;
pub mod error;
pub mod json;
pub mod keys;
pub mod packet;
pub mod player;
pub mod protocol;
pub mod util;
