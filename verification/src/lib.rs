pub mod config;
pub mod protocol;
pub mod proxy;
pub mod server;
pub mod tproto;
