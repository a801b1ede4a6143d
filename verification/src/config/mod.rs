pub mod base;
pub mod tls;
