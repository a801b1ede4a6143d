pub mod common;
pub mod trojan;
