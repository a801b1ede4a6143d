pub mod base;
pub mod tcp;
