pub mod addr;
pub mod atype;
pub mod command;
pub mod request;
