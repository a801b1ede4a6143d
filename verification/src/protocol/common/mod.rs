pub mod request;

pub use crate::tproto::common::addr;
pub use crate::tproto::common::atype;
pub use crate::tproto::common::command;
