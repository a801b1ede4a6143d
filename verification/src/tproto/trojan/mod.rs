pub mod base;
pub mod parser;
pub mod packet;

pub use self::base::CRLF;
pub use self::base::HEX_SIZE;
pub use self::parser::parse_trojan;
pub use self::parser::parse_udp;
