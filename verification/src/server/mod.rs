pub mod acceptor;
pub mod users;
