//! The exchanges of a client connection: the server list ping, the login, and
//! the decisions taken at each step of a connection.
pub mod login;
pub mod session;
pub mod slp;
