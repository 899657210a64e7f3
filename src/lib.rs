pub mod client;
pub mod connection;
pub mod names;
pub mod operation;
pub mod protocol;
pub mod transaction;
