pub mod config;
pub mod bus;
