pub mod command;
pub mod connection_config;
pub mod redis;
pub mod stats;
