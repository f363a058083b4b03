pub mod connection;
pub mod detail;
pub mod lists;
pub mod redis;
pub mod scan;
