pub mod models;
pub mod plugin;
pub mod queries;
