pub mod canon;
pub mod commands;
pub mod database;
pub mod leaves;
pub mod models;
pub mod order;
pub mod projector;
pub mod session;
pub mod text;
pub mod tree;

pub use session::AppState;
