//! The shape in which connection profiles are stored.

pub use crate::models::connection_config::ConnectionConfig;
pub use crate::models::connection_config::Profile;
