pub mod decimal;
pub mod host;
pub mod state;
pub mod uuid;
