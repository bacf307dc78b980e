pub mod table;
pub mod bridge;
pub mod engine;
pub mod loader;
