pub mod engine;
pub mod handlers;
