//! Touch-screen gestures turned into touchpad input: the decision logic,
//! verified. Device access, timing and the floating-point motion arithmetic
//! live in the application around this library.
pub mod calibration;
pub mod cli;
pub mod config;
pub mod debug;
pub mod gesture;
pub mod input;
pub mod output;
pub mod types;
