pub mod emitter;
pub mod virtpad;
