pub mod overlay;
