pub mod touch_input;
