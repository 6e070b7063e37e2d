pub mod diff;
pub mod keymap;
pub mod strings;
pub mod throttle;
