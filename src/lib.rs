//! A curses-backed terminal control layer with verified colour-pair
//! allocation, key-code translation and event staging.

pub mod types;
pub mod palette;
pub mod pairs;
pub mod keymap;
pub mod driver;
pub mod mouse;
pub mod backend;
