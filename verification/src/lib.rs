//! Key-centric keymap descriptions for kanata layouts, the TCP protocol messages that
//! carry them, and the text they are rendered to.

pub mod text;
pub mod protocol;
pub mod action;
pub mod describe;
pub mod names;
pub mod strmap;
pub mod keymap;
pub mod json;
pub mod treesitter;
pub mod which_key;
