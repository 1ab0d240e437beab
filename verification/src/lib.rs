//! Synthesis of operating-system input events from bound actions.
//!
//! The library decides *what* has to be posted: which keys go down or up, in
//! which order, with which modifier flags, and which native command stands for
//! an action. The program around it performs the posts.

pub mod binding;
pub mod chord;
pub mod chord_laws;
pub mod effects;
pub mod held;
pub mod hold;
pub mod inject;
pub mod keyboard;
pub mod keymap;
pub mod laws;
pub mod macos;
pub mod posting;
pub mod script;
pub mod scroll;
