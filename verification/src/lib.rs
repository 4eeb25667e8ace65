//! A daemon library for suckless tools: the state of the dwm status bar,
//! the rules that build it from the output of status scripts, and the
//! decisions around them, with their contracts.

pub mod error;
pub mod api;
pub mod daemon;
pub mod command;
pub mod segments;
pub mod bar;
pub mod dmenu;
pub mod ffi;
