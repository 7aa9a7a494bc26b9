//! Core logic of the Misaki self-bot: its settings store, command parsing
//! and dispatch, and the text each built-in plugin produces.

pub mod text;
pub mod settings;
pub mod plugins;
pub mod number;
pub mod react;
pub mod purge;
pub mod pattern;
pub mod misconception;
pub mod configure;
pub mod mock;
pub mod memory;
pub mod transform;
pub mod latex;
pub mod evaluate;
pub mod command;
