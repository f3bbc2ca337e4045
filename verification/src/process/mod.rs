//! Describing a process before it is spawned.

pub mod builder;
pub mod command;
pub mod name;
pub mod stream_config;
pub mod unstaged;
