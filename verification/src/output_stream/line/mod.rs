//! Turning byte chunks into lines.

pub mod adapter;
pub mod dispatch;
pub mod laws;
pub mod options;
pub mod parser;
pub mod splitting;
pub mod text;
