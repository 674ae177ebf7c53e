//! The command modules.
pub mod modules;
