//! One module per command group.
pub mod audio;
pub mod battery;
pub mod clipboard;
pub mod metrics;
pub mod monitor;
pub mod screenshot;
pub mod touchpad;
pub mod wifi;
pub mod workspace;
