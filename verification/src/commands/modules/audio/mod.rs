//! Audio through WirePlumber's `wpctl`.
pub mod volume;
