//! Decisions and text processing of a Hyprland control deck: parsing the
//! output of `nmcli`, `wpctl`, `hyprctl` and `/proc`, choosing what to run
//! for each request, and the touchpad state machine.
use vstd::prelude::*;

pub mod cli;
pub mod commands;
pub mod text;

verus! {
} // verus!
