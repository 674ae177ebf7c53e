//! The command-line requests that the library decides on, as plain values.
use vstd::prelude::*;

verus! {

/// Options of a screenshot: which part of the screen, and where the PNG goes.
#[derive(Debug, Clone, PartialEq, Eq, Default)]
pub struct ScreenshotArgs {
    /// Capture the whole visible desktop without a selection step.
    pub fast: bool,
    /// Capture the focused window.
    pub window: bool,
    /// Capture the monitor of this name.
    pub monitor: Option<String>,
    /// Freeze the desktop while a region is selected.
    pub freeze: bool,
    /// Include the pointer.
    pub cursor: bool,
    /// Copy the PNG to the clipboard.
    pub clipboard: bool,
    /// Save no file.
    pub no_save: bool,
    /// Exact output file path.
    pub output: Option<String>,
    /// Directory for generated file names.
    pub directory: Option<String>,
}

/// Battery requests.
#[derive(Debug, Clone, PartialEq, Eq)]
pub enum BatteryCommands {
    /// Show battery and AC power information.
    Status(BatteryStatusArgs),
}

/// Options of the battery status.
#[derive(Debug, Clone, PartialEq, Eq, Default)]
pub struct BatteryStatusArgs {
    /// Read only the battery of this name.
    pub battery: Option<String>,
    /// Include per-battery details.
    pub verbose: bool,
    /// Print a compact status line.
    pub short: bool,
    /// Print JSON.
    pub json: bool,
}

/// Options of a metrics snapshot.
#[derive(Debug, Clone, PartialEq, Eq, Default)]
pub struct MetricsStatusArgs {
    pub cpu: bool,
    pub memory: bool,
    pub storage: bool,
    pub network: bool,
    pub temperature: bool,
    pub short: bool,
    pub verbose: bool,
    pub json: bool,
    /// Report only the file system mounted here.
    pub mount: Option<String>,
}

/// Touchpad requests.
#[derive(Debug, Clone, Copy, PartialEq, Eq)]
pub enum TouchpadCommands {
    On,
    Off,
    Toggle,
    Status { verbose: bool },
}

/// Options of the volume status.
#[derive(Debug, Clone, PartialEq, Eq)]
pub struct VolumeStatusArgs {
    pub percent: bool,
    pub value: bool,
    pub json: bool,
    /// The audio device, `@DEFAULT_AUDIO_SINK@` unless given.
    pub device: String,
}

/// Wi-Fi requests.
#[derive(Debug, Clone, PartialEq, Eq)]
pub enum WifiCommands {
    Connect,
    Status { json: bool },
    Scan { rescan: bool, json: bool },
    Saved { json: bool },
    Disconnect { device: Option<String> },
    On,
    Off,
}

/// Workspace requests.
#[derive(Debug, Clone, PartialEq, Eq)]
pub enum WorkspaceCommands {
    Move { workspace: String, monitor: String },
    Status { workspace: Option<String> },
}

/// Monitor requests.
#[derive(Debug, Clone, Copy, PartialEq, Eq)]
pub enum MonitorCommands {
    Status,
    Extend,
    Mirror,
}

/// Clipboard requests.
#[derive(Debug, Clone, PartialEq, Eq)]
pub enum ClipboardCommands {
    Copy { mime_type: Option<String>, primary: bool, sensitive: bool },
    Paste { mime_type: Option<String>, primary: bool, no_newline: bool },
    Show { primary: bool, no_newline: bool },
    Types { primary: bool },
    Clear { primary: bool },
}

} // verus!
