//! The touchpad: finding its device, and the on/off state kept as the
//! presence of a state file (present means disabled).
use vstd::prelude::*;

use crate::cli::TouchpadCommands;
use crate::text::{
    chars_of, ends_with, has_suffix, line_list, split_lines, string_of, texts, trim, trimmed,
    views,
};

verus! {

/// What happens to the state file.
#[derive(Debug, Clone, Copy, PartialEq, Eq, Structural)]
pub enum StateFileChange {
    Create,
    Remove,
    Keep,
}

/// What a touchpad request does: the device setting to apply (none for a
/// status request), the state file change, and whether the status is shown
/// (with its verbosity) rather than the new setting.
#[derive(Debug, Clone, Copy, PartialEq, Eq, Structural)]
pub struct TouchpadAction {
    pub enable: Option<bool>,
    pub state_file: StateFileChange,
    pub show_status: Option<bool>,
}

/// Whether the touchpad is disabled after `command`, when it was disabled
/// exactly when `disabled`.
pub open spec fn disabled_after(command: TouchpadCommands, disabled: bool) -> bool {
    match command {
        TouchpadCommands::On => false,
        TouchpadCommands::Off => true,
        TouchpadCommands::Toggle => !disabled,
        TouchpadCommands::Status { .. } => disabled,
    }
}

/// Whether the state file exists after `change`, when it existed exactly when
/// `existed`.
pub open spec fn file_after(change: StateFileChange, existed: bool) -> bool {
    match change {
        StateFileChange::Create => true,
        StateFileChange::Remove => false,
        StateFileChange::Keep => existed,
    }
}

/// The decision of a touchpad request, given whether the state file exists:
/// `On` and `Off` set the device and make the file absent or present, `Toggle`
/// flips both, `Status` changes nothing. A file is created only when absent
/// and removed only when present.
pub fn touchpad_transition(command: TouchpadCommands, disabled: bool) -> (a: TouchpadAction)
    ensures
        a == touchpad_action(command, disabled),
        file_after(a.state_file, disabled) == disabled_after(command, disabled),
        a.state_file == StateFileChange::Create ==> !disabled,
        a.state_file == StateFileChange::Remove ==> disabled,
        a.enable == match command {
            TouchpadCommands::Status { .. } => None,
            _ => Some(!disabled_after(command, disabled)),
        },
        a.show_status == match command {
            TouchpadCommands::Status { verbose } => Some(verbose),
            _ => None,
        },
{
    match command {
        TouchpadCommands::On => TouchpadAction {
            enable: Some(true),
            state_file: if disabled {
                StateFileChange::Remove
            } else {
                StateFileChange::Keep
            },
            show_status: None,
        },
        TouchpadCommands::Off => TouchpadAction {
            enable: Some(false),
            state_file: if disabled {
                StateFileChange::Keep
            } else {
                StateFileChange::Create
            },
            show_status: None,
        },
        TouchpadCommands::Toggle => {
            if disabled {
                TouchpadAction {
                    enable: Some(true),
                    state_file: StateFileChange::Remove,
                    show_status: None,
                }
            } else {
                TouchpadAction {
                    enable: Some(false),
                    state_file: StateFileChange::Create,
                    show_status: None,
                }
            }
        },
        TouchpadCommands::Status { verbose } => TouchpadAction {
            enable: None,
            state_file: StateFileChange::Keep,
            show_status: Some(verbose),
        },
    }
}

/// The state file always says the device setting: after a request that sets
/// the device, the file exists exactly when the touchpad was disabled.
pub proof fn law_state_file_matches_setting(command: TouchpadCommands, disabled: bool)
    ensures
        ({
            let a = touchpad_action(command, disabled);
            a.enable matches Some(on) ==> file_after(a.state_file, disabled) == !on
        }),
{
}

/// Toggling twice gives back the state one started from.
pub proof fn law_toggle_twice(disabled: bool)
    ensures
        disabled_after(
            TouchpadCommands::Toggle,
            disabled_after(TouchpadCommands::Toggle, disabled),
        ) == disabled,
{
}

/// Switching on or off twice is switching once, and a status request
/// changes nothing.
pub proof fn law_on_off_idempotent_status_inert(disabled: bool, verbose: bool)
    ensures
        disabled_after(TouchpadCommands::On, disabled_after(TouchpadCommands::On, disabled))
            == disabled_after(TouchpadCommands::On, disabled),
        disabled_after(TouchpadCommands::Off, disabled_after(TouchpadCommands::Off, disabled))
            == disabled_after(TouchpadCommands::Off, disabled),
        disabled_after(TouchpadCommands::Status { verbose }, disabled) == disabled,
{
}

/// The action that `touchpad_transition` decides, as a value to speak of.
pub open spec fn touchpad_action(command: TouchpadCommands, disabled: bool) -> TouchpadAction {
    TouchpadAction {
        enable: match command {
            TouchpadCommands::Status { .. } => None,
            _ => Some(!disabled_after(command, disabled)),
        },
        state_file: match command {
            TouchpadCommands::On => if disabled {
                StateFileChange::Remove
            } else {
                StateFileChange::Keep
            },
            TouchpadCommands::Off => if disabled {
                StateFileChange::Keep
            } else {
                StateFileChange::Create
            },
            TouchpadCommands::Toggle => if disabled {
                StateFileChange::Remove
            } else {
                StateFileChange::Create
            },
            TouchpadCommands::Status { .. } => StateFileChange::Keep,
        },
        show_status: match command {
            TouchpadCommands::Status { verbose } => Some(verbose),
            _ => None,
        },
    }
}


/// The Hyprland Lua expression that enables or disables `device_id`:
/// `hl.device({ name = "<id>", enabled = true|false })`.
pub fn touchpad_lua(device_id: &str, enabled: bool) -> (r: String)
    ensures
        r@ == "hl.device({ name = \""@ + device_id@ + "\", enabled = "@ + (if enabled {
            "true"@
        } else {
            "false"@
        }) + " })"@,
{
    let mut r = "hl.device({ name = \"".to_owned();
    r.append(device_id);
    r.append("\", enabled = ");
    r.append(if enabled { "true" } else { "false" });
    r.append(" })");
    r
}

/// The message after switching: `"Touchpad: ON"` or `"Touchpad: OFF"`.
pub fn switch_message(enabled: bool) -> (r: String)
    ensures
        r@ == if enabled { "Touchpad: ON"@ } else { "Touchpad: OFF"@ },
{
    if enabled {
        "Touchpad: ON".to_owned()
    } else {
        "Touchpad: OFF".to_owned()
    }
}

/// The lines of the status: `ON`/`OFF` alone, or, verbose, the setting,
/// the device and the state file path.
pub fn status_lines(enabled: bool, verbose: bool, device_id: &str, state_path: &str) -> (r: Vec<
    String,
>)
    ensures
        verbose ==> texts(r@) == seq![
            "Touchpad: "@ + (if enabled { "ON"@ } else { "OFF"@ }),
            "Device: "@ + device_id@,
            "State: "@ + state_path@,
        ],
        !verbose ==> texts(r@) == seq![if enabled { "ON"@ } else { "OFF"@ }],
{
    let word = if enabled { "ON" } else { "OFF" };
    let mut r: Vec<String> = Vec::new();
    if verbose {
        let mut a = "Touchpad: ".to_owned();
        a.append(word);
        let mut b = "Device: ".to_owned();
        b.append(device_id);
        let mut c = "State: ".to_owned();
        c.append(state_path);
        r.push(a);
        r.push(b);
        r.push(c);
        assert(texts(r@) =~= seq![a@, b@, c@]);
    } else {
        let a = word.to_owned();
        r.push(a);
        assert(texts(r@) =~= seq![a@]);
    }
    r
}

/// What went wrong in a touchpad request.
#[derive(Debug, Clone, Copy, PartialEq, Eq, Structural)]
pub enum TouchpadError {
    /// No device of `hyprctl devices` is a touchpad.
    NotFound,
}

/// The first line of `ls`, trimmed, that names a touchpad (ends with
/// `"-touchpad"`).
pub open spec fn first_touchpad(ls: Seq<Seq<char>>) -> Option<Seq<char>>
    decreases ls.len(),
{
    if ls.len() == 0 {
        None
    } else if has_suffix(trimmed(ls[0]), "-touchpad"@) {
        Some(trimmed(ls[0]))
    } else {
        first_touchpad(ls.drop_first())
    }
}

/// The touchpad device in the output of `hyprctl devices`: the first line,
/// trimmed, that ends with `"-touchpad"`.
pub fn get_touchpad_device_id(output: &str) -> (r: Result<String, TouchpadError>)
    ensures
        match first_touchpad(line_list(output@)) {
            Some(d) => r matches Ok(s) && s@ == d,
            None => r == Err::<String, TouchpadError>(TouchpadError::NotFound),
        },
{
    let v = chars_of(output);
    let ls = split_lines(v.as_slice());
    let ghost all = views(ls@);
    let suffix = chars_of("-touchpad");
    let mut i: usize = 0;
    assert(all.skip(0) == all);
    while i < ls.len()
        invariant
            0 <= i <= ls.len(),
            all == views(ls@),
            all == line_list(output@),
            suffix@ == "-touchpad"@,
            first_touchpad(all.skip(i as int)) == first_touchpad(all),
        decreases ls.len() - i,
    {
        let line = trim(ls[i].as_slice());
        assert(all.skip(i as int)[0] == all[i as int]);
        if ends_with(line.as_slice(), suffix.as_slice()) {
            return Ok(string_of(line.as_slice()));
        }
        assert(all.skip(i as int).drop_first() == all.skip(i + 1));
        i = i + 1;
    }
    assert(all.skip(i as int) =~= Seq::<Seq<char>>::empty());
    Err(TouchpadError::NotFound)
}

impl TouchpadError {
    /// The message that reports the error.
    pub fn message(&self) -> (m: String)
        ensures
            m@ == "Touchpad not found"@,
    {
        "Touchpad not found".to_owned()
    }
}

} // verus!
