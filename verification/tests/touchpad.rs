use hyprdeck::cli::TouchpadCommands;
use hyprdeck::commands::modules::touchpad::{
    get_touchpad_device_id, status_lines, switch_message, touchpad_lua, touchpad_transition,
    StateFileChange, TouchpadError,
};

fn file_after(change: StateFileChange, existed: bool) -> bool {
    match change {
        StateFileChange::Create => true,
        StateFileChange::Remove => false,
        StateFileChange::Keep => existed,
    }
}

#[test]
fn touchpad_on_off_toggle_status() {
    let a = touchpad_transition(TouchpadCommands::On, true);
    assert_eq!(a.enable, Some(true));
    assert_eq!(a.state_file, StateFileChange::Remove);
    let a = touchpad_transition(TouchpadCommands::On, false);
    assert_eq!(a.state_file, StateFileChange::Keep);
    let a = touchpad_transition(TouchpadCommands::Off, false);
    assert_eq!(a.enable, Some(false));
    assert_eq!(a.state_file, StateFileChange::Create);
    let a = touchpad_transition(TouchpadCommands::Off, true);
    assert_eq!(a.state_file, StateFileChange::Keep);
    let a = touchpad_transition(TouchpadCommands::Toggle, false);
    assert_eq!((a.enable, a.state_file), (Some(false), StateFileChange::Create));
    let a = touchpad_transition(TouchpadCommands::Status { verbose: true }, true);
    assert_eq!((a.enable, a.state_file, a.show_status), (None, StateFileChange::Keep, Some(true)));
}

#[test]
fn touchpad_toggle_twice_restores_state() {
    for start in [false, true] {
        let first = touchpad_transition(TouchpadCommands::Toggle, start);
        let mid = file_after(first.state_file, start);
        assert_eq!(mid, !start);
        assert_eq!(first.enable, Some(!mid));
        let second = touchpad_transition(TouchpadCommands::Toggle, mid);
        assert_eq!(file_after(second.state_file, mid), start);
    }
}

#[test]
fn touchpad_texts() {
    assert_eq!(
        touchpad_lua("elan-touchpad", false),
        r#"hl.device({ name = "elan-touchpad", enabled = false })"#
    );
    assert_eq!(switch_message(true), "Touchpad: ON");
    assert_eq!(status_lines(false, false, "d", "/s"), vec!["OFF"]);
    assert_eq!(
        status_lines(true, true, "d", "/s"),
        vec!["Touchpad: ON", "Device: d", "State: /s"]
    );
}

#[test]
fn touchpad_device_from_hyprctl() {
    let out = "mice:\n\tMouse at 1:\n\t\tsynps/2-synaptics-touchpad\n\t\tdefault speed\n";
    assert_eq!(get_touchpad_device_id(out), Ok("synps/2-synaptics-touchpad".to_string()));
    assert_eq!(get_touchpad_device_id("keyboard\n"), Err(TouchpadError::NotFound));
    assert_eq!(TouchpadError::NotFound.message(), "Touchpad not found");
}
