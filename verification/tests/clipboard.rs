use hyprdeck::cli::ClipboardCommands;
use hyprdeck::commands::modules::clipboard::{
    check_copy_input, execute, show_action, ClipboardError, ClipboardPlan, ShowAction,
};

#[test]
fn clipboard_plans() {
    assert_eq!(
        execute(&ClipboardCommands::Copy { mime_type: Some("text/plain".into()), primary: true, sensitive: true }),
        ClipboardPlan::Copy { args: vec!["--type".into(), "text/plain".into(), "--primary".into(), "--sensitive".into()] }
    );
    assert_eq!(
        execute(&ClipboardCommands::Paste { mime_type: None, primary: false, no_newline: true }),
        ClipboardPlan::Paste { args: vec!["--no-newline".into()] }
    );
    assert_eq!(
        execute(&ClipboardCommands::Clear { primary: true }),
        ClipboardPlan::Clear { args: vec!["--clear".into(), "--primary".into()] }
    );
    assert_eq!(
        execute(&ClipboardCommands::Types { primary: false }),
        ClipboardPlan::Types { list: vec!["--list-types".into()] }
    );
}

#[test]
fn clipboard_show_decisions() {
    assert_eq!(
        show_action("image/png\ntext/plain;charset=utf-8\ntext/plain\n", true, false),
        ShowAction::Paste(vec!["--type".into(), "text/plain;charset=utf-8".into(), "--primary".into()])
    );
    assert_eq!(show_action("", false, false), ShowAction::Print("Clipboard is empty.".into()));
    assert_eq!(
        show_action("image/png\nimage/jpeg\n", false, false),
        ShowAction::Print("Clipboard contains non-text data (MIME types: image/png, image/jpeg).".into())
    );
    assert_eq!(check_copy_input(b""), Err(ClipboardError::EmptyInput));
    assert_eq!(check_copy_input(b"x"), Ok(()));
    assert_eq!(ClipboardError::EmptyInput.message(), "clipboard input is empty");
}
