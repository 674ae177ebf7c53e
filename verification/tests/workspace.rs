use hyprdeck::cli::WorkspaceCommands;
use hyprdeck::text::IntError;
use hyprdeck::commands::modules::workspace::{
    describe, execute, find_workspace, Workspace, WorkspaceError, WorkspacePlan,
};

#[test]
fn workspace_plans() {
    let plan = execute(&WorkspaceCommands::Move { workspace: "2".into(), monitor: "DP-1".into() });
    assert_eq!(
        plan,
        Ok(WorkspacePlan::Dispatch(
            r#"hl.dsp.workspace.move({ workspace = "2", monitor = "DP-1" })"#.to_string()
        ))
    );
    assert_eq!(execute(&WorkspaceCommands::Status { workspace: None }), Ok(WorkspacePlan::ShowAll));
    assert_eq!(
        execute(&WorkspaceCommands::Status { workspace: Some("now".into()) }),
        Ok(WorkspacePlan::ShowActive)
    );
    assert_eq!(
        execute(&WorkspaceCommands::Status { workspace: Some("-3".into()) }),
        Ok(WorkspacePlan::Describe(-3))
    );
    assert_eq!(
        execute(&WorkspaceCommands::Status { workspace: Some("x".into()) }),
        Err(WorkspaceError::InvalidId(IntError::InvalidDigit))
    );
    assert_eq!(
        execute(&WorkspaceCommands::Status { workspace: Some("9223372036854775808".into()) }),
        Err(WorkspaceError::InvalidId(IntError::PosOverflow))
    );
    assert_eq!(
        execute(&WorkspaceCommands::Status { workspace: Some(String::new()) }),
        Err(WorkspaceError::InvalidId(IntError::Empty))
    );
    for id in ["x", "", "-", "9223372036854775808", "-9223372036854775809", "1_0"] {
        let ours = execute(&WorkspaceCommands::Status { workspace: Some(id.into()) });
        match ours {
            Err(error) => assert_eq!(error.message(), id.parse::<i64>().unwrap_err().to_string()),
            Ok(_) => panic!("{id} should be refused"),
        }
    }
    assert_eq!(
        execute(&WorkspaceCommands::Status { workspace: Some("-9223372036854775808".into()) }),
        Ok(WorkspacePlan::Describe(i64::MIN))
    );
}

#[test]
fn workspace_description() {
    let w = Workspace {
        id: 2,
        name: "2".into(),
        monitor: "DP-1".into(),
        monitor_id: 1,
        windows: 3,
        hasfullscreen: false,
        lastwindow: "0x55".into(),
        lastwindowtitle: "term".into(),
        ispersistent: true,
        tiled_layout: "dwindle".into(),
    };
    assert_eq!(find_workspace(&vec![w.clone()], 2), Ok(0));
    assert_eq!(find_workspace(&vec![w.clone()], 5), Err(WorkspaceError::NotFound));
    assert_eq!(
        describe(&w),
        vec![
            "workspace ID 2 (2) on monitor DP-1:",
            "\tmonitorID: 1",
            "\twindows: 3",
            "\thasfullscreen: 0",
            "\tlastwindow: 0x55",
            "\tlastwindowtitle: term",
            "\tispersistent: 1",
            "\ttiledLayout: dwindle\n\n",
        ]
    );
    assert_eq!(WorkspaceError::NotFound.message(), "Workspace is not found.");
}
