use hyprdeck::cli::ScreenshotArgs;
use hyprdeck::commands::modules::screenshot::{
    capture_plan, check_grim, geometry, grim_args, monitor_geometry, screenshot_file_name, selected_geometry,
    stderr, tool_error, CapturePlan, Monitor, Region, ScreenshotError,
};

#[test]
fn screenshot_option_checks() {
    let args = ScreenshotArgs { no_save: true, ..Default::default() };
    assert_eq!(capture_plan(&args), Err(ScreenshotError::NoSaveWithoutClipboard));
    let args = ScreenshotArgs { freeze: true, window: true, ..Default::default() };
    assert_eq!(capture_plan(&args), Err(ScreenshotError::FreezeNeedsRegion));
    let args = ScreenshotArgs { freeze: true, cursor: true, ..Default::default() };
    assert_eq!(
        capture_plan(&args),
        Ok(CapturePlan { region: Region::Select { freeze: true }, cursor: true, save: true, clipboard: false })
    );
    let args = ScreenshotArgs { monitor: Some("DP-1".into()), fast: true, no_save: true, clipboard: true, ..Default::default() };
    assert_eq!(capture_plan(&args).unwrap().region, Region::Monitor("DP-1".to_string()));
    let args = ScreenshotArgs { fast: true, ..Default::default() };
    assert_eq!(capture_plan(&args).unwrap().region, Region::Desktop);
}

#[test]
fn screenshot_texts() {
    assert_eq!(grim_args(true, Some("0,0 10x10")), vec!["-c", "-g", "0,0 10x10", "-"]);
    assert_eq!(grim_args(false, None), vec!["-"]);
    assert_eq!(geometry(-1920, 0, 1920, 1080), "-1920,0 1920x1080");
    assert_eq!(selected_geometry(" 1,2 3x4\n"), Ok("1,2 3x4".to_string()));
    assert_eq!(selected_geometry("\n"), Err(ScreenshotError::SelectionCancelled));
    assert_eq!(screenshot_file_name(1700000000123, None), "screenshot-1700000000123.png");
    assert_eq!(screenshot_file_name(5, Some(2)), "screenshot-5-2.png");
    assert_eq!(tool_error("grim", "not found"), "grim is required: not found");
    assert_eq!(stderr("  oops\n"), "oops");
}

#[test]
fn screenshot_monitor_lookup() {
    let monitors = vec![
        Monitor { name: "eDP-1".into(), x: 0, y: 0, width: 1920, height: 1200 },
        Monitor { name: "DP-1".into(), x: 1920, y: -100, width: 2560, height: 1440 },
    ];
    assert_eq!(monitor_geometry(&monitors, "DP-1"), Ok("1920,-100 2560x1440".to_string()));
    assert_eq!(
        monitor_geometry(&monitors, "HDMI-A-1"),
        Err(ScreenshotError::MonitorNotFound("HDMI-A-1".to_string()))
    );
    assert_eq!(ScreenshotError::MonitorNotFound("X".into()).message(), "monitor not found: X");
}

#[test]
fn grim_run_checks() {
    assert_eq!(
        check_grim(false, 10, "  no output found\n"),
        Err(ScreenshotError::GrimFailed("no output found".to_string()))
    );
    assert_eq!(check_grim(true, 0, ""), Err(ScreenshotError::EmptyScreenshot));
    assert_eq!(check_grim(true, 42, "warning"), Ok(()));
    assert_eq!(
        ScreenshotError::GrimFailed("bad".into()).message(),
        "grim failed: bad"
    );
    assert_eq!(
        ScreenshotError::EmptyScreenshot.message(),
        "grim returned an empty screenshot"
    );
}
