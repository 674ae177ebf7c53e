use hyprdeck::cli::{BatteryCommands, BatteryStatusArgs};
use hyprdeck::commands::modules::battery::{
    aggregate_status, classify_supply, execute, format_duration, scan_supplies, time_estimate,
    BatteryError, BatteryFormat, SupplyEntry, SupplyRole, TimeEstimate,
};

fn entry(name: &str, kind: Option<&str>, online: Option<&str>) -> SupplyEntry {
    SupplyEntry {
        name: name.to_string(),
        kind: kind.map(String::from),
        online: online.map(String::from),
    }
}

fn statuses(v: &[&str]) -> Vec<String> {
    v.iter().map(|s| s.to_string()).collect()
}

#[test]
fn battery_status_precedence() {
    assert_eq!(aggregate_status(&statuses(&["Full", "Charging", "Discharging"])), "Charging");
    assert_eq!(aggregate_status(&statuses(&["Full", "Discharging"])), "Discharging");
    assert_eq!(aggregate_status(&statuses(&["Full", "Full"])), "Full");
    assert_eq!(aggregate_status(&statuses(&["Not charging", "Full"])), "Not charging");
    assert_eq!(aggregate_status(&statuses(&[])), "Full");
}

#[test]
fn battery_durations() {
    assert_eq!(format_duration(10_800), "3 h 00 min");
    assert_eq!(format_duration(3_725), "1 h 02 min");
    assert_eq!(format_duration(2_700), "45 min");
    assert_eq!(format_duration(59), "0 min");
    assert_eq!(format_duration(86_400 + 659), "24 h 10 min");
}

#[test]
fn battery_supply_roles() {
    assert_eq!(classify_supply(Some("Battery"), "BAT0", None), SupplyRole::Battery);
    assert_eq!(classify_supply(Some("Battery"), "BAT0", Some("BAT1")), SupplyRole::Ignore);
    assert_eq!(classify_supply(Some("Mains"), "AC", None), SupplyRole::Ac);
    assert_eq!(classify_supply(Some("USB-C"), "ucsi", None), SupplyRole::Ac);
    assert_eq!(classify_supply(None, "x", None), SupplyRole::Ignore);
}

#[test]
fn battery_scan_of_supplies() {
    let es = vec![
        entry("AC", Some("Mains"), Some("1")),
        entry("BAT0", Some("Battery"), None),
        entry("hid", Some("Battery"), None),
    ];
    let scan = scan_supplies(&es, None).unwrap();
    assert_eq!(scan.batteries, vec![1, 2]);
    assert!(scan.ac_online);
    let scan = scan_supplies(&es, Some("BAT0")).unwrap();
    assert_eq!(scan.batteries, vec![1]);
    assert_eq!(
        scan_supplies(&es, Some("BAT9")),
        Err(BatteryError::NotFound("BAT9".to_string()))
    );
    assert_eq!(
        scan_supplies(&vec![entry("AC", Some("Mains"), Some("0"))], None),
        Err(BatteryError::NoBattery)
    );
    let off = vec![entry("AC", Some("Mains"), Some("0")), entry("BAT0", Some("Battery"), None)];
    assert!(!scan_supplies(&off, None).unwrap().ac_online);
    assert_eq!(BatteryError::NotFound("BAT9".into()).message(), "battery not found: BAT9");
    assert_eq!(BatteryError::NoBattery.message(), "no battery found");
}

#[test]
fn battery_plan_and_estimates() {
    let args = BatteryStatusArgs { battery: Some("BAT0".into()), verbose: true, short: true, json: false };
    let plan = execute(&BatteryCommands::Status(args));
    assert_eq!(plan.selected, Some("BAT0".to_string()));
    assert_eq!(plan.format, BatteryFormat::Short);
    let plan = execute(&BatteryCommands::Status(BatteryStatusArgs { verbose: true, ..Default::default() }));
    assert_eq!(plan.format, BatteryFormat::Human { verbose: true });
    assert_eq!(time_estimate("Discharging"), TimeEstimate::Remaining);
    assert_eq!(time_estimate("Charging"), TimeEstimate::ToFull);
    assert_eq!(time_estimate("Full"), TimeEstimate::Neither);
}
