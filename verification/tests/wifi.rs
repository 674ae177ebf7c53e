use hyprdeck::cli::WifiCommands;
use hyprdeck::commands::modules::wifi::{
    access_point_choice, access_points_for, active_wifi_device, apply_band_choice, band_choices,
    connect_command, connect_plan, disconnect_args, execute, existing_connection,
    find_access_point, parse_device_statuses, parse_network_entry, parse_saved_connections,
    parse_scan_output, split_nmcli_line, ssid_choices, AccessPoint, AccessPointBand,
    AccessPointSecurity, ApChoice, BandSelection, WifiError, WifiPlan,
};

fn ap(bssid: &str, ssid: &str, band: AccessPointBand, security: AccessPointSecurity) -> AccessPoint {
    AccessPoint { bssid: bssid.to_string(), ssid: ssid.to_string(), band, security }
}

#[test]
fn splits_escaped_nmcli_fields() {
    assert_eq!(
        split_nmcli_line("*:Cafe\\:Net:AA\\:BB:80:WPA2"),
        vec!["*", "Cafe:Net", "AA:BB", "80", "WPA2"]
    );
}

#[test]
fn parses_scan_entry() {
    let entry = parse_network_entry("*:Cafe\\:Net:AA\\:BB:80:WPA2:36:5 GHz").unwrap();
    assert!(entry.in_use);
    assert_eq!(entry.ssid, "Cafe:Net");
    assert_eq!(entry.signal, Some(80));
    assert_eq!(entry.channel, Some(36));
}

#[test]
fn ignores_malformed_scan_entry() {
    assert!(parse_network_entry("only:two:fields").is_none());
}

#[test]
fn split_keeps_escaped_backslash_and_trailing_escape() {
    assert_eq!(split_nmcli_line("a\\\\b:c"), vec!["a\\b", "c"]);
    assert_eq!(split_nmcli_line(""), vec![""]);
    assert_eq!(split_nmcli_line("x:"), vec!["x", ""]);
    assert_eq!(split_nmcli_line("end\\"), vec!["end"]);
}

#[test]
fn split_undoes_escaped_join() {
    // Fields written the way `nmcli -t -e yes` writes them come back unchanged.
    let fields = ["a:b", "c\\d", "", "plain"];
    let line = fields
        .iter()
        .map(|f| f.replace('\\', "\\\\").replace(':', "\\:"))
        .collect::<Vec<_>>()
        .join(":");
    assert_eq!(split_nmcli_line(&line), fields.to_vec());
}

#[test]
fn scan_entry_without_numbers() {
    let entry = parse_network_entry(" :Home:11\\:22:n/a::x:2.4 GHz").unwrap();
    assert!(!entry.in_use);
    assert_eq!(entry.signal, None);
    assert_eq!(entry.channel, None);
    assert_eq!(entry.security, "");
    assert_eq!(entry.band, "2.4 GHz");
    assert_eq!(entry.summary(), "  0% Home 2.4 GHz ");
}

#[test]
fn scan_output_skips_short_lines() {
    let out = "*:A:B:70:WPA2:1:2.4 GHz\nbad line\n:C:D:+5:WEP:149:5 GHz\n";
    let entries = parse_scan_output(out);
    assert_eq!(entries.len(), 2);
    assert_eq!(entries[0].summary(), "* 70% A 2.4 GHz WPA2");
    assert_eq!(entries[1].signal, Some(5));
    assert_eq!(entries[1].channel, Some(149));
}

#[test]
fn device_and_saved_lists() {
    let devices = parse_device_statuses("wlan0:wifi:connected:Home\nlo:loopback:unmanaged\n");
    assert_eq!(devices.len(), 1);
    assert_eq!(devices[0].summary(), "wlan0: connected (wifi, Home)");
    let saved = parse_saved_connections("Home:1234:802-11-wireless:wlan0\n");
    assert_eq!(saved[0].summary(), "Home (802-11-wireless, wlan0) [1234]");
}

#[test]
fn finds_active_wifi_device() {
    let out = "eth0:ethernet:connected\nwlan0:wifi:connected (externally)\n";
    assert_eq!(active_wifi_device(out), Some("wlan0".to_string()));
    assert_eq!(active_wifi_device("wlan0:wifi:disconnected\n"), None);
}

#[test]
fn band_and_security_labels() {
    assert_eq!(AccessPointBand::B2_4GHz.as_str(), "2.4 GHz");
    assert_eq!(AccessPointBand::from_label("6 GHz"), Ok(AccessPointBand::B6GHz));
    assert_eq!(
        AccessPointBand::from_label("60 GHz"),
        Err(WifiError::UnknownBand("60 GHz".to_string()))
    );
    assert_eq!(AccessPointSecurity::from_label(""), Ok(AccessPointSecurity::FREE));
    assert_eq!(AccessPointSecurity::from_label("WPA1 WPA2"), Ok(AccessPointSecurity::WPA2WPA3));
    assert_eq!(
        AccessPointSecurity::from_label("WPA9"),
        Err(WifiError::UnknownSecurity("WPA9".to_string()))
    );
    assert_eq!(BandSelection::Specific(AccessPointBand::B5GHz).to_text(), "5 GHz");
    assert_eq!(BandSelection::Auto.to_text(), "auto");
}

#[test]
fn access_points_of_one_network() {
    let out = "Home:AA\\:01:2.4 GHz:WPA2\nOther:BB:5 GHz:WPA2\n Home :CC:5 GHz: \n";
    let aps = access_points_for(out, "Home").unwrap();
    assert_eq!(aps.len(), 2);
    assert_eq!(aps[0].bssid, "AA:01");
    assert_eq!(aps[1].ssid, " Home ");
    assert_eq!(aps[1].security, AccessPointSecurity::FREE);
    assert_eq!(
        access_points_for("Home:AA:7 GHz:WPA2\n", "Home"),
        Err(WifiError::UnknownBand("7 GHz".to_string()))
    );
    assert_eq!(
        access_points_for("Home:AA:5 GHz:XYZ\n", "Home"),
        Err(WifiError::UnknownSecurity("XYZ".to_string()))
    );
}

#[test]
fn ssid_choices_are_sorted_and_unique() {
    let out = "b\n a \n\nb\nC\n";
    assert_eq!(ssid_choices(out), Ok(vec!["C".to_string(), "a".to_string(), "b".to_string()]));
    assert_eq!(ssid_choices("\n  \n"), Err(WifiError::NoNetworks));
}

#[test]
fn band_menu_and_choice() {
    let aps = vec![
        ap("1", "N", AccessPointBand::B5GHz, AccessPointSecurity::WPA2),
        ap("2", "N", AccessPointBand::B2_4GHz, AccessPointSecurity::WPA2),
        ap("3", "N", AccessPointBand::B5GHz, AccessPointSecurity::OWE),
    ];
    assert_eq!(band_choices(&aps), Some(vec!["auto".to_string(), "2.4 GHz".to_string(), "5 GHz".to_string()]));
    assert_eq!(band_choices(&aps[..1].to_vec()), None);
    let (sel, kept) = apply_band_choice(aps.clone(), "5 GHz").unwrap();
    assert_eq!(sel, BandSelection::Specific(AccessPointBand::B5GHz));
    assert_eq!(kept.iter().map(|a| a.bssid.as_str()).collect::<Vec<_>>(), vec!["1", "3"]);
    let (sel, kept) = apply_band_choice(aps.clone(), "auto").unwrap();
    assert_eq!(sel, BandSelection::Auto);
    assert_eq!(kept.len(), 3);
    assert!(apply_band_choice(aps, "9 GHz").is_err());
}

#[test]
fn access_point_choice_and_plan() {
    let aps = vec![
        ap("1", "N", AccessPointBand::B5GHz, AccessPointSecurity::WPA2),
        ap("3", "N", AccessPointBand::B5GHz, AccessPointSecurity::OWE),
    ];
    let band = BandSelection::Specific(AccessPointBand::B5GHz);
    assert_eq!(access_point_choice(&BandSelection::Auto, &aps), Ok(ApChoice::Auto));
    assert_eq!(
        access_point_choice(&band, &aps),
        Ok(ApChoice::Ask(vec!["1".to_string(), "3".to_string()]))
    );
    assert_eq!(access_point_choice(&band, &Vec::new()), Err(WifiError::NoAccessPoint));
    assert_eq!(access_point_choice(&band, &aps[1..].to_vec()), Ok(ApChoice::Chosen(aps[1].clone())));
    let chosen = find_access_point(&aps, "3").unwrap();
    assert_eq!(chosen.security, AccessPointSecurity::OWE);
    assert_eq!(find_access_point(&aps, "9"), Err(WifiError::AccessPointNotFound));
    let plan = connect_plan(Some(&chosen), &aps);
    assert_eq!(plan.target, "3");
    assert!(!plan.needs_password);
    let plan = connect_plan(None, &aps);
    assert_eq!(plan.target, "N");
    assert!(plan.needs_password);
    assert_eq!(
        connect_command("N", Some("pw")),
        vec!["nmcli", "device", "wifi", "connect", "N", "password", "pw"]
    );
    assert_eq!(connect_command("N", None), vec!["nmcli", "device", "wifi", "connect", "N"]);
}

#[test]
fn existing_connection_matches_trimmed_names() {
    assert_eq!(existing_connection("Work\n  Home  \n", "Home"), Some("Home".to_string()));
    assert_eq!(existing_connection("Work\n", "Home"), None);
}

#[test]
fn wifi_plans() {
    assert_eq!(execute(&WifiCommands::Connect), WifiPlan::Connect);
    match execute(&WifiCommands::Scan { rescan: true, json: false }) {
        WifiPlan::Scan { rescan, args, json } => {
            assert_eq!(rescan, Some(vec!["device".to_string(), "wifi".to_string(), "rescan".to_string()]));
            assert_eq!(args[4], "IN-USE,SSID,BSSID,SIGNAL,SECURITY,CHAN,BAND");
            assert!(!json);
        }
        other => panic!("unexpected plan {other:?}"),
    }
    match execute(&WifiCommands::Off) {
        WifiPlan::Radio { args, enabled } => {
            assert_eq!(args, vec!["radio", "wifi", "off"]);
            assert!(!enabled);
        }
        other => panic!("unexpected plan {other:?}"),
    }
    assert_eq!(disconnect_args("wlan0"), vec!["device", "disconnect", "wlan0"]);
    assert_eq!(WifiError::UnknownBand("x".into()).message(), "unknown band: x");
    assert_eq!(WifiError::NoActiveDevice.message(), "no active Wi-Fi device");
}

#[test]
fn plain_line_splits_at_every_colon() {
    for line in ["", ":", "a", "a:b", "::x::", "wlan0:wifi:connected:Home Net", "x:"] {
        let expected: Vec<String> = line.split(':').map(String::from).collect();
        assert_eq!(split_nmcli_line(line), expected, "{line:?}");
        assert_eq!(split_nmcli_line(line).len(), line.matches(':').count() + 1);
    }
}
