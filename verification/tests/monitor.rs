use hyprdeck::commands::modules::monitor::{
    element_names, extend_expressions, get_monitor_names, member_string, mirror_expression,
    monitor_names,
};

#[test]
fn monitor_names_from_json() {
    let names = get_monitor_names(br#"[{"name":"eDP-1","x":0},{"x":1},{"name":"DP-1"}]"#).unwrap();
    assert_eq!(names, Some(vec!["eDP-1".to_string(), "DP-1".to_string()]));
    assert_eq!(get_monitor_names(br#"{"name":"x"}"#).unwrap(), None);
    assert!(get_monitor_names(b"not json").is_err());
    assert_eq!(
        monitor_names(&vec![None, Some("A".to_string())]),
        vec!["A".to_string()]
    );
}

#[test]
fn monitor_expressions() {
    let names = vec!["eDP-1".to_string(), "DP-1".to_string()];
    assert_eq!(
        extend_expressions(&names),
        vec![
            r#"'hl.monitor({ output = "eDP-1", mode = "1920x1080@60", position = "0x0", scale = 1 })'"#,
            r#"'hl.monitor({ output = "DP-1", mode = "1920x1080@60", position = "0x0", scale = 1, mirror = "" })'"#,
        ]
    );
    assert_eq!(
        mirror_expression(&names),
        Some(r#"'hl.monitor({ output = "DP-1", mirror = "eDP-1" })'"#.to_string())
    );
    assert!(extend_expressions(&names[..1].to_vec()).is_empty());
    assert_eq!(mirror_expression(&Vec::new()), None);
}

#[test]
fn monitor_name_fields() {
    let names = get_monitor_names(br#"[{"name":1},"DP-2",{"id":3,"name":"HDMI-A-1"},null]"#).unwrap();
    assert_eq!(names, Some(vec!["HDMI-A-1".to_string()]));
    assert_eq!(get_monitor_names(b"[]").unwrap(), Some(vec![]));
    assert_eq!(get_monitor_names(b"3").unwrap(), None);
    let members = vec![
        ("id".to_string(), None),
        ("name".to_string(), Some("eDP-1".to_string())),
    ];
    assert_eq!(member_string(&members, "name"), Some("eDP-1".to_string()));
    assert_eq!(member_string(&members, "id"), None);
    assert_eq!(member_string(&members, "x"), None);
    assert_eq!(
        element_names(&vec![None, Some(members), Some(vec![])]),
        vec![None, Some("eDP-1".to_string()), None]
    );
}
