use sideroute::config::{collect_client_macs, is_valid_mac, AppConfig};

#[test]
fn test_parse_uci_sideroute() {
    let sample = r#"
config sideroute 'global'
    option enabled '1'
    option side_mac 'BC:24:11:84:71:8B'
    option side_ipv4 '192.168.1.2'
    option wan_interface 'pppoe-wan'
    option lan_interface 'br-lan'
    option table_id '200'
    option mark_id '1'
    option check_interval '5'
    option hijack_dns '1'
    option enable_ipv4 '1'
    option enable_ipv6 '1'
    list client_mac '00:11:22:33:44:55'
    list client_mac 'aa:bb:cc:dd:ee:ff'
"#;
    let cfg = AppConfig::parse_uci(sample).expect("parse should succeed");
    assert!(cfg.enabled);
    assert_eq!(cfg.side_router_mac, "bc:24:11:84:71:8b");
    assert_eq!(cfg.side_router_ipv4.as_deref(), Some("192.168.1.2"));
    assert_eq!(cfg.table_id, 200);
    assert_eq!(cfg.check_interval_secs, 5);
    assert!(cfg.hijack_dns);
    assert_eq!(cfg.client_macs.len(), 2);
    assert_eq!(cfg.client_macs[0], "00:11:22:33:44:55");
    assert_eq!(cfg.client_macs[1], "aa:bb:cc:dd:ee:ff");
}

#[test]
fn default_config_values() {
    let cfg = AppConfig::default();
    assert!(cfg.enabled);
    assert_eq!(cfg.side_router_mac, "");
    assert_eq!(cfg.side_router_ipv4, None);
    assert_eq!(cfg.table_id, 200);
    assert_eq!(cfg.mark_id, 1);
    assert_eq!(cfg.wan_interface, "pppoe-wan");
    assert_eq!(cfg.lan_interface, "br-lan");
    assert_eq!(cfg.check_interval_secs, 3);
    assert!(cfg.hijack_dns && cfg.enable_ipv4 && cfg.enable_ipv6);
    assert!(cfg.client_macs.is_empty());
}

#[test]
fn valid_macs_are_recognised() {
    assert!(is_valid_mac("aa:bb:cc:dd:ee:ff"));
    assert!(is_valid_mac("AA:0b:C9:dd:EE:01"));
    assert!(!is_valid_mac("aa:bb:cc:dd:ee"));
    assert!(!is_valid_mac("aa:bb:cc:dd:ee:fg"));
    assert!(!is_valid_mac("aa-bb-cc-dd-ee-ff"));
    assert!(!is_valid_mac("aaa:b:cc:dd:ee:ff"));
    assert!(!is_valid_mac(" aa:bb:cc:dd:ee:ff"));
    assert!(!is_valid_mac(""));
}

#[test]
fn normalize_sorts_dedups_and_drops_invalid() {
    let mut cfg = AppConfig::default();
    cfg.side_router_mac = "  BC:24:11:84:71:8B \t".to_string();
    cfg.client_macs = vec![
        "AA:BB:CC:DD:EE:FF".to_string(),
        " 00:11:22:33:44:55".to_string(),
        "aa:bb:cc:dd:ee:ff".to_string(),
        "not-a-mac".to_string(),
        "11:22:33:44:55:66".to_string(),
    ];
    cfg.normalize();
    assert_eq!(cfg.side_router_mac, "bc:24:11:84:71:8b");
    assert_eq!(
        cfg.client_macs,
        vec!["00:11:22:33:44:55", "11:22:33:44:55:66", "aa:bb:cc:dd:ee:ff"]
    );
    let once = cfg.client_macs.clone();
    cfg.normalize();
    assert_eq!(cfg.client_macs, once);
}

#[test]
fn parse_uci_ignores_other_sections_and_comments() {
    let text = "config other 'x'\n    option table_id '7'\n# comment\nconfig \"sideroute\" main\n  # option table_id '9'\n  option table_id 300\nconfig another\n  option mark_id '5'\n";
    let cfg = AppConfig::parse_uci(text).unwrap();
    assert_eq!(cfg.table_id, 300);
    assert_eq!(cfg.mark_id, 1);
}

#[test]
fn parse_uci_switches_and_numbers() {
    let text = "config sideroute\r\noption enabled 'YES'\r\noption hijack_dns 'True'\r\noption enable_ipv4 'yes'\r\noption enable_ipv6 '0'\r\noption table_id '+42'\r\noption mark_id 'x12'\r\noption check_interval '18446744073709551616'\r\n";
    let cfg = AppConfig::parse_uci(text).unwrap();
    assert!(cfg.enabled);
    assert!(cfg.hijack_dns);
    assert!(!cfg.enable_ipv4);
    assert!(!cfg.enable_ipv6);
    assert_eq!(cfg.table_id, 42);
    assert_eq!(cfg.mark_id, 1);
    assert_eq!(cfg.check_interval_secs, 3);
}

#[test]
fn parse_uci_u32_overflow_keeps_default() {
    let text = "config sideroute\noption table_id '4294967296'\noption mark_id '4294967295'\noption check_interval '18446744073709551615'\n";
    let cfg = AppConfig::parse_uci(text).unwrap();
    assert_eq!(cfg.table_id, 200);
    assert_eq!(cfg.mark_id, 4294967295);
    assert_eq!(cfg.check_interval_secs, 18446744073709551615);
}

#[test]
fn parse_uci_client_lists_and_values_with_spaces() {
    let text = "config sideroute\n option client_mac 'AA:BB:CC:DD:EE:01, aa:bb:cc:dd:ee:02 bad'\n list client_mac \"aa:bb:cc:dd:ee:01\"\n option wan_interface 'wan  two'\n option side_ipv4 ''\n option side_mac\n";
    let cfg = AppConfig::parse_uci(text).unwrap();
    assert_eq!(cfg.client_macs, vec!["aa:bb:cc:dd:ee:01", "aa:bb:cc:dd:ee:02"]);
    assert_eq!(cfg.wan_interface, "wan two");
    assert_eq!(cfg.side_router_ipv4, None);
    assert_eq!(cfg.side_router_mac, "");
}

#[test]
fn parse_uci_side_ipv4_trimmed_quotes() {
    let text = "config sideroute\noption side_ipv4 '10.0.0.2'\"\noption lan_interface \"'br-x'\"\n";
    let cfg = AppConfig::parse_uci(text).unwrap();
    assert_eq!(cfg.side_router_ipv4.as_deref(), Some("10.0.0.2'"));
    assert_eq!(cfg.lan_interface, "'br-x'");
}

#[test]
fn parse_uci_empty_text_gives_defaults() {
    let cfg = AppConfig::parse_uci("").unwrap();
    assert_eq!(cfg.table_id, 200);
    assert!(cfg.client_macs.is_empty());
    assert!(cfg.enabled);
}

#[test]
fn load_from_prefers_uci_then_toml_then_defaults() {
    let uci = "config sideroute\noption table_id '11'\n";
    let mut toml_cfg = AppConfig::default();
    toml_cfg.table_id = 22;
    toml_cfg.client_macs = vec!["FF:EE:DD:CC:BB:AA".to_string()];
    let a = AppConfig::load_from(Some(uci), Some(toml_cfg.clone()));
    assert_eq!(a.table_id, 11);
    let b = AppConfig::load_from(None, Some(toml_cfg));
    assert_eq!(b.table_id, 22);
    assert_eq!(b.client_macs, vec!["ff:ee:dd:cc:bb:aa"]);
    let c = AppConfig::load_from(None, None);
    assert_eq!(c.table_id, 200);
}

#[test]
fn collect_client_macs_keeps_valid_sorted_unique() {
    let normal = vec![
        "aa:bb:cc:dd:ee:ff".to_string(),
        "00:11:22:33:44:55".to_string(),
        "bad".to_string(),
        "aa:bb:cc:dd:ee:ff".to_string(),
    ];
    assert_eq!(collect_client_macs(&normal), vec!["00:11:22:33:44:55", "aa:bb:cc:dd:ee:ff"]);
    assert!(collect_client_macs(&Vec::new()).is_empty());
}

#[test]
fn blank_and_comment_lines_change_nothing() {
    let a = "config sideroute\noption table_id '5'";
    let b = "option mark_id '9'\nlist client_mac 'AA:BB:CC:DD:EE:FF'\n";
    for l in ["", "   \r", "  # config other", "#option mark_id '1'"] {
        let with = AppConfig::parse_uci(&format!("{}\n{}\n{}", a, l, b)).unwrap();
        let without = AppConfig::parse_uci(&format!("{}\n{}", a, b)).unwrap();
        assert_eq!(format!("{:?}", with), format!("{:?}", without));
    }
}

#[test]
fn defaults_and_ascii_configs_are_normal_and_stable() {
    let d = AppConfig::load_from(None, None);
    assert_eq!(d.side_router_mac, "");
    let mut c = AppConfig::default();
    c.side_router_mac = " AA:BB:CC:DD:EE:FF ".to_string();
    c.client_macs = vec!["FF:00:00:00:00:01".to_string(), "00:00:00:00:00:02 ".to_string()];
    c.normalize();
    let once = format!("{:?}", c);
    c.normalize();
    assert_eq!(format!("{:?}", c), once);
    assert_eq!(c.side_router_mac, "aa:bb:cc:dd:ee:ff");
}
