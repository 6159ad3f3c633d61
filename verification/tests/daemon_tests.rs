use sideroute::config::AppConfig;
use sideroute::daemon::{mac_signature, update_needed, Daemon, DaemonState, Decision};
use sideroute::health::SideRouterInfo;

fn cfg() -> AppConfig {
    let mut c = AppConfig::default();
    c.side_router_mac = "bc:24:11:84:71:8b".to_string();
    c.client_macs = vec!["00:11:22:33:44:55".to_string(), "aa:bb:cc:dd:ee:ff".to_string()];
    c
}

fn info() -> SideRouterInfo {
    SideRouterInfo {
        mac: "bc:24:11:84:71:8b".to_string(),
        ipv4: Some("192.168.1.2".to_string()),
        ipv6: None,
    }
}

#[test]
fn signature_joins_macs_and_dns_flag() {
    let c = cfg();
    assert_eq!(mac_signature(&c.client_macs, true), "00:11:22:33:44:55,aa:bb:cc:dd:ee:ff:true");
    assert_eq!(mac_signature(&[], false), ":false");
}

#[test]
fn new_daemon_is_offline() {
    let d = Daemon::new(&cfg(), 42);
    assert!(matches!(d.state, DaemonState::Offline));
    assert!(d.status.running);
    assert!(!d.status.online);
    assert_eq!(d.status.client_count, 2);
    assert_eq!(d.status.last_check_timestamp, 42);
    assert_eq!(d.status.message, "Daemon initialized. Starting health checks...");
}

#[test]
fn apply_then_same_probe_refreshes_only() {
    let c = cfg();
    let mut d = Daemon::new(&c, 1);
    let found = Some(info());
    assert!(matches!(d.on_probe(&c, &found, 2), Decision::Apply));
    assert!(!d.after_apply(&c, &info(), true, 3));
    assert!(d.status.online);
    assert_eq!(d.status.message, "Active (IPv4: 192.168.1.2, IPv6: none) - 2 clients routed");
    assert_eq!(d.status.side_ipv4.as_deref(), Some("192.168.1.2"));
    assert!(matches!(d.on_probe(&c, &found, 4), Decision::Refresh));
    assert_eq!(d.status.last_check_timestamp, 4);
    let mut other = info();
    other.ipv6 = Some("fd00::2".to_string());
    assert!(matches!(d.on_probe(&c, &Some(other), 5), Decision::Apply));
    let mut c2 = c.clone();
    c2.hijack_dns = false;
    assert!(matches!(d.on_probe(&c2, &found, 6), Decision::Apply));
}

#[test]
fn failed_apply_falls_back() {
    let c = cfg();
    let mut d = Daemon::new(&c, 1);
    assert!(d.after_apply(&c, &info(), false, 7));
    assert!(matches!(d.state, DaemonState::Offline));
    assert!(!d.status.online);
    assert_eq!(d.status.message, "Error applying rules; fallbacked to direct");
}

#[test]
fn unreachable_side_router_fails_over_once() {
    let c = cfg();
    let mut d = Daemon::new(&c, 1);
    d.after_apply(&c, &info(), true, 2);
    assert!(matches!(d.on_probe(&c, &None, 3), Decision::Failover));
    assert!(!d.status.online);
    assert_eq!(d.status.message, "Side router unreachable. Fallback direct active.");
    assert_eq!(d.status.side_ipv4, None);
    assert!(matches!(d.on_probe(&c, &None, 4), Decision::Refresh));
    assert_eq!(d.status.last_check_timestamp, 4);
}

#[test]
fn disabled_cleans_up_once() {
    let c = cfg();
    let mut d = Daemon::new(&c, 1);
    assert!(d.on_disabled(&c, 5));
    assert_eq!(d.status.message, "Service disabled in config");
    assert!(!d.on_disabled(&c, 6));
    assert_eq!(d.status.last_check_timestamp, 5);
    assert!(matches!(d.on_probe(&c, &Some(info()), 7), Decision::Apply));
}

#[test]
fn shutdown_reports_stopped() {
    let c = cfg();
    let mut d = Daemon::new(&c, 1);
    d.after_apply(&c, &info(), true, 2);
    d.on_shutdown(9);
    assert!(!d.status.running);
    assert!(!d.status.online);
    assert_eq!(d.status.message, "Daemon stopped");
    assert!(matches!(d.state, DaemonState::Offline));
}

#[test]
fn update_needed_compares_addresses() {
    let st = DaemonState::Active {
        side_ipv4: Some("192.168.1.2".to_string()),
        side_ipv6: None,
        mac_signature: "x".to_string(),
    };
    assert!(!update_needed(&st, &info(), &"x".to_string()));
    assert!(update_needed(&st, &info(), &"y".to_string()));
    assert!(update_needed(&DaemonState::Disabled, &info(), &"x".to_string()));
}
