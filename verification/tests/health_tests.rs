use sideroute::health::{address_in_line, HealthChecker, ProbeAction, ProbeEvent, SideRouterInfo};

fn ping_target(a: &ProbeAction) -> Option<String> {
    match a {
        ProbeAction::PingV4(ip) | ProbeAction::PingV6(ip) => Some(ip.clone()),
        _ => None,
    }
}

const NEIGH4: &str = "192.168.1.9 lladdr 11:22:33:44:55:66 REACHABLE\n192.168.1.2 lladdr BC:24:11:84:71:8B STALE\n192.168.1.3 lladdr bc:24:11:84:71:8b DELAY\n";

#[test]
fn empty_mac_finds_nothing() {
    let mut h = HealthChecker::new(String::new(), "br-lan".to_string(), None);
    assert!(matches!(h.check(true, true), ProbeAction::Done(None)));
}

#[test]
fn static_ipv4_only_pings_it() {
    let mut h = HealthChecker::new("BC:24:11:84:71:8B".to_string(), "br-lan".to_string(), Some("10.0.0.2".to_string()));
    let a = h.check(true, false);
    assert_eq!(ping_target(&a).as_deref(), Some("10.0.0.2"));
    assert!(matches!(&a, ProbeAction::PingV4(_)));
    match h.resume(ProbeEvent::Reachable(true)) {
        ProbeAction::Done(Some(info)) => {
            assert_eq!(info, SideRouterInfo { mac: "bc:24:11:84:71:8b".to_string(), ipv4: Some("10.0.0.2".to_string()), ipv6: None });
        }
        _ => panic!("expected a result"),
    }
    let a = h.check(true, false);
    assert_eq!(ping_target(&a).as_deref(), Some("10.0.0.2"));
    assert!(matches!(h.resume(ProbeEvent::Reachable(false)), ProbeAction::Done(None)));
}

#[test]
fn discovery_through_neighbor_table_then_remembered() {
    let mut h = HealthChecker::new("bc:24:11:84:71:8b".to_string(), "br-lan".to_string(), None);
    assert!(matches!(h.check(true, false), ProbeAction::ReadNeighborsV4));
    let a = h.resume(ProbeEvent::Output(Some(NEIGH4.to_string())));
    assert_eq!(ping_target(&a).as_deref(), Some("192.168.1.2"));
    let a = h.resume(ProbeEvent::Reachable(false));
    assert_eq!(ping_target(&a).as_deref(), Some("192.168.1.3"));
    match h.resume(ProbeEvent::Reachable(true)) {
        ProbeAction::Done(Some(info)) => assert_eq!(info.ipv4.as_deref(), Some("192.168.1.3")),
        _ => panic!("expected a result"),
    }
    let a = h.check(true, false);
    assert_eq!(ping_target(&a).as_deref(), Some("192.168.1.3"));
    assert!(matches!(h.resume(ProbeEvent::Reachable(true)), ProbeAction::Done(Some(_))));
}

#[test]
fn arp_fallback_skips_header_and_forgets_on_failure() {
    let mut h = HealthChecker::new("bc:24:11:84:71:8b".to_string(), "br-lan".to_string(), None);
    assert!(matches!(h.check(true, false), ProbeAction::ReadNeighborsV4));
    assert!(matches!(h.resume(ProbeEvent::Output(None)), ProbeAction::ReadArpTable));
    let arp = "IP address HW type Flags HW address bc:24:11:84:71:8b Mask Device\n192.168.1.7 0x1 0x2 bc:24:11:84:71:8b * br-lan\n";
    let a = h.resume(ProbeEvent::Output(Some(arp.to_string())));
    assert_eq!(ping_target(&a).as_deref(), Some("192.168.1.7"));
    assert!(matches!(h.resume(ProbeEvent::Reachable(false)), ProbeAction::Done(None)));
    assert!(matches!(h.check(true, false), ProbeAction::ReadNeighborsV4));
}

#[test]
fn ipv6_candidates_in_preference_order() {
    let mut h = HealthChecker::new("bc:24:11:84:71:8b".to_string(), "br-lan".to_string(), None);
    assert!(matches!(h.check(false, true), ProbeAction::SolicitV6));
    assert!(matches!(h.resume(ProbeEvent::Reachable(false)), ProbeAction::ReadNeighborsV6));
    let neigh6 = "fe80::1 lladdr bc:24:11:84:71:8b router REACHABLE\n2001:db8::5 lladdr bc:24:11:84:71:8b STALE\nfd00::2 lladdr bc:24:11:84:71:8b STALE\n3ffe::9 lladdr bc:24:11:84:71:8b STALE\nfd00::9 lladdr 00:00:00:00:00:01 STALE\n";
    let mut order = Vec::new();
    let mut a = h.resume(ProbeEvent::Output(Some(neigh6.to_string())));
    while let Some(ip) = ping_target(&a) {
        order.push(ip);
        a = h.resume(ProbeEvent::Reachable(false));
    }
    assert_eq!(order, vec!["fd00::2", "2001:db8::5", "fe80::1", "3ffe::9"]);
    assert!(matches!(a, ProbeAction::Done(None)));
}

#[test]
fn dual_stack_result_carries_both_addresses() {
    let mut h = HealthChecker::new("bc:24:11:84:71:8b".to_string(), "br-lan".to_string(), Some("192.168.1.2".to_string()));
    assert!(matches!(h.check(true, true), ProbeAction::PingV4(_)));
    assert!(matches!(h.resume(ProbeEvent::Reachable(true)), ProbeAction::SolicitV6));
    assert!(matches!(h.resume(ProbeEvent::Reachable(true)), ProbeAction::ReadNeighborsV6));
    let a = h.resume(ProbeEvent::Output(Some("fd00::2 lladdr bc:24:11:84:71:8b STALE".to_string())));
    assert_eq!(ping_target(&a).as_deref(), Some("fd00::2"));
    match h.resume(ProbeEvent::Reachable(true)) {
        ProbeAction::Done(Some(info)) => {
            assert_eq!(info.ipv4.as_deref(), Some("192.168.1.2"));
            assert_eq!(info.ipv6.as_deref(), Some("fd00::2"));
        }
        _ => panic!("expected a result"),
    }
    let a = h.check(false, true);
    assert_eq!(ping_target(&a).as_deref(), Some("fd00::2"));
}

#[test]
fn update_params_forgets_addresses_on_mac_change() {
    let mut h = HealthChecker::new("bc:24:11:84:71:8b".to_string(), "br-lan".to_string(), None);
    h.check(true, false);
    h.resume(ProbeEvent::Output(Some(NEIGH4.to_string())));
    h.resume(ProbeEvent::Reachable(true));
    h.update_params("BC:24:11:84:71:8B".to_string(), "br-lan".to_string(), None);
    assert_eq!(ping_target(&h.check(true, false)).as_deref(), Some("192.168.1.2"));
    h.update_params("00:00:00:00:00:01".to_string(), "br-lan".to_string(), None);
    assert!(matches!(h.check(true, false), ProbeAction::ReadNeighborsV4));
}

#[test]
fn address_in_line_uses_the_lowered_line() {
    let line = "192.168.1.2 lladdr BC:24:11:84:71:8B STALE";
    let lowered = line.to_lowercase();
    assert_eq!(address_in_line(line, &lowered, "bc:24:11:84:71:8b").as_deref(), Some("192.168.1.2"));
    assert_eq!(address_in_line(line, line, "bc:24:11:84:71:8b"), None);
    assert_eq!(address_in_line("", "", ""), None);
}
