use sideroute::routing::{next_step, PlanProgress, RouteStep, RoutingManager};

fn render(plan: &[RouteStep]) -> Vec<String> {
    plan.iter()
        .map(|s| match s {
            RouteStep::Ip { args, checked } => {
                format!("{}ip {}", if *checked { "!" } else { "" }, args.join(" "))
            }
            RouteStep::Write { path, value } => format!("write {} {}", path, value),
        })
        .collect()
}

#[test]
fn apply_routing_ipv4_only_plan() {
    let m = RoutingManager::new(200, 1, "br-lan".to_string());
    let plan = render(&m.apply_routing(true, Some("192.168.1.2"), false, None));
    let expected = vec![
        "write /proc/sys/net/ipv4/conf/all/send_redirects 0",
        "write /proc/sys/net/ipv4/conf/default/send_redirects 0",
        "write /proc/sys/net/ipv4/conf/br-lan/send_redirects 0",
        "ip -4 rule add to 10.0.0.0/8 table main pref 9990",
        "ip -4 rule add to 172.16.0.0/12 table main pref 9991",
        "ip -4 rule add to 192.168.0.0/16 table main pref 9992",
        "ip -4 rule add to 224.0.0.0/4 table main pref 9993",
        "ip -4 rule del fwmark 1 table 200",
        "!ip -4 rule add fwmark 1 table 200 pref 10000",
        "ip -4 route flush table 200",
        "!ip -4 route add default via 192.168.1.2 dev br-lan table 200",
        "ip -6 rule del fwmark 1 table 200",
        "ip -6 route flush table 200",
        "ip -6 rule del to fe80::/10 table main pref 9990",
        "ip -6 rule del to fc00::/7 table main pref 9991",
        "ip -6 rule del to ff00::/8 table main pref 9992",
    ];
    assert_eq!(plan, expected);
}

#[test]
fn apply_routing_ipv6_with_address_and_ipv4_without() {
    let mut m = RoutingManager::new(1, 2, "eth0".to_string());
    m.update_params(4294967295, 77, "lan1".to_string());
    let plan = render(&m.apply_routing(true, None, true, Some("fd00::2")));
    let expected = vec![
        "write /proc/sys/net/ipv4/conf/all/send_redirects 0",
        "write /proc/sys/net/ipv4/conf/default/send_redirects 0",
        "write /proc/sys/net/ipv4/conf/lan1/send_redirects 0",
        "ip -6 rule add to fe80::/10 table main pref 9990",
        "ip -6 rule add to fc00::/7 table main pref 9991",
        "ip -6 rule add to ff00::/8 table main pref 9992",
        "ip -6 rule del fwmark 77 table 4294967295",
        "!ip -6 rule add fwmark 77 table 4294967295 pref 10000",
        "ip -6 route flush table 4294967295",
        "!ip -6 route add default via fd00::2 dev lan1 table 4294967295",
    ];
    assert_eq!(plan, expected);
}

#[test]
fn clear_routing_removes_both_families() {
    let m = RoutingManager::new(0, 10, "br-lan".to_string());
    let plan = render(&m.clear_routing());
    let expected = vec![
        "ip -4 rule del fwmark 10 table 0",
        "ip -4 route flush table 0",
        "ip -4 rule del to 10.0.0.0/8 table main pref 9990",
        "ip -4 rule del to 172.16.0.0/12 table main pref 9991",
        "ip -4 rule del to 192.168.0.0/16 table main pref 9992",
        "ip -4 rule del to 224.0.0.0/4 table main pref 9993",
        "ip -6 rule del fwmark 10 table 0",
        "ip -6 route flush table 0",
        "ip -6 rule del to fe80::/10 table main pref 9990",
        "ip -6 rule del to fc00::/7 table main pref 9991",
        "ip -6 rule del to ff00::/8 table main pref 9992",
    ];
    assert_eq!(plan, expected);
}

#[test]
fn plan_progress_stops_only_at_failed_checked_steps() {
    let m = RoutingManager::new(200, 1, "br-lan".to_string());
    let plan = m.apply_routing(true, Some("192.168.1.2"), true, None);
    assert!(matches!(next_step(&plan, 0, true), PlanProgress::Next(1)));
    assert!(matches!(next_step(&plan, 7, true), PlanProgress::Next(8)));
    assert!(matches!(next_step(&plan, 8, true), PlanProgress::Failed));
    assert!(matches!(next_step(&plan, 8, false), PlanProgress::Next(9)));
    assert!(matches!(next_step(&plan, plan.len() - 1, false), PlanProgress::Finished));
    assert!(matches!(next_step(&plan, plan.len(), true), PlanProgress::Finished));
}
