use sideroute::nftables::{NftablesManager, INBOUND_CT_MARK, TABLE_NAME};

const HEAD: &str = "table inet side_route_guard {\n    chain prerouting {\n        type filter hook prerouting priority mangle - 5; policy accept;\n        iifname \"pppoe-wan\" ct state new ct mark set 0x200\n        ct mark 0x200 accept\n        ip daddr { 10.0.0.0/8, 172.16.0.0/12, 192.168.0.0/16, 224.0.0.0/4, 255.255.255.255 } accept\n        ip6 daddr { fe80::/10, fc00::/7, ff00::/8 } accept\n";

#[test]
fn constants() {
    assert_eq!(TABLE_NAME, "side_route_guard");
    assert_eq!(INBOUND_CT_MARK, 0x200);
}

#[test]
fn ruleset_dual_stack_with_dns() {
    let m = NftablesManager::new("pppoe-wan".to_string(), 1);
    let macs = vec!["00:11:22:33:44:55".to_string(), "aa:bb:cc:dd:ee:ff".to_string()];
    let r = m.ruleset(&macs, true, Some("192.168.1.2"), true, Some("fd00::2"), true);
    let mut expected = String::from(HEAD);
    for mac in &macs {
        expected.push_str(&format!("        ether saddr {} ip version 4 counter meta mark set 1\n", mac));
        expected.push_str(&format!("        ether saddr {} ip6 version 6 counter meta mark set 1\n", mac));
    }
    expected.push_str("    }\n    chain dstnat {\n        type nat hook prerouting priority dstnat - 5; policy accept;\n");
    for mac in &macs {
        expected.push_str(&format!("        ether saddr {} meta l4proto {{ tcp, udp }} th dport 53 counter dnat ip to 192.168.1.2:53\n", mac));
        expected.push_str(&format!("        ether saddr {} meta l4proto {{ tcp, udp }} th dport 53 counter dnat ip6 to [fd00::2]:53\n", mac));
    }
    expected.push_str("    }\n    chain postrouting {\n        type nat hook postrouting priority srcnat; policy accept;\n        ip daddr 192.168.1.2 th dport 53 counter masquerade\n        ip6 daddr fd00::2 th dport 53 counter masquerade\n    }\n}\n");
    assert_eq!(r, expected);
}

#[test]
fn ruleset_ipv4_disabled_no_dns() {
    let mut m = NftablesManager::new("wan".to_string(), 1);
    m.update_params("pppoe-wan".to_string(), 300);
    let macs = vec!["aa:bb:cc:dd:ee:ff".to_string()];
    let r = m.ruleset(&macs, false, Some("192.168.1.2"), true, Some("fe80::1"), false);
    let expected = format!("{}        ether saddr aa:bb:cc:dd:ee:ff ip6 version 6 counter meta mark set 300\n    }}\n    chain dstnat {{\n        type nat hook prerouting priority dstnat - 5; policy accept;\n    }}\n}}\n", HEAD);
    assert_eq!(r, expected);
}

#[test]
fn ruleset_without_clients_has_no_dns_chain() {
    let m = NftablesManager::new("pppoe-wan".to_string(), 1);
    let r = m.ruleset(&[], true, Some("10.1.1.1"), true, None, true);
    let expected = format!("{}    }}\n    chain dstnat {{\n        type nat hook prerouting priority dstnat - 5; policy accept;\n    }}\n}}\n", HEAD);
    assert_eq!(r, expected);
}
