//! The nftables ruleset of the table `inet side_route_guard`: inbound
//! protection for connections that enter through the WAN, direct delivery
//! for private destinations, marks for the clients' traffic and DNS
//! interception towards the side router.
use vstd::prelude::*;
use vstd::string::*;
use crate::routing::opt_str_view;
use crate::text::{decimal, push_decimal, push_text, string_views};

verus! {

/// The name of the nftables table that holds all rules of the daemon.
pub const TABLE_NAME: &'static str = "side_route_guard";

/// The conntrack mark of connections that came in through the WAN interface.
pub const INBOUND_CT_MARK: u32 = 0x200;

/// The value of an nftables manager: the WAN interface and the packet mark.
pub struct NftView {
    pub wan_interface: Seq<char>,
    pub mark_id: u32,
}

/// Builds the nftables ruleset of the daemon.
pub struct NftablesManager {
    wan_interface: String,
    mark_id: u32,
}

impl View for NftablesManager {
    type V = NftView;

    closed spec fn view(&self) -> NftView {
        NftView { wan_interface: self.wan_interface@, mark_id: self.mark_id }
    }
}

/// The head of the ruleset: the table, the prerouting chain, the inbound
/// connection mark on the WAN, and direct acceptance of private,
/// link-local and multicast destinations.
pub open spec fn ruleset_head(wan: Seq<char>) -> Seq<char> {
    "table inet "@ + "side_route_guard"@ + " {\n"@ + "    chain prerouting {\n"@
        + "        type filter hook prerouting priority mangle - 5; policy accept;\n"@
        + "        iifname \""@ + wan + "\" ct state new ct mark set 0x200\n"@
        + "        ct mark 0x200 accept\n"@
        + "        ip daddr { 10.0.0.0/8, 172.16.0.0/12, 192.168.0.0/16, 224.0.0.0/4, 255.255.255.255 } accept\n"@
        + "        ip6 daddr { fe80::/10, fc00::/7, ff00::/8 } accept\n"@
}

/// The mark rules for one client MAC address.
pub open spec fn mark_rules(mac: Seq<char>, mark: u32, v4: bool, v6: bool) -> Seq<char> {
    (if v4 {
        "        ether saddr "@ + mac + " ip version 4 counter meta mark set "@ + decimal(
            mark as nat,
        ) + "\n"@
    } else {
        seq![]
    }) + (if v6 {
        "        ether saddr "@ + mac + " ip6 version 6 counter meta mark set "@ + decimal(
            mark as nat,
        ) + "\n"@
    } else {
        seq![]
    })
}

/// The mark rules of all clients, in order.
pub open spec fn all_mark_rules(macs: Seq<Seq<char>>, mark: u32, v4: bool, v6: bool) -> Seq<char>
    decreases macs.len(),
{
    if macs.len() == 0 {
        seq![]
    } else {
        all_mark_rules(macs.drop_last(), mark, v4, v6) + mark_rules(macs.last(), mark, v4, v6)
    }
}

/// The DNS redirection rules for one client MAC address.
pub open spec fn dnat_rules(mac: Seq<char>, v4: Option<Seq<char>>, v6: Option<Seq<char>>) -> Seq<
    char,
> {
    (match v4 {
        Some(a) => "        ether saddr "@ + mac
            + " meta l4proto { tcp, udp } th dport 53 counter dnat ip to "@ + a + ":53\n"@,
        None => seq![],
    }) + (match v6 {
        Some(a) => "        ether saddr "@ + mac
            + " meta l4proto { tcp, udp } th dport 53 counter dnat ip6 to ["@ + a + "]:53\n"@,
        None => seq![],
    })
}

/// The DNS redirection rules of all clients, in order.
pub open spec fn all_dnat_rules(
    macs: Seq<Seq<char>>,
    v4: Option<Seq<char>>,
    v6: Option<Seq<char>>,
) -> Seq<char>
    decreases macs.len(),
{
    if macs.len() == 0 {
        seq![]
    } else {
        all_dnat_rules(macs.drop_last(), v4, v6) + dnat_rules(macs.last(), v4, v6)
    }
}

/// The masquerading of DNS traffic to the side router.
pub open spec fn masquerade_rules(v4: Option<Seq<char>>, v6: Option<Seq<char>>) -> Seq<char> {
    (match v4 {
        Some(a) => "        ip daddr "@ + a + " th dport 53 counter masquerade\n"@,
        None => seq![],
    }) + (match v6 {
        Some(a) => "        ip6 daddr "@ + a + " th dport 53 counter masquerade\n"@,
        None => seq![],
    })
}

/// The side router's address in a family, where the family is enabled.
pub open spec fn enabled_addr(enabled: bool, addr: Option<Seq<char>>) -> Option<Seq<char>> {
    if enabled {
        addr
    } else {
        None
    }
}

/// The whole ruleset. Each client's IPv4 (IPv6) traffic is marked when IPv4
/// (IPv6) is enabled and the side router has an address in it. With DNS
/// interception on and at least one client, the clients' DNS requests are
/// redirected to the side router's addresses in the enabled families and
/// masqueraded; the `dstnat` chain is there in any case, empty otherwise.
pub open spec fn ruleset_text(
    m: NftView,
    macs: Seq<Seq<char>>,
    enable_ipv4: bool,
    side_ipv4: Option<Seq<char>>,
    enable_ipv6: bool,
    side_ipv6: Option<Seq<char>>,
    hijack_dns: bool,
) -> Seq<char> {
    let v4 = enabled_addr(enable_ipv4, side_ipv4);
    let v6 = enabled_addr(enable_ipv6, side_ipv6);
    let dns = hijack_dns && macs.len() > 0;
    ruleset_head(m.wan_interface) + all_mark_rules(macs, m.mark_id, v4 is Some, v6 is Some)
        + "    }\n"@ + "    chain dstnat {\n"@
        + "        type nat hook prerouting priority dstnat - 5; policy accept;\n"@ + (if dns {
        all_dnat_rules(macs, v4, v6)
    } else {
        seq![]
    }) + "    }\n"@ + (if dns {
        "    chain postrouting {\n"@
            + "        type nat hook postrouting priority srcnat; policy accept;\n"@
            + masquerade_rules(v4, v6) + "    }\n"@
    } else {
        seq![]
    }) + "}\n"@
}

fn enabled_str<'a>(enabled: bool, addr: Option<&'a str>) -> (r: Option<&'a str>)
    ensures
        opt_str_view(r) == enabled_addr(enabled, opt_str_view(addr)),
{
    if enabled {
        addr
    } else {
        None
    }
}

impl NftablesManager {
    pub fn new(wan_interface: String, mark_id: u32) -> (r: Self)
        ensures
            r@ == (NftView { wan_interface: wan_interface@, mark_id }),
    {
        Self { wan_interface, mark_id }
    }

    pub fn update_params(&mut self, wan_interface: String, mark_id: u32)
        ensures
            final(self)@ == (NftView { wan_interface: wan_interface@, mark_id }),
    {
        self.wan_interface = wan_interface;
        self.mark_id = mark_id;
    }

    #[verifier::rlimit(40)]
    fn push_head(&self, out: &mut String)
        ensures
            final(out)@ == old(out)@ + ruleset_head(self@.wan_interface),
    {
        push_text(out, "table inet ");
        push_text(out, TABLE_NAME);
        push_text(out, " {\n");
        push_text(out, "    chain prerouting {\n");
        push_text(out, "        type filter hook prerouting priority mangle - 5; policy accept;\n");
        push_text(out, "        iifname \"");
        push_text(out, self.wan_interface.as_str());
        push_text(out, "\" ct state new ct mark set 0x200\n");
        push_text(out, "        ct mark 0x200 accept\n");
        push_text(
            out,
            "        ip daddr { 10.0.0.0/8, 172.16.0.0/12, 192.168.0.0/16, 224.0.0.0/4, 255.255.255.255 } accept\n",
        );
        push_text(out, "        ip6 daddr { fe80::/10, fc00::/7, ff00::/8 } accept\n");
        assert(out@ == old(out)@ + ruleset_head(self@.wan_interface));
    }

    fn push_mark_one(&self, out: &mut String, mac: &str, v4: bool, v6: bool)
        ensures
            final(out)@ == old(out)@ + mark_rules(mac@, self@.mark_id, v4, v6),
    {
        let ghost before = out@;
        if v4 {
            push_text(out, "        ether saddr ");
            push_text(out, mac);
            push_text(out, " ip version 4 counter meta mark set ");
            push_decimal(out, self.mark_id as u64);
            push_text(out, "\n");
        }
        if v6 {
            push_text(out, "        ether saddr ");
            push_text(out, mac);
            push_text(out, " ip6 version 6 counter meta mark set ");
            push_decimal(out, self.mark_id as u64);
            push_text(out, "\n");
        }
        assert(out@ == before + mark_rules(mac@, self@.mark_id, v4, v6));
    }

    fn push_dnat_one(out: &mut String, mac: &str, v4: Option<&str>, v6: Option<&str>)
        ensures
            final(out)@ == old(out)@ + dnat_rules(mac@, opt_str_view(v4), opt_str_view(v6)),
    {
        let ghost before = out@;
        if let Some(a) = v4 {
            push_text(out, "        ether saddr ");
            push_text(out, mac);
            push_text(out, " meta l4proto { tcp, udp } th dport 53 counter dnat ip to ");
            push_text(out, a);
            push_text(out, ":53\n");
        }
        if let Some(a) = v6 {
            push_text(out, "        ether saddr ");
            push_text(out, mac);
            push_text(out, " meta l4proto { tcp, udp } th dport 53 counter dnat ip6 to [");
            push_text(out, a);
            push_text(out, "]:53\n");
        }
        assert(out@ == before + dnat_rules(mac@, opt_str_view(v4), opt_str_view(v6)));
    }

    fn push_marks(&self, out: &mut String, macs: &[String], v4: bool, v6: bool)
        ensures
            final(out)@ == old(out)@ + all_mark_rules(string_views(macs@), self@.mark_id, v4, v6),
    {
        let ghost ms = string_views(macs@);
        let mut i: usize = 0;
        while i < macs.len()
            invariant
                i <= macs.len(),
                ms == string_views(macs@),
                out@ == old(out)@ + all_mark_rules(ms.take(i as int), self@.mark_id, v4, v6),
            decreases macs.len() - i,
        {
            self.push_mark_one(out, macs[i].as_str(), v4, v6);
            assert(ms.take(i + 1).drop_last() == ms.take(i as int));
            assert(ms.take(i + 1).last() == macs@[i as int]@);
            i = i + 1;
        }
        assert(ms.take(macs.len() as int) == ms);
    }

    fn push_dnat(&self, out: &mut String, macs: &[String], v4: Option<&str>, v6: Option<&str>)
        ensures
            final(out)@ == old(out)@ + all_dnat_rules(
                string_views(macs@),
                opt_str_view(v4),
                opt_str_view(v6),
            ),
    {
        let ghost ms = string_views(macs@);
        let mut i: usize = 0;
        while i < macs.len()
            invariant
                i <= macs.len(),
                ms == string_views(macs@),
                out@ == old(out)@ + all_dnat_rules(
                    ms.take(i as int),
                    opt_str_view(v4),
                    opt_str_view(v6),
                ),
            decreases macs.len() - i,
        {
            Self::push_dnat_one(out, macs[i].as_str(), v4, v6);
            assert(ms.take(i + 1).drop_last() == ms.take(i as int));
            assert(ms.take(i + 1).last() == macs@[i as int]@);
            i = i + 1;
        }
        assert(ms.take(macs.len() as int) == ms);
    }

    fn push_masquerade(out: &mut String, v4: Option<&str>, v6: Option<&str>)
        ensures
            final(out)@ == old(out)@ + masquerade_rules(opt_str_view(v4), opt_str_view(v6)),
    {
        let ghost before = out@;
        if let Some(a) = v4 {
            push_text(out, "        ip daddr ");
            push_text(out, a);
            push_text(out, " th dport 53 counter masquerade\n");
        }
        if let Some(a) = v6 {
            push_text(out, "        ip6 daddr ");
            push_text(out, a);
            push_text(out, " th dport 53 counter masquerade\n");
        }
        assert(out@ == before + masquerade_rules(opt_str_view(v4), opt_str_view(v6)));
    }

    /// The ruleset text that `nft -f -` loads to put the side route in place.
    #[verifier::rlimit(40)]
    pub fn ruleset(
        &self,
        client_macs: &[String],
        enable_ipv4: bool,
        side_ipv4: Option<&str>,
        enable_ipv6: bool,
        side_ipv6: Option<&str>,
        hijack_dns: bool,
    ) -> (r: String)
        ensures
            r@ == ruleset_text(
                self@,
                string_views(client_macs@),
                enable_ipv4,
                opt_str_view(side_ipv4),
                enable_ipv6,
                opt_str_view(side_ipv6),
                hijack_dns,
            ),
    {
        let v4 = enabled_str(enable_ipv4, side_ipv4);
        let v6 = enabled_str(enable_ipv6, side_ipv6);
        let dns = hijack_dns && client_macs.len() > 0;
        let mut out = String::new();
        self.push_head(&mut out);
        self.push_marks(&mut out, client_macs, v4.is_some(), v6.is_some());
        push_text(&mut out, "    }\n");
        push_text(&mut out, "    chain dstnat {\n");
        push_text(&mut out, "        type nat hook prerouting priority dstnat - 5; policy accept;\n");
        let ghost before_dnat = out@;
        if dns {
            self.push_dnat(&mut out, client_macs, v4, v6);
        }
        assert(out@ == before_dnat + (if dns {
            all_dnat_rules(string_views(client_macs@), opt_str_view(v4), opt_str_view(v6))
        } else {
            seq![]
        }));
        push_text(&mut out, "    }\n");
        let ghost before_post = out@;
        if dns {
            push_text(&mut out, "    chain postrouting {\n");
            push_text(
                &mut out,
                "        type nat hook postrouting priority srcnat; policy accept;\n",
            );
            Self::push_masquerade(&mut out, v4, v6);
            push_text(&mut out, "    }\n");
        }
        assert(out@ == before_post + (if dns {
            "    chain postrouting {\n"@
                + "        type nat hook postrouting priority srcnat; policy accept;\n"@
                + masquerade_rules(opt_str_view(v4), opt_str_view(v6)) + "    }\n"@
        } else {
            seq![]
        }));
        push_text(&mut out, "}\n");
        out
    }
}

/// With no family marked, no client gets a mark rule.
proof fn lemma_no_mark_rules(macs: Seq<Seq<char>>, mark: u32)
    ensures
        all_mark_rules(macs, mark, false, false) == Seq::<char>::empty(),
    decreases macs.len(),
{
    if macs.len() > 0 {
        lemma_no_mark_rules(macs.drop_last(), mark);
        assert(mark_rules(macs.last(), mark, false, false) == Seq::<char>::empty());
    }
}

/// A family in which the side router has no address is treated as a
/// disabled one: enabling it changes nothing in the ruleset, so none of the
/// clients' traffic of that family is marked or redirected.
pub proof fn lemma_family_without_address_is_off(
    m: NftView,
    macs: Seq<Seq<char>>,
    enable_ipv4: bool,
    side_ipv4: Option<Seq<char>>,
    enable_ipv6: bool,
    side_ipv6: Option<Seq<char>>,
    other: Option<Seq<char>>,
    hijack_dns: bool,
)
    ensures
        ruleset_text(m, macs, enable_ipv4, side_ipv4, true, None, hijack_dns) == ruleset_text(
            m,
            macs,
            enable_ipv4,
            side_ipv4,
            false,
            other,
            hijack_dns,
        ),
        ruleset_text(m, macs, true, None, enable_ipv6, side_ipv6, hijack_dns) == ruleset_text(
            m,
            macs,
            false,
            other,
            enable_ipv6,
            side_ipv6,
            hijack_dns,
        ),
{
}

/// With no address of the side router in either family and no DNS
/// interception, the ruleset holds nothing for any client: it is the ruleset
/// of an empty client list.
pub proof fn lemma_no_address_no_client_rules(
    m: NftView,
    macs: Seq<Seq<char>>,
    enable_ipv4: bool,
    enable_ipv6: bool,
)
    ensures
        ruleset_text(m, macs, enable_ipv4, None, enable_ipv6, None, false) == ruleset_text(
            m,
            seq![],
            enable_ipv4,
            None,
            enable_ipv6,
            None,
            false,
        ),
{
    lemma_no_mark_rules(macs, m.mark_id);
    lemma_no_mark_rules(seq![], m.mark_id);
}

} // verus!
