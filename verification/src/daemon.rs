//! The decisions of the daemon's main loop: when to put the side route in
//! place, when to fall back to the main router, and what status to report.
//!
//! Each round of the loop reads the configuration, hands it here, does what
//! the returned decision asks (probing, applying or clearing rules), and
//! reports the outcome back; the state kept here remembers what is in place.
use vstd::prelude::*;
use vstd::string::*;
use crate::config::AppConfig;
use crate::health::{InfoView, SideRouterInfo};
use crate::status::DaemonStatus;
use crate::text::{decimal, join, opt_view, push_char, push_decimal, push_text, string_views};

verus! {

/// What is in place.
pub enum DaemonState {
    /// No side-route rules: every device goes through the main router.
    Offline,
    /// The daemon is switched off in the configuration; no rules.
    Disabled,
    /// The rules send the clients through the side router at these addresses,
    /// for the client list and DNS setting summed up in `mac_signature`.
    Active { side_ipv4: Option<String>, side_ipv6: Option<String>, mac_signature: String },
}

pub enum StateView {
    Offline,
    Disabled,
    Active { side_ipv4: Option<Seq<char>>, side_ipv6: Option<Seq<char>>, mac_signature: Seq<char> },
}

impl View for DaemonState {
    type V = StateView;

    open spec fn view(&self) -> StateView {
        match self {
            DaemonState::Offline => StateView::Offline,
            DaemonState::Disabled => StateView::Disabled,
            DaemonState::Active { side_ipv4, side_ipv6, mac_signature } => StateView::Active {
                side_ipv4: opt_view(*side_ipv4),
                side_ipv6: opt_view(*side_ipv6),
                mac_signature: mac_signature@,
            },
        }
    }
}

/// What the main loop is to do after a probe of the side router.
pub enum Decision {
    /// Apply the routing and the nftables ruleset for the side router that was
    /// found, then report whether both succeeded with `Daemon::after_apply`.
    Apply,
    /// Clear the routing and the ruleset, then write the status.
    Failover,
    /// Nothing changes but the status timestamp: write the status.
    Refresh,
}

/// The value of a status report.
#[verifier::ext_equal]
pub struct StatusView {
    pub running: bool,
    pub online: bool,
    pub side_mac: Seq<char>,
    pub side_ipv4: Option<Seq<char>>,
    pub side_ipv6: Option<Seq<char>>,
    pub active_clients: Seq<Seq<char>>,
    pub client_count: usize,
    pub last_check_timestamp: u64,
    pub message: Seq<char>,
}

pub open spec fn status_view(s: DaemonStatus) -> StatusView {
    StatusView {
        running: s.running,
        online: s.online,
        side_mac: s.side_mac@,
        side_ipv4: opt_view(s.side_ipv4),
        side_ipv6: opt_view(s.side_ipv6),
        active_clients: string_views(s.active_clients@),
        client_count: s.client_count,
        last_check_timestamp: s.last_check_timestamp,
        message: s.message@,
    }
}

/// The client list and the DNS setting in one text, as `mac_signature` writes it.
pub open spec fn signature_text(macs: Seq<Seq<char>>, hijack_dns: bool) -> Seq<char> {
    join(macs, ',') + ":"@ + if hijack_dns {
        "true"@
    } else {
        "false"@
    }
}

/// Whether the rules must be (re)applied for the side router found at
/// `info`: always unless active, and when active, if an address or the
/// signature changed.
pub open spec fn needs_update(st: StateView, info: InfoView, sig: Seq<char>) -> bool {
    match st {
        StateView::Active { side_ipv4, side_ipv6, mac_signature } => side_ipv4 != info.ipv4
            || side_ipv6 != info.ipv6 || mac_signature != sig,
        _ => true,
    }
}

/// The state once the rules for `info` and `sig` are in place.
pub open spec fn applied_state(info: InfoView, sig: Seq<char>) -> StateView {
    StateView::Active { side_ipv4: info.ipv4, side_ipv6: info.ipv6, mac_signature: sig }
}

pub open spec fn or_none(o: Option<Seq<char>>) -> Seq<char> {
    match o {
        Some(s) => s,
        None => "none"@,
    }
}

/// The status message of an active side route.
pub open spec fn active_message(v4: Option<Seq<char>>, v6: Option<Seq<char>>, n: nat) -> Seq<
    char,
> {
    "Active (IPv4: "@ + or_none(v4) + ", IPv6: "@ + or_none(v6) + ") - "@ + decimal(n)
        + " clients routed"@
}

/// The client list and the DNS setting in one text: the MAC addresses joined
/// with commas, a colon, and `true` or `false`.
pub fn mac_signature(client_macs: &[String], hijack_dns: bool) -> (r: String)
    ensures
        r@ == signature_text(string_views(client_macs@), hijack_dns),
{
    let ghost ms = string_views(client_macs@);
    let mut r = String::new();
    let mut i: usize = 0;
    while i < client_macs.len()
        invariant
            i <= client_macs.len(),
            ms == string_views(client_macs@),
            r@ == join(ms.take(i as int), ','),
        decreases client_macs.len() - i,
    {
        let ghost before = r@;
        let ghost t = ms.take(i + 1);
        assert(t.drop_last() == ms.take(i as int));
        assert(t.last() == client_macs@[i as int]@);
        if i > 0 {
            push_char(&mut r, ',');
        }
        push_text(&mut r, client_macs[i].as_str());
        if i == 0 {
            assert(t.len() == 1);
            assert(r@ == t[0]);
        }
        i = i + 1;
    }
    assert(ms.take(client_macs.len() as int) == ms);
    push_text(&mut r, ":");
    if hijack_dns {
        push_text(&mut r, "true");
    } else {
        push_text(&mut r, "false");
    }
    r
}

fn clone_opt(o: &Option<String>) -> (r: Option<String>)
    ensures
        opt_view(r) == opt_view(*o),
{
    match o {
        Some(s) => Some(s.clone()),
        None => None,
    }
}

fn same_opt(a: &Option<String>, b: &Option<String>) -> (r: bool)
    ensures
        r == (opt_view(*a) == opt_view(*b)),
{
    match (a, b) {
        (Some(x), Some(y)) => *x == *y,
        (None, None) => true,
        _ => false,
    }
}

fn clone_list(v: &Vec<String>) -> (r: Vec<String>)
    ensures
        string_views(r@) == string_views(v@),
{
    let mut r: Vec<String> = Vec::new();
    let mut i: usize = 0;
    while i < v.len()
        invariant
            i <= v.len(),
            string_views(r@) == string_views(v@).take(i as int),
        decreases v.len() - i,
    {
        r.push(v[i].clone());
        assert(string_views(v@).take(i + 1) == string_views(v@).take(i as int).push(v@[i as int]@));
        i = i + 1;
    }
    assert(string_views(v@).take(v.len() as int) == string_views(v@));
    r
}

/// Whether the state and the rules in place call for applying them anew for
/// the side router found at `info`.
pub fn update_needed(state: &DaemonState, info: &SideRouterInfo, signature: &String) -> (r: bool)
    ensures
        r == needs_update(state@, info@, signature@),
{
    match state {
        DaemonState::Active { side_ipv4, side_ipv6, mac_signature } => !same_opt(
            side_ipv4,
            &info.ipv4,
        ) || !same_opt(side_ipv6, &info.ipv6) || !(*mac_signature == *signature),
        _ => true,
    }
}

/// The daemon's memory between rounds: what is in place, and the status it reports.
pub struct Daemon {
    pub state: DaemonState,
    pub status: DaemonStatus,
}

impl Daemon {
    /// The status reports the daemon online exactly when the side route is active.
    pub open spec fn consistent(&self) -> bool {
        (self.state@ is Active) == self.status.online
    }

    /// A daemon that has cleared all rules at start-up: offline, running, and
    /// reporting the configured side router and clients.
    pub fn new(cfg: &AppConfig, now: u64) -> (d: Self)
        ensures
            d.state@ is Offline,
            d.consistent(),
            status_view(d.status) == (StatusView {
                running: true,
                online: false,
                side_mac: cfg@.side_router_mac,
                side_ipv4: None,
                side_ipv6: None,
                active_clients: cfg@.client_macs,
                client_count: cfg.client_macs@.len() as usize,
                last_check_timestamp: now,
                message: "Daemon initialized. Starting health checks..."@,
            }),
    {
        let status = DaemonStatus {
            running: true,
            online: false,
            side_mac: cfg.side_router_mac.clone(),
            side_ipv4: None,
            side_ipv6: None,
            active_clients: clone_list(&cfg.client_macs),
            client_count: cfg.client_macs.len(),
            last_check_timestamp: now,
            message: String::from_str("Daemon initialized. Starting health checks..."),
        };
        Daemon { state: DaemonState::Offline, status }
    }

    /// A round in which the configuration switches the daemon off. The first
    /// such round asks for a clean-up (the result is `true`) and reports the
    /// daemon offline; later ones change nothing.
    #[verifier::rlimit(40)]
    pub fn on_disabled(&mut self, cfg: &AppConfig, now: u64) -> (cleanup: bool)
        ensures
            cleanup == !(old(self).state@ is Disabled),
            final(self).state@ is Disabled,
            old(self).consistent() ==> final(self).consistent(),
            cleanup ==> status_view(final(self).status) == (StatusView {
                online: false,
                side_mac: cfg@.side_router_mac,
                side_ipv4: None,
                side_ipv6: None,
                active_clients: cfg@.client_macs,
                client_count: cfg.client_macs@.len() as usize,
                last_check_timestamp: now,
                message: "Service disabled in config"@,
                ..status_view(old(self).status)
            }),
            !cleanup ==> status_view(final(self).status) == status_view(old(self).status),
    {
        match self.state {
            DaemonState::Disabled => false,
            _ => {
                self.state = DaemonState::Disabled;
                self.status.online = false;
                self.status.side_mac = cfg.side_router_mac.clone();
                self.status.side_ipv4 = None;
                self.status.side_ipv6 = None;
                self.status.active_clients = clone_list(&cfg.client_macs);
                self.status.client_count = cfg.client_macs.len();
                self.status.last_check_timestamp = now;
                self.status.message = String::from_str("Service disabled in config");
                true
            },
        }
    }

    /// A round in which the probe found the side router at `found`, or did
    /// not find it. A side router found calls for applying the rules unless
    /// exactly those are in place; one not found calls for a fail-over to
    /// the main router unless the daemon is offline already.
    #[verifier::rlimit(40)]
    pub fn on_probe(&mut self, cfg: &AppConfig, found: &Option<SideRouterInfo>, now: u64) -> (d:
        Decision)
        ensures
            old(self).consistent() ==> final(self).consistent(),
            match found {
                Some(info) => {
                    let sig = signature_text(cfg@.client_macs, cfg@.hijack_dns);
                    &&& final(self).state@ == old(self).state@
                    &&& needs_update(old(self).state@, info@, sig) ==> (d is Apply && status_view(
                        final(self).status,
                    ) == status_view(old(self).status))
                    &&& !needs_update(old(self).state@, info@, sig) ==> (d is Refresh
                        && status_view(final(self).status) == (StatusView {
                        last_check_timestamp: now,
                        ..status_view(old(self).status)
                    }))
                },
                None => {
                    &&& final(self).state@ is Offline
                    &&& old(self).consistent() ==> !final(self).status.online
                    &&& !(old(self).state@ is Offline) ==> (d is Failover && status_view(
                        final(self).status,
                    ) == (StatusView {
                        online: false,
                        side_mac: cfg@.side_router_mac,
                        side_ipv4: None,
                        side_ipv6: None,
                        last_check_timestamp: now,
                        message: "Side router unreachable. Fallback direct active."@,
                        ..status_view(old(self).status)
                    }))
                    &&& old(self).state@ is Offline ==> (d is Refresh && status_view(
                        final(self).status,
                    ) == (StatusView {
                        last_check_timestamp: now,
                        ..status_view(old(self).status)
                    }))
                },
            },
    {
        match found {
            Some(info) => {
                let sig = mac_signature(cfg.client_macs.as_slice(), cfg.hijack_dns);
                if update_needed(&self.state, info, &sig) {
                    Decision::Apply
                } else {
                    self.status.last_check_timestamp = now;
                    Decision::Refresh
                }
            },
            None => {
                match self.state {
                    DaemonState::Offline => {
                        self.status.last_check_timestamp = now;
                        Decision::Refresh
                    },
                    _ => {
                        self.state = DaemonState::Offline;
                        self.status.online = false;
                        self.status.side_mac = cfg.side_router_mac.clone();
                        self.status.side_ipv4 = None;
                        self.status.side_ipv6 = None;
                        self.status.last_check_timestamp = now;
                        self.status.message = String::from_str(
                            "Side router unreachable. Fallback direct active.",
                        );
                        Decision::Failover
                    },
                }
            },
        }
    }

    /// The outcome of applying the rules for the side router at `info`. On
    /// success the side route is active and reported online with the side
    /// router's addresses and the clients; on failure the result is `true`,
    /// which asks to clear everything, and the daemon is offline.
    #[verifier::rlimit(40)]
    pub fn after_apply(&mut self, cfg: &AppConfig, info: &SideRouterInfo, success: bool, now: u64) -> (fallback:
        bool)
        ensures
            fallback == !success,
            final(self).consistent(),
            success ==> final(self).state@ == applied_state(
                info@,
                signature_text(cfg@.client_macs, cfg@.hijack_dns),
            ),
            success ==> status_view(final(self).status) == (StatusView {
                online: true,
                side_mac: info@.mac,
                side_ipv4: info@.ipv4,
                side_ipv6: info@.ipv6,
                active_clients: cfg@.client_macs,
                client_count: cfg.client_macs@.len() as usize,
                last_check_timestamp: now,
                message: active_message(info@.ipv4, info@.ipv6, cfg.client_macs@.len()),
                ..status_view(old(self).status)
            }),
            !success ==> final(self).state@ is Offline,
            !success ==> status_view(final(self).status) == (StatusView {
                online: false,
                last_check_timestamp: now,
                message: "Error applying rules; fallbacked to direct"@,
                ..status_view(old(self).status)
            }),
    {
        if success {
            let sig = mac_signature(cfg.client_macs.as_slice(), cfg.hijack_dns);
            self.state = DaemonState::Active {
                side_ipv4: clone_opt(&info.ipv4),
                side_ipv6: clone_opt(&info.ipv6),
                mac_signature: sig,
            };
            let mut msg = String::new();
            push_text(&mut msg, "Active (IPv4: ");
            match &info.ipv4 {
                Some(a) => push_text(&mut msg, a.as_str()),
                None => push_text(&mut msg, "none"),
            }
            push_text(&mut msg, ", IPv6: ");
            match &info.ipv6 {
                Some(a) => push_text(&mut msg, a.as_str()),
                None => push_text(&mut msg, "none"),
            }
            push_text(&mut msg, ") - ");
            push_decimal(&mut msg, cfg.client_macs.len() as u64);
            push_text(&mut msg, " clients routed");
            self.status.online = true;
            self.status.side_mac = info.mac.clone();
            self.status.side_ipv4 = clone_opt(&info.ipv4);
            self.status.side_ipv6 = clone_opt(&info.ipv6);
            self.status.active_clients = clone_list(&cfg.client_macs);
            self.status.client_count = cfg.client_macs.len();
            self.status.last_check_timestamp = now;
            self.status.message = msg;
            false
        } else {
            self.state = DaemonState::Offline;
            self.status.online = false;
            self.status.last_check_timestamp = now;
            self.status.message = String::from_str("Error applying rules; fallbacked to direct");
            true
        }
    }

    /// The daemon stops: all rules are cleared, so nothing is in place, and
    /// the status reports it stopped.
    pub fn on_shutdown(&mut self, now: u64)
        ensures
            final(self).state@ is Offline,
            final(self).consistent(),
            status_view(final(self).status) == (StatusView {
                running: false,
                online: false,
                last_check_timestamp: now,
                message: "Daemon stopped"@,
                ..status_view(old(self).status)
            }),
    {
        self.state = DaemonState::Offline;
        self.status.running = false;
        self.status.online = false;
        self.status.message = String::from_str("Daemon stopped");
        self.status.last_check_timestamp = now;
    }
}

/// Once the rules for a side router are in place, finding it again at the
/// same addresses with the same clients and DNS setting asks for nothing
/// more: applying is idempotent across rounds.
pub proof fn lemma_applied_needs_no_update(info: InfoView, sig: Seq<char>)
    ensures
        !needs_update(applied_state(info, sig), info, sig),
{
}

/// From an active side route, the rules are applied anew exactly when an
/// address of the side router, the client list or the DNS setting changed.
pub proof fn lemma_change_detection(old_info: InfoView, old_sig: Seq<char>, info: InfoView, sig: Seq<char>)
    ensures
        needs_update(applied_state(old_info, old_sig), info, sig) <==> (old_info.ipv4 != info.ipv4
            || old_info.ipv6 != info.ipv6 || old_sig != sig),
{
}

/// Without rules in place (offline or disabled), a side router that is found
/// always has its rules applied.
pub proof fn lemma_inactive_always_applies(st: StateView, info: InfoView, sig: Seq<char>)
    requires
        !(st is Active),
    ensures
        needs_update(st, info, sig),
{
}

} // verus!
