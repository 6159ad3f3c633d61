//! Discovery and health probing of the side router by its MAC address.
//!
//! A check is a conversation: `HealthChecker::check` starts it and says what
//! to do first (ping an address, read a neighbour table), and each answer,
//! handed to `HealthChecker::resume`, gives the next thing to do, until the
//! conversation ends with the side router's addresses, or with none.
use vstd::prelude::*;
use crate::text::{
    CharClass, chars_of, contains, fields, has_substring, lines, opt_view, split_fields,
    split_lines, starts_with, string_of, to_lowercase, unicode_lowercase, begins_with,
    char_views, string_views,
};

verus! {

/// The side router as a check found it.
#[derive(Debug, Clone, PartialEq, Eq)]
pub struct SideRouterInfo {
    pub mac: String,
    pub ipv4: Option<String>,
    pub ipv6: Option<String>,
}

pub struct InfoView {
    pub mac: Seq<char>,
    pub ipv4: Option<Seq<char>>,
    pub ipv6: Option<Seq<char>>,
}

impl View for SideRouterInfo {
    type V = InfoView;

    open spec fn view(&self) -> InfoView {
        InfoView { mac: self.mac@, ipv4: opt_view(self.ipv4), ipv6: opt_view(self.ipv6) }
    }
}

/// What the caller of a check is asked to do next.
pub enum ProbeAction {
    /// Ping this IPv4 address once on the LAN interface; answer `Reachable`.
    PingV4(String),
    /// Ping this IPv6 address once on the LAN interface; answer `Reachable`.
    PingV6(String),
    /// Read the output of `ip -4 neigh show dev <lan>`; answer `Output`.
    ReadNeighborsV4,
    /// Read `/proc/net/arp`; answer `Output`.
    ReadArpTable,
    /// Ping the all-nodes multicast address `ff02::1` on the LAN interface, so
    /// that the IPv6 neighbour table fills; any answer will do.
    SolicitV6,
    /// Read the output of `ip -6 neigh show dev <lan>`; answer `Output`.
    ReadNeighborsV6,
    /// The check is over, with the side router's addresses if it is up.
    Done(Option<SideRouterInfo>),
}

/// The answer to a `ProbeAction`.
pub enum ProbeEvent {
    /// Whether the pinged address answered.
    Reachable(bool),
    /// The text that was read, or `None` when it could not be read.
    Output(Option<String>),
}

pub enum ActionView {
    PingV4(Seq<char>),
    PingV6(Seq<char>),
    ReadNeighborsV4,
    ReadArpTable,
    SolicitV6,
    ReadNeighborsV6,
    Done(Option<InfoView>),
}

impl View for ProbeAction {
    type V = ActionView;

    open spec fn view(&self) -> ActionView {
        match self {
            ProbeAction::PingV4(a) => ActionView::PingV4(a@),
            ProbeAction::PingV6(a) => ActionView::PingV6(a@),
            ProbeAction::ReadNeighborsV4 => ActionView::ReadNeighborsV4,
            ProbeAction::ReadArpTable => ActionView::ReadArpTable,
            ProbeAction::SolicitV6 => ActionView::SolicitV6,
            ProbeAction::ReadNeighborsV6 => ActionView::ReadNeighborsV6,
            ProbeAction::Done(o) => ActionView::Done(
                match o {
                    Some(i) => Some(i@),
                    None => None,
                },
            ),
        }
    }
}

pub enum EventView {
    Reachable(bool),
    Output(Option<Seq<char>>),
}

impl View for ProbeEvent {
    type V = EventView;

    open spec fn view(&self) -> EventView {
        match self {
            ProbeEvent::Reachable(b) => EventView::Reachable(*b),
            ProbeEvent::Output(o) => EventView::Output(opt_view(*o)),
        }
    }
}

/// Where a check stands, waiting for the answer to the action it gave.
enum Stage {
    Idle,
    V4Static { ip: String, en6: bool },
    V4Known { ip: String, en6: bool },
    V4Neighbors { en6: bool },
    V4Arp { en6: bool },
    V4Candidates { list: Vec<String>, next: usize, en6: bool },
    V6Known { ip: String, en4: bool, v4: Option<String> },
    V6Solicit { en4: bool, v4: Option<String> },
    V6Neighbors { en4: bool, v4: Option<String> },
    V6Candidates { list: Vec<String>, next: usize, en4: bool, v4: Option<String> },
}

/// The value of a stage. In the IPv4 stages IPv4 is enabled and `en6` says
/// whether IPv6 is; in the IPv6 stages IPv6 is enabled, `en4` says whether
/// IPv4 is, and `v4` is what the IPv4 probe found.
pub enum StageView {
    Idle,
    V4Static { ip: Seq<char>, en6: bool },
    V4Known { ip: Seq<char>, en6: bool },
    V4Neighbors { en6: bool },
    V4Arp { en6: bool },
    V4Candidates { list: Seq<Seq<char>>, next: int, en6: bool },
    V6Known { ip: Seq<char>, en4: bool, v4: Option<Seq<char>> },
    V6Solicit { en4: bool, v4: Option<Seq<char>> },
    V6Neighbors { en4: bool, v4: Option<Seq<char>> },
    V6Candidates { list: Seq<Seq<char>>, next: int, en4: bool, v4: Option<Seq<char>> },
}

/// Probes the side router, remembering the addresses at which it last answered.
pub struct HealthChecker {
    side_mac: String,
    lan_interface: String,
    configured_ipv4: Option<String>,
    last_known_ipv4: Option<String>,
    last_known_ipv6: Option<String>,
    stage: Stage,
}

pub struct HealthView {
    pub side_mac: Seq<char>,
    pub lan_interface: Seq<char>,
    pub configured_ipv4: Option<Seq<char>>,
    pub last_known_ipv4: Option<Seq<char>>,
    pub last_known_ipv6: Option<Seq<char>>,
    pub stage: StageView,
}

spec fn stage_view(s: Stage) -> StageView {
    match s {
        Stage::Idle => StageView::Idle,
        Stage::V4Static { ip, en6 } => StageView::V4Static { ip: ip@, en6 },
        Stage::V4Known { ip, en6 } => StageView::V4Known { ip: ip@, en6 },
        Stage::V4Neighbors { en6 } => StageView::V4Neighbors { en6 },
        Stage::V4Arp { en6 } => StageView::V4Arp { en6 },
        Stage::V4Candidates { list, next, en6 } => StageView::V4Candidates {
            list: string_views(list@),
            next: next as int,
            en6,
        },
        Stage::V6Known { ip, en4, v4 } => StageView::V6Known { ip: ip@, en4, v4: opt_view(v4) },
        Stage::V6Solicit { en4, v4 } => StageView::V6Solicit { en4, v4: opt_view(v4) },
        Stage::V6Neighbors { en4, v4 } => StageView::V6Neighbors { en4, v4: opt_view(v4) },
        Stage::V6Candidates { list, next, en4, v4 } => StageView::V6Candidates {
            list: string_views(list@),
            next: next as int,
            en4,
            v4: opt_view(v4),
        },
    }
}

impl View for HealthChecker {
    type V = HealthView;

    closed spec fn view(&self) -> HealthView {
        HealthView {
            side_mac: self.side_mac@,
            lan_interface: self.lan_interface@,
            configured_ipv4: opt_view(self.configured_ipv4),
            last_known_ipv4: opt_view(self.last_known_ipv4),
            last_known_ipv6: opt_view(self.last_known_ipv6),
            stage: stage_view(self.stage),
        }
    }
}

// ---------------------------------------------------------------------------
// Reading neighbour tables
// ---------------------------------------------------------------------------

/// The first field of a neighbour table line that mentions `mac`, ignoring
/// the case of the line.
pub open spec fn line_address(line: Seq<char>, mac: Seq<char>) -> Seq<Seq<char>> {
    match mentioned_address(line, unicode_lowercase(line), mac) {
        Some(a) => seq![a],
        None => seq![],
    }
}

/// The first field of the table line `line` when `lowered`, the line in
/// lower case, mentions `mac` and the line has a field.
pub open spec fn mentioned_address(line: Seq<char>, lowered: Seq<char>, mac: Seq<char>) -> Option<
    Seq<char>,
> {
    let words = fields(line, CharClass::Whitespace);
    if contains(lowered, mac) && words.len() > 0 {
        Some(words[0])
    } else {
        None
    }
}

/// The addresses of the table lines that mention `mac`, in order.
pub open spec fn table_addresses(ls: Seq<Seq<char>>, mac: Seq<char>) -> Seq<Seq<char>>
    decreases ls.len(),
{
    if ls.len() == 0 {
        seq![]
    } else {
        table_addresses(ls.drop_last(), mac) + line_address(ls.last(), mac)
    }
}

/// The addresses that the output of `ip neigh` gives for `mac`.
pub open spec fn neighbor_addresses(out: Option<Seq<char>>, mac: Seq<char>) -> Seq<Seq<char>> {
    match out {
        Some(t) => table_addresses(lines(t), mac),
        None => seq![],
    }
}

/// The addresses that `/proc/net/arp`, whose first line is a header, gives for `mac`.
pub open spec fn arp_addresses(out: Option<Seq<char>>, mac: Seq<char>) -> Seq<Seq<char>> {
    match out {
        Some(t) => if lines(t).len() > 0 {
            table_addresses(lines(t).skip(1), mac)
        } else {
            seq![]
        },
        None => seq![],
    }
}

/// The preference of an IPv6 address for probing: unique local first, then
/// global, then link-local, then anything else.
pub open spec fn v6_rank(ip: Seq<char>) -> int {
    if starts_with(ip, "fd"@) {
        0
    } else if starts_with(ip, "24"@) || starts_with(ip, "20"@) {
        1
    } else if starts_with(ip, "fe80"@) {
        2
    } else {
        3
    }
}

/// The addresses of rank `k`, in their order.
pub open spec fn of_rank(c: Seq<Seq<char>>, k: int) -> Seq<Seq<char>>
    decreases c.len(),
{
    if c.len() == 0 {
        seq![]
    } else {
        of_rank(c.drop_last(), k) + if v6_rank(c.last()) == k {
            seq![c.last()]
        } else {
            seq![]
        }
    }
}

/// The addresses stably sorted by preference.
pub open spec fn v6_order(c: Seq<Seq<char>>) -> Seq<Seq<char>> {
    of_rank(c, 0) + of_rank(c, 1) + of_rank(c, 2) + of_rank(c, 3)
}

// ---------------------------------------------------------------------------
// The conversation
// ---------------------------------------------------------------------------

pub open spec fn with_stage(h: HealthView, s: StageView) -> HealthView {
    HealthView { stage: s, ..h }
}

/// The end of a check: the side router is up when an enabled family found
/// an address.
pub open spec fn finish(
    h: HealthView,
    en4: bool,
    v4: Option<Seq<char>>,
    en6: bool,
    v6: Option<Seq<char>>,
) -> (HealthView, ActionView) {
    (
        with_stage(h, StageView::Idle),
        ActionView::Done(
            if (en4 && v4 is Some) || (en6 && v6 is Some) {
                Some(InfoView { mac: h.side_mac, ipv4: v4, ipv6: v6 })
            } else {
                None
            },
        ),
    )
}

/// The start of the IPv6 probe: the last known address first, else a
/// neighbour solicitation.
pub open spec fn begin_v6(h: HealthView, en4: bool, v4: Option<Seq<char>>) -> (
    HealthView,
    ActionView,
) {
    match h.last_known_ipv6 {
        Some(ip) => (with_stage(h, StageView::V6Known { ip, en4, v4 }), ActionView::PingV6(ip)),
        None => (with_stage(h, StageView::V6Solicit { en4, v4 }), ActionView::SolicitV6),
    }
}

/// After the IPv4 probe found `v4`.
pub open spec fn after_v4(h: HealthView, v4: Option<Seq<char>>, en6: bool) -> (
    HealthView,
    ActionView,
) {
    if en6 {
        begin_v6(h, true, v4)
    } else {
        finish(h, true, v4, false, None)
    }
}

/// The start of the IPv4 probe: the configured address if there is one,
/// else the last known address, else the neighbour table.
pub open spec fn begin_v4(h: HealthView, en6: bool) -> (HealthView, ActionView) {
    match h.configured_ipv4 {
        Some(ip) => (with_stage(h, StageView::V4Static { ip, en6 }), ActionView::PingV4(ip)),
        None => match h.last_known_ipv4 {
            Some(ip) => (with_stage(h, StageView::V4Known { ip, en6 }), ActionView::PingV4(ip)),
            None => (with_stage(h, StageView::V4Neighbors { en6 }), ActionView::ReadNeighborsV4),
        },
    }
}

/// Pinging the IPv4 candidates from `next` on; when none is left the
/// address is forgotten and the probe found nothing.
pub open spec fn try_v4(h: HealthView, list: Seq<Seq<char>>, next: int, en6: bool) -> (
    HealthView,
    ActionView,
) {
    if 0 <= next < list.len() {
        (with_stage(h, StageView::V4Candidates { list, next, en6 }), ActionView::PingV4(list[next]))
    } else {
        after_v4(HealthView { last_known_ipv4: None, ..h }, None, en6)
    }
}

/// Pinging the IPv6 candidates from `next` on; when none is left the
/// address is forgotten and the probe found nothing.
pub open spec fn try_v6(
    h: HealthView,
    list: Seq<Seq<char>>,
    next: int,
    en4: bool,
    v4: Option<Seq<char>>,
) -> (HealthView, ActionView) {
    if 0 <= next < list.len() {
        (
            with_stage(h, StageView::V6Candidates { list, next, en4, v4 }),
            ActionView::PingV6(list[next]),
        )
    } else {
        finish(HealthView { last_known_ipv6: None, ..h }, en4, v4, true, None)
    }
}

/// How a check starts.
pub open spec fn check_start(h: HealthView, en4: bool, en6: bool) -> (HealthView, ActionView) {
    if h.side_mac.len() == 0 {
        (with_stage(h, StageView::Idle), ActionView::Done(None))
    } else if en4 {
        begin_v4(h, en6)
    } else if en6 {
        begin_v6(h, false, None)
    } else {
        finish(h, false, None, false, None)
    }
}

pub open spec fn answered(e: EventView) -> bool {
    e matches EventView::Reachable(true)
}

pub open spec fn output_of(e: EventView) -> Option<Seq<char>> {
    match e {
        EventView::Output(o) => o,
        _ => None,
    }
}

/// How a check goes on from the answer `e`. An answer of the other kind than
/// the one asked for counts as a ping that failed or a table that could not
/// be read.
pub open spec fn check_step(h: HealthView, e: EventView) -> (HealthView, ActionView) {
    match h.stage {
        StageView::Idle => (h, ActionView::Done(None)),
        StageView::V4Static { ip, en6 } => if answered(e) {
            after_v4(HealthView { last_known_ipv4: Some(ip), ..h }, Some(ip), en6)
        } else {
            after_v4(h, None, en6)
        },
        StageView::V4Known { ip, en6 } => if answered(e) {
            after_v4(h, Some(ip), en6)
        } else {
            (with_stage(h, StageView::V4Neighbors { en6 }), ActionView::ReadNeighborsV4)
        },
        StageView::V4Neighbors { en6 } => {
            let c = neighbor_addresses(output_of(e), h.side_mac);
            if c.len() > 0 {
                try_v4(h, c, 0, en6)
            } else {
                (with_stage(h, StageView::V4Arp { en6 }), ActionView::ReadArpTable)
            }
        },
        StageView::V4Arp { en6 } => try_v4(h, arp_addresses(output_of(e), h.side_mac), 0, en6),
        StageView::V4Candidates { list, next, en6 } => if answered(e) && 0 <= next < list.len() {
            after_v4(HealthView { last_known_ipv4: Some(list[next]), ..h }, Some(list[next]), en6)
        } else {
            try_v4(h, list, next + 1, en6)
        },
        StageView::V6Known { ip, en4, v4 } => if answered(e) {
            finish(h, en4, v4, true, Some(ip))
        } else {
            (with_stage(h, StageView::V6Solicit { en4, v4 }), ActionView::SolicitV6)
        },
        StageView::V6Solicit { en4, v4 } => (
            with_stage(h, StageView::V6Neighbors { en4, v4 }),
            ActionView::ReadNeighborsV6,
        ),
        StageView::V6Neighbors { en4, v4 } => {
            let c = neighbor_addresses(output_of(e), h.side_mac);
            if c.len() == 0 {
                finish(HealthView { last_known_ipv6: None, ..h }, en4, v4, true, None)
            } else {
                try_v6(h, v6_order(c), 0, en4, v4)
            }
        },
        StageView::V6Candidates { list, next, en4, v4 } => if answered(e) && 0 <= next
            < list.len() {
            finish(
                HealthView { last_known_ipv6: Some(list[next]), ..h },
                en4,
                v4,
                true,
                Some(list[next]),
            )
        } else {
            try_v6(h, list, next + 1, en4, v4)
        },
    }
}

// ---------------------------------------------------------------------------
// Executable parts
// ---------------------------------------------------------------------------

fn clone_opt(o: &Option<String>) -> (r: Option<String>)
    ensures
        opt_view(r) == opt_view(*o),
{
    match o {
        Some(s) => Some(s.clone()),
        None => None,
    }
}

/// The address that a neighbour or ARP table line gives for the MAC address
/// `mac`, given the line and the line in lower case: its first field when the
/// lower-case line mentions `mac`, and none when it does not or has no field.
pub fn address_in_line(line: &str, lowered_line: &str, mac: &str) -> (r: Option<String>)
    ensures
        opt_view(r) == mentioned_address(line@, lowered_line@, mac@),
{
    let v = chars_of(line);
    let words = split_fields(&v, &CharClass::Whitespace);
    if has_substring(&chars_of(lowered_line), &chars_of(mac)) && words.len() > 0 {
        Some(string_of(&words[0]))
    } else {
        None
    }
}

/// The addresses that a neighbour table's lines give for `mac`.
fn addresses_in(ls: &Vec<Vec<char>>, from: usize, mac: &Vec<char>) -> (r: Vec<String>)
    requires
        from <= ls.len(),
    ensures
        string_views(r@) == table_addresses(char_views(ls@).skip(from as int), mac@),
{
    let ghost all = char_views(ls@).skip(from as int);
    let mac_text = string_of(mac);
    let mut r: Vec<String> = Vec::new();
    let mut i: usize = from;
    while i < ls.len()
        invariant
            from <= i <= ls.len(),
            all == char_views(ls@).skip(from as int),
            mac_text@ == mac@,
            string_views(r@) == table_addresses(all.take(i - from), mac@),
        decreases ls.len() - i,
    {
        let ghost before = string_views(r@);
        assert(all.take(i - from + 1).drop_last() == all.take(i - from));
        assert(all.take(i - from + 1).last() == ls[i as int]@);
        let line = string_of(&ls[i]);
        let lower = to_lowercase(line.as_str());
        match address_in_line(line.as_str(), lower.as_str(), mac_text.as_str()) {
            Some(a) => {
                r.push(a);
                assert(string_views(r@) == before + line_address(ls[i as int]@, mac@));
            },
            None => {
                assert(string_views(r@) == before + Seq::<Seq<char>>::empty());
            },
        }
        i = i + 1;
    }
    assert(all.take(ls.len() - from) == all);
    r
}

fn neighbor_list(out: Option<String>, mac: &Vec<char>) -> (r: Vec<String>)
    ensures
        string_views(r@) == neighbor_addresses(opt_view(out), mac@),
{
    match out {
        Some(t) => {
            let ls = split_lines(&chars_of(t.as_str()));
            assert(char_views(ls@).skip(0) == char_views(ls@));
            addresses_in(&ls, 0, mac)
        },
        None => Vec::new(),
    }
}

fn arp_list(out: Option<String>, mac: &Vec<char>) -> (r: Vec<String>)
    ensures
        string_views(r@) == arp_addresses(opt_view(out), mac@),
{
    match out {
        Some(t) => {
            let ls = split_lines(&chars_of(t.as_str()));
            if ls.len() == 0 {
                Vec::new()
            } else {
                addresses_in(&ls, 1, mac)
            }
        },
        None => Vec::new(),
    }
}

fn rank_of(ip: &String) -> (k: u8)
    ensures
        k as int == v6_rank(ip@),
{
    let v = chars_of(ip.as_str());
    if begins_with(&v, "fd") {
        0
    } else if begins_with(&v, "24") || begins_with(&v, "20") {
        1
    } else if begins_with(&v, "fe80") {
        2
    } else {
        3
    }
}

/// The IPv6 candidates stably sorted by preference.
fn order_v6(c: Vec<String>) -> (r: Vec<String>)
    ensures
        string_views(r@) == v6_order(string_views(c@)),
{
    let ghost cv = string_views(c@);
    let mut r: Vec<String> = Vec::new();
    let mut k: u8 = 0;
    while k < 4
        invariant
            k <= 4,
            cv == string_views(c@),
            string_views(r@) == if k == 0 {
                seq![]
            } else if k == 1 {
                of_rank(cv, 0)
            } else if k == 2 {
                of_rank(cv, 0) + of_rank(cv, 1)
            } else if k == 3 {
                of_rank(cv, 0) + of_rank(cv, 1) + of_rank(cv, 2)
            } else {
                v6_order(cv)
            },
        decreases 4 - k,
    {
        let ghost base = string_views(r@);
        let mut i: usize = 0;
        while i < c.len()
            invariant
                i <= c.len(),
                k < 4,
                cv == string_views(c@),
                string_views(r@) == base + of_rank(cv.take(i as int), k as int),
            decreases c.len() - i,
        {
            let ghost before = string_views(r@);
            assert(cv.take(i + 1).drop_last() == cv.take(i as int));
            assert(cv.take(i + 1).last() == c@[i as int]@);
            if rank_of(&c[i]) == k {
                r.push(c[i].clone());
                assert(string_views(r@) == before + seq![c@[i as int]@]);
            } else {
                assert(string_views(r@) == before + Seq::<Seq<char>>::empty());
            }
            i = i + 1;
        }
        assert(cv.take(c.len() as int) == cv);
        k = k + 1;
    }
    r
}

fn answered_exec(e: &ProbeEvent) -> (b: bool)
    ensures
        b == answered(e@),
{
    match e {
        ProbeEvent::Reachable(b) => *b,
        _ => false,
    }
}

fn output_exec(e: ProbeEvent) -> (o: Option<String>)
    ensures
        opt_view(o) == output_of(e@),
{
    match e {
        ProbeEvent::Output(o) => o,
        _ => None,
    }
}

impl HealthChecker {
    /// A checker for the side router with MAC address `side_mac` (kept in
    /// lower case) on `lan_interface`, with a fixed IPv4 address if one is
    /// configured, knowing no addresses yet.
    pub fn new(side_mac: String, lan_interface: String, configured_ipv4: Option<String>) -> (r:
        Self)
        ensures
            r@ == (HealthView {
                side_mac: unicode_lowercase(side_mac@),
                lan_interface: lan_interface@,
                configured_ipv4: opt_view(configured_ipv4),
                last_known_ipv4: None,
                last_known_ipv6: None,
                stage: StageView::Idle,
            }),
    {
        Self {
            side_mac: to_lowercase(side_mac.as_str()),
            lan_interface,
            configured_ipv4,
            last_known_ipv4: None,
            last_known_ipv6: None,
            stage: Stage::Idle,
        }
    }

    /// Takes new parameters. The known addresses are forgotten when the
    /// side router's MAC address (in lower case) changes, and kept otherwise.
    pub fn update_params(
        &mut self,
        side_mac: String,
        lan_interface: String,
        configured_ipv4: Option<String>,
    )
        ensures
            final(self)@.side_mac == unicode_lowercase(side_mac@),
            final(self)@.lan_interface == lan_interface@,
            final(self)@.configured_ipv4 == opt_view(configured_ipv4),
            final(self)@.stage == old(self)@.stage,
            unicode_lowercase(side_mac@) == old(self)@.side_mac ==> final(self)@.last_known_ipv4
                == old(self)@.last_known_ipv4 && final(self)@.last_known_ipv6 == old(
                self,
            )@.last_known_ipv6,
            unicode_lowercase(side_mac@) != old(self)@.side_mac ==> final(self)@.last_known_ipv4
                is None && final(self)@.last_known_ipv6 is None,
    {
        let mac_lower = to_lowercase(side_mac.as_str());
        if !(self.side_mac == mac_lower) {
            self.side_mac = mac_lower;
            self.last_known_ipv4 = None;
            self.last_known_ipv6 = None;
        }
        self.lan_interface = lan_interface;
        self.configured_ipv4 = configured_ipv4;
    }

    /// The LAN interface that probes are sent on.
    pub fn lan_interface(&self) -> (r: &String)
        ensures
            r@ == self@.lan_interface,
    {
        &self.lan_interface
    }

    fn finish_exec(&mut self, en4: bool, v4: Option<String>, en6: bool, v6: Option<String>) -> (a:
        ProbeAction)
        ensures
            (final(self)@, a@) == finish(old(self)@, en4, opt_view(v4), en6, opt_view(v6)),
    {
        self.stage = Stage::Idle;
        if (en4 && v4.is_some()) || (en6 && v6.is_some()) {
            ProbeAction::Done(Some(SideRouterInfo { mac: self.side_mac.clone(), ipv4: v4, ipv6: v6 }))
        } else {
            ProbeAction::Done(None)
        }
    }

    fn begin_v6_exec(&mut self, en4: bool, v4: Option<String>) -> (a: ProbeAction)
        ensures
            (final(self)@, a@) == begin_v6(old(self)@, en4, opt_view(v4)),
    {
        match clone_opt(&self.last_known_ipv6) {
            Some(ip) => {
                self.stage = Stage::V6Known { ip: ip.clone(), en4, v4 };
                ProbeAction::PingV6(ip)
            },
            None => {
                self.stage = Stage::V6Solicit { en4, v4 };
                ProbeAction::SolicitV6
            },
        }
    }

    fn after_v4_exec(&mut self, v4: Option<String>, en6: bool) -> (a: ProbeAction)
        ensures
            (final(self)@, a@) == after_v4(old(self)@, opt_view(v4), en6),
    {
        if en6 {
            self.begin_v6_exec(true, v4)
        } else {
            self.finish_exec(true, v4, false, None)
        }
    }

    fn begin_v4_exec(&mut self, en6: bool) -> (a: ProbeAction)
        ensures
            (final(self)@, a@) == begin_v4(old(self)@, en6),
    {
        match clone_opt(&self.configured_ipv4) {
            Some(ip) => {
                self.stage = Stage::V4Static { ip: ip.clone(), en6 };
                ProbeAction::PingV4(ip)
            },
            None => match clone_opt(&self.last_known_ipv4) {
                Some(ip) => {
                    self.stage = Stage::V4Known { ip: ip.clone(), en6 };
                    ProbeAction::PingV4(ip)
                },
                None => {
                    self.stage = Stage::V4Neighbors { en6 };
                    ProbeAction::ReadNeighborsV4
                },
            },
        }
    }

    fn try_v4_exec(&mut self, list: Vec<String>, next: usize, en6: bool) -> (a: ProbeAction)
        ensures
            (final(self)@, a@) == try_v4(old(self)@, string_views(list@), next as int, en6),
    {
        if next < list.len() {
            let ip = list[next].clone();
            self.stage = Stage::V4Candidates { list, next, en6 };
            ProbeAction::PingV4(ip)
        } else {
            self.last_known_ipv4 = None;
            self.after_v4_exec(None, en6)
        }
    }

    fn try_v6_exec(&mut self, list: Vec<String>, next: usize, en4: bool, v4: Option<String>) -> (a:
        ProbeAction)
        ensures
            (final(self)@, a@) == try_v6(
                old(self)@,
                string_views(list@),
                next as int,
                en4,
                opt_view(v4),
            ),
    {
        if next < list.len() {
            let ip = list[next].clone();
            self.stage = Stage::V6Candidates { list, next, en4, v4 };
            ProbeAction::PingV6(ip)
        } else {
            self.last_known_ipv6 = None;
            self.finish_exec(en4, v4, true, None)
        }
    }

    /// Starts a check of the families that are enabled, and says what to do
    /// first. With no side router MAC address the check is over at once and
    /// finds nothing. IPv4 is probed first: at the configured address alone
    /// if one is configured, else at the last known address and then at the
    /// addresses that the neighbour table (or, when that has none, the ARP
    /// table) gives for the MAC address. IPv6 is probed next: at the last
    /// known address, and then, after a neighbour solicitation, at the
    /// addresses that the IPv6 neighbour table gives, unique local ones
    /// first, then global, then link-local.
    pub fn check(&mut self, enable_v4: bool, enable_v6: bool) -> (a: ProbeAction)
        ensures
            (final(self)@, a@) == check_start(old(self)@, enable_v4, enable_v6),
    {
        if self.side_mac.as_str().is_empty() {
            self.stage = Stage::Idle;
            return ProbeAction::Done(None);
        }
        if enable_v4 {
            self.begin_v4_exec(enable_v6)
        } else if enable_v6 {
            self.begin_v6_exec(false, None)
        } else {
            self.finish_exec(false, None, false, None)
        }
    }

    /// Goes on with the check from the answer to the last action, and says
    /// what to do next.
    #[verifier::rlimit(40)]
    pub fn resume(&mut self, event: ProbeEvent) -> (a: ProbeAction)
        ensures
            (final(self)@, a@) == check_step(old(self)@, event@),
    {
        let ok = answered_exec(&event);
        let mut stage = Stage::Idle;
        std::mem::swap(&mut stage, &mut self.stage);
        let ghost h0 = old(self)@;
        assert(self@ == with_stage(h0, StageView::Idle));
        match stage {
            Stage::Idle => ProbeAction::Done(None),
            Stage::V4Static { ip, en6 } => {
                if ok {
                    self.last_known_ipv4 = Some(ip.clone());
                    self.after_v4_exec(Some(ip), en6)
                } else {
                    self.after_v4_exec(None, en6)
                }
            },
            Stage::V4Known { ip, en6 } => {
                if ok {
                    self.after_v4_exec(Some(ip), en6)
                } else {
                    self.stage = Stage::V4Neighbors { en6 };
                    ProbeAction::ReadNeighborsV4
                }
            },
            Stage::V4Neighbors { en6 } => {
                let mac = chars_of(self.side_mac.as_str());
                let c = neighbor_list(output_exec(event), &mac);
                if c.len() > 0 {
                    self.try_v4_exec(c, 0, en6)
                } else {
                    self.stage = Stage::V4Arp { en6 };
                    ProbeAction::ReadArpTable
                }
            },
            Stage::V4Arp { en6 } => {
                let mac = chars_of(self.side_mac.as_str());
                let c = arp_list(output_exec(event), &mac);
                self.try_v4_exec(c, 0, en6)
            },
            Stage::V4Candidates { list, next, en6 } => {
                if ok && next < list.len() {
                    let ip = list[next].clone();
                    self.last_known_ipv4 = Some(ip.clone());
                    self.after_v4_exec(Some(ip), en6)
                } else if next < list.len() {
                    self.try_v4_exec(list, next + 1, en6)
                } else {
                    self.try_v4_exec(list, next, en6)
                }
            },
            Stage::V6Known { ip, en4, v4 } => {
                if ok {
                    self.finish_exec(en4, v4, true, Some(ip))
                } else {
                    self.stage = Stage::V6Solicit { en4, v4 };
                    ProbeAction::SolicitV6
                }
            },
            Stage::V6Solicit { en4, v4 } => {
                self.stage = Stage::V6Neighbors { en4, v4 };
                ProbeAction::ReadNeighborsV6
            },
            Stage::V6Neighbors { en4, v4 } => {
                let mac = chars_of(self.side_mac.as_str());
                let c = neighbor_list(output_exec(event), &mac);
                if c.len() == 0 {
                    self.last_known_ipv6 = None;
                    self.finish_exec(en4, v4, true, None)
                } else {
                    let sorted = order_v6(c);
                    self.try_v6_exec(sorted, 0, en4, v4)
                }
            },
            Stage::V6Candidates { list, next, en4, v4 } => {
                if ok && next < list.len() {
                    let ip = list[next].clone();
                    self.last_known_ipv6 = Some(ip.clone());
                    self.finish_exec(en4, v4, true, Some(ip))
                } else if next < list.len() {
                    self.try_v6_exec(list, next + 1, en4, v4)
                } else {
                    self.try_v6_exec(list, next, en4, v4)
                }
            },
        }
    }
}


// ---------------------------------------------------------------------------
// Laws of the conversation
// ---------------------------------------------------------------------------

/// The side router is reported up only with the MAC address being checked
/// and with at least one address.
pub open spec fn sound_result(h: HealthView, a: ActionView) -> bool {
    a matches ActionView::Done(Some(info)) ==> (info.mac == h.side_mac && (info.ipv4 is Some
        || info.ipv6 is Some))
}

/// A check reports the side router up only with the MAC address it checks
/// and at least one address found in an enabled family.
pub proof fn lemma_found_router_is_sound(h: HealthView, en4: bool, en6: bool, e: EventView)
    ensures
        sound_result(h, check_start(h, en4, en6).1),
        sound_result(h, check_step(h, e).1),
{
}

/// The addresses that a check in progress relies on are the remembered ones.
pub open spec fn remembers(h: HealthView) -> bool {
    match h.stage {
        StageView::V4Known { ip, .. } => h.last_known_ipv4 == Some(ip),
        StageView::V6Known { ip, v4, .. } => h.last_known_ipv6 == Some(ip) && (v4 is Some
            ==> h.last_known_ipv4 == v4),
        StageView::V6Solicit { v4, .. } => v4 is Some ==> h.last_known_ipv4 == v4,
        StageView::V6Neighbors { v4, .. } => v4 is Some ==> h.last_known_ipv4 == v4,
        StageView::V6Candidates { v4, .. } => v4 is Some ==> h.last_known_ipv4 == v4,
        _ => true,
    }
}

/// Where a check found the side router, the next check looks first: the
/// addresses that a check reports are the ones remembered, and every step of
/// a check keeps what is remembered consistent with it.
pub proof fn lemma_found_addresses_remembered(h: HealthView, en4: bool, en6: bool, e: EventView)
    ensures
        remembers(check_start(h, en4, en6).0),
        remembers(h) ==> remembers(check_step(h, e).0),
        remembers(h) ==> (check_step(h, e).1 matches ActionView::Done(Some(info)) ==> ((
        info.ipv4 is Some ==> check_step(h, e).0.last_known_ipv4 == info.ipv4) && (info.ipv6 is Some
            ==> check_step(h, e).0.last_known_ipv6 == info.ipv6))),
{
    lemma_start_remembers(h, en4, en6);
    if remembers(h) {
        lemma_step_remembers(h, e);
    }
}

proof fn lemma_start_remembers(h: HealthView, en4: bool, en6: bool)
    ensures
        remembers(check_start(h, en4, en6).0),
{
}

#[verifier::rlimit(30)]
proof fn lemma_step_remembers(h: HealthView, e: EventView)
    requires
        remembers(h),
    ensures
        remembers(check_step(h, e).0),
        check_step(h, e).1 matches ActionView::Done(Some(info)) ==> ((info.ipv4 is Some
            ==> check_step(h, e).0.last_known_ipv4 == info.ipv4) && (info.ipv6 is Some
            ==> check_step(h, e).0.last_known_ipv6 == info.ipv6)),
{
    match h.stage {
        StageView::Idle => {},
        StageView::V4Static { .. } => {},
        StageView::V4Known { .. } => {},
        StageView::V4Neighbors { .. } => {},
        StageView::V4Arp { .. } => {},
        StageView::V4Candidates { .. } => {},
        StageView::V6Known { .. } => {},
        StageView::V6Solicit { .. } => {},
        StageView::V6Neighbors { .. } => {},
        StageView::V6Candidates { .. } => {},
    }
}

/// The next check of a side router whose IPv4 address is remembered, with no
/// fixed address configured, starts by pinging that address.
pub proof fn lemma_remembered_ipv4_probed_first(h: HealthView, en6: bool)
    requires
        h.side_mac.len() > 0,
        h.configured_ipv4 is None,
        h.last_known_ipv4 is Some,
    ensures
        check_start(h, true, en6).1 == ActionView::PingV4(h.last_known_ipv4->0),
{
}

/// With a fixed IPv4 address configured, the IPv4 probe pings that address
/// and nothing else: whatever the answer, no neighbour or ARP table is read
/// and no other IPv4 address is pinged.
pub proof fn lemma_static_ipv4_only(h: HealthView, en6: bool, e: EventView)
    requires
        h.side_mac.len() > 0,
        h.configured_ipv4 is Some,
    ensures
        check_start(h, true, en6).1 == ActionView::PingV4(h.configured_ipv4->0),
        !(check_step(check_start(h, true, en6).0, e).1 is ReadNeighborsV4),
        !(check_step(check_start(h, true, en6).0, e).1 is ReadArpTable),
        !(check_step(check_start(h, true, en6).0, e).1 is PingV4),
{
}

/// How far a check is from its end: the stage, counted down from the first
/// IPv4 probe to the end, and the candidates left to ping in a stage that
/// pings candidates.
pub open spec fn probe_measure(h: HealthView) -> (nat, nat) {
    match h.stage {
        StageView::Idle => (0, 0),
        StageView::V6Candidates { list, next, .. } => (
            1,
            if next < list.len() {
                (list.len() - next) as nat
            } else {
                0
            },
        ),
        StageView::V6Neighbors { .. } => (2, 0),
        StageView::V6Solicit { .. } => (3, 0),
        StageView::V6Known { .. } => (4, 0),
        StageView::V4Candidates { list, next, .. } => (
            5,
            if next < list.len() {
                (list.len() - next) as nat
            } else {
                0
            },
        ),
        StageView::V4Arp { .. } => (6, 0),
        StageView::V4Neighbors { .. } => (7, 0),
        StageView::V4Known { .. } => (8, 0),
        StageView::V4Static { .. } => (9, 0),
    }
}

/// `a` comes before `b` in the lexicographic order of pairs of naturals.
pub open spec fn measure_below(a: (nat, nat), b: (nat, nat)) -> bool {
    a.0 < b.0 || (a.0 == b.0 && a.1 < b.1)
}

/// Every check ends: each answer that does not end the check moves it
/// strictly down a well-founded order, and a check that ends is left idle.
pub proof fn lemma_check_terminates(h: HealthView, en4: bool, en6: bool, e: EventView)
    ensures
        check_start(h, en4, en6).1 is Done ==> check_start(h, en4, en6).0.stage is Idle,
        check_step(h, e).1 is Done ==> check_step(h, e).0.stage is Idle,
        !(check_step(h, e).1 is Done) ==> measure_below(
            probe_measure(check_step(h, e).0),
            probe_measure(h),
        ),
{
    lemma_step_measure(h, e);
}

#[verifier::rlimit(30)]
proof fn lemma_step_measure(h: HealthView, e: EventView)
    ensures
        check_step(h, e).1 is Done ==> check_step(h, e).0.stage is Idle,
        !(check_step(h, e).1 is Done) ==> measure_below(
            probe_measure(check_step(h, e).0),
            probe_measure(h),
        ),
{
    match h.stage {
        StageView::Idle => {},
        StageView::V4Static { .. } => {},
        StageView::V4Known { .. } => {},
        StageView::V4Neighbors { .. } => {},
        StageView::V4Arp { .. } => {},
        StageView::V4Candidates { .. } => {},
        StageView::V6Known { .. } => {},
        StageView::V6Solicit { .. } => {},
        StageView::V6Neighbors { .. } => {},
        StageView::V6Candidates { .. } => {},
    }
}

/// The IPv4 address that the IPv4 probe of a check in its IPv6 part found,
/// with IPv4 enabled.
pub open spec fn ipv4_found(h: HealthView) -> Option<Seq<char>> {
    match h.stage {
        StageView::V6Known { en4, v4, .. } => if en4 {
            v4
        } else {
            None
        },
        StageView::V6Solicit { en4, v4 } => if en4 {
            v4
        } else {
            None
        },
        StageView::V6Neighbors { en4, v4 } => if en4 {
            v4
        } else {
            None
        },
        StageView::V6Candidates { en4, v4, .. } => if en4 {
            v4
        } else {
            None
        },
        _ => None,
    }
}

/// Once the IPv4 probe found an address, the check can only end with the
/// side router reported up at that address, whatever the IPv6 probe finds;
/// with no IPv6 address found the result has none.
pub proof fn lemma_ipv4_found_reports_up(h: HealthView, e: EventView)
    requires
        ipv4_found(h) is Some,
    ensures
        check_step(h, e).1 is Done ==> (check_step(h, e).1 matches ActionView::Done(Some(info))
            && info.ipv4 == ipv4_found(h) && info.mac == h.side_mac),
        h.stage is V6Neighbors && neighbor_addresses(output_of(e), h.side_mac).len() == 0
            ==> check_step(h, e).1 == ActionView::Done(
            Some(InfoView { mac: h.side_mac, ipv4: ipv4_found(h), ipv6: None }),
        ),
{
}

/// With IPv6 disabled, an IPv4 address that answers ends the check with the
/// side router reported up at that address.
pub proof fn lemma_ipv4_only_answer_reports_up(h: HealthView, e: EventView)
    requires
        answered(e),
    ensures
        match h.stage {
            StageView::V4Static { ip, en6 } => !en6 ==> check_step(h, e).1 == ActionView::Done(
                Some(InfoView { mac: h.side_mac, ipv4: Some(ip), ipv6: None }),
            ),
            StageView::V4Known { ip, en6 } => !en6 ==> check_step(h, e).1 == ActionView::Done(
                Some(InfoView { mac: h.side_mac, ipv4: Some(ip), ipv6: None }),
            ),
            _ => true,
        },
{
}

/// A remembered IPv4 address that no longer answers is not the end of the
/// IPv4 probe: the neighbour table is read again to find the side router's
/// new address.
pub proof fn lemma_dead_remembered_ipv4_rediscovered(h: HealthView, en6: bool, e: EventView)
    requires
        h.side_mac.len() > 0,
        h.configured_ipv4 is None,
        h.last_known_ipv4 is Some,
        !answered(e),
    ensures
        check_start(h, true, en6).1 == ActionView::PingV4(h.last_known_ipv4->0),
        check_step(check_start(h, true, en6).0, e).1 == ActionView::ReadNeighborsV4,
{
}

} // verus!
