//! Dual-stack policy routing: the `ip` commands and kernel settings that send
//! marked traffic to the side router through a routing table of its own,
//! while private, link-local and multicast destinations keep the main table.
use vstd::prelude::*;
use vstd::string::*;
use crate::text::{decimal, push_decimal, string_views};

verus! {

/// One step of a routing plan.
pub enum RouteStep {
    /// Run `ip` with these arguments. A checked step that fails ends the plan
    /// with an error; the failure of an unchecked one is ignored.
    Ip { args: Vec<String>, checked: bool },
    /// Write `value` to the file at `path`, ignoring any failure.
    Write { path: String, value: String },
}

/// The value of a `RouteStep`.
pub enum StepView {
    Ip { args: Seq<Seq<char>>, checked: bool },
    Write { path: Seq<char>, value: Seq<char> },
}

impl View for RouteStep {
    type V = StepView;

    open spec fn view(&self) -> StepView {
        match self {
            RouteStep::Ip { args, checked } => StepView::Ip {
                args: string_views(args@),
                checked: *checked,
            },
            RouteStep::Write { path, value } => StepView::Write { path: path@, value: value@ },
        }
    }
}

pub open spec fn steps_view(v: Seq<RouteStep>) -> Seq<StepView> {
    v.map_values(|s: RouteStep| s@)
}

/// An address family.
pub enum Family {
    V4,
    V6,
}

pub open spec fn family_flag(f: Family) -> Seq<char> {
    match f {
        Family::V4 => "-4"@,
        Family::V6 => "-6"@,
    }
}

/// The destinations that keep the main table, with the preference of the rule
/// for each: private, multicast and link-local ranges.
pub open spec fn direct_ranges(f: Family) -> Seq<(Seq<char>, Seq<char>)> {
    match f {
        Family::V4 => seq![
            ("10.0.0.0/8"@, "9990"@),
            ("172.16.0.0/12"@, "9991"@),
            ("192.168.0.0/16"@, "9992"@),
            ("224.0.0.0/4"@, "9993"@),
        ],
        Family::V6 => seq![("fe80::/10"@, "9990"@), ("fc00::/7"@, "9991"@), ("ff00::/8"@, "9992"@)],
    }
}

pub open spec fn quiet(args: Seq<Seq<char>>) -> StepView {
    StepView::Ip { args, checked: false }
}

pub open spec fn checked(args: Seq<Seq<char>>) -> StepView {
    StepView::Ip { args, checked: true }
}

/// `ip <family> rule <op> to <range> table main pref <pref>` for each direct range.
pub open spec fn direct_rules(f: Family, op: Seq<char>) -> Seq<StepView> {
    direct_ranges(f).map_values(
        |r: (Seq<char>, Seq<char>)|
            quiet(seq![family_flag(f), "rule"@, op, "to"@, r.0, "table"@, "main"@, "pref"@, r.1]),
    )
}

/// How a plan goes on after one of its steps was carried out.
pub enum PlanProgress {
    /// Carry out the step at this index next.
    Next(usize),
    /// The plan is done and succeeded.
    Finished,
    /// A checked step failed: the plan ends with its error.
    Failed,
}

pub enum ProgressView {
    Next(int),
    Finished,
    Failed,
}

impl View for PlanProgress {
    type V = ProgressView;

    open spec fn view(&self) -> ProgressView {
        match self {
            PlanProgress::Next(i) => ProgressView::Next(*i as int),
            PlanProgress::Finished => ProgressView::Finished,
            PlanProgress::Failed => ProgressView::Failed,
        }
    }
}

/// After step `i` of `plan` was carried out, and failed or not: a failed
/// checked step ends the plan with its error; the failure of any other step
/// is ignored, and the plan goes on with the next step, or is done after the
/// last one.
pub open spec fn plan_progress(plan: Seq<StepView>, i: int, failed: bool) -> ProgressView {
    if 0 <= i < plan.len() && failed && plan[i] matches StepView::Ip { checked: true, .. } {
        ProgressView::Failed
    } else if 0 <= i && i + 1 < plan.len() {
        ProgressView::Next(i + 1)
    } else {
        ProgressView::Finished
    }
}

/// Where a plan goes after its step `i` was carried out.
pub fn next_step(plan: &Vec<RouteStep>, i: usize, failed: bool) -> (r: PlanProgress)
    ensures
        r@ == plan_progress(steps_view(plan@), i as int, failed),
{
    if i < plan.len() && failed {
        if let RouteStep::Ip { checked: true, .. } = &plan[i] {
            return PlanProgress::Failed;
        }
    }
    if i < plan.len() && i + 1 < plan.len() {
        PlanProgress::Next(i + 1)
    } else {
        PlanProgress::Finished
    }
}

/// The value of a routing manager: its table, its firewall mark and the LAN interface.
pub struct RoutingView {
    pub table_id: u32,
    pub mark_id: u32,
    pub lan_interface: Seq<char>,
}

/// Sets up and tears down the policy routing towards the side router.
pub struct RoutingManager {
    table_id: u32,
    mark_id: u32,
    lan_interface: String,
}

impl View for RoutingManager {
    type V = RoutingView;

    closed spec fn view(&self) -> RoutingView {
        RoutingView {
            table_id: self.table_id,
            mark_id: self.mark_id,
            lan_interface: self.lan_interface@,
        }
    }
}

pub open spec fn table_text(m: RoutingView) -> Seq<char> {
    decimal(m.table_id as nat)
}

pub open spec fn mark_text(m: RoutingView) -> Seq<char> {
    decimal(m.mark_id as nat)
}

/// Turning ICMP redirects off on all interfaces, by default and on the LAN
/// interface, so that clients are not told to bypass the side router.
pub open spec fn redirect_steps(m: RoutingView) -> Seq<StepView> {
    seq![
        StepView::Write { path: "/proc/sys/net/ipv4/conf/all/send_redirects"@, value: "0"@ },
        StepView::Write { path: "/proc/sys/net/ipv4/conf/default/send_redirects"@, value: "0"@ },
        StepView::Write {
            path: "/proc/sys/net/ipv4/conf/"@ + m.lan_interface + "/send_redirects"@,
            value: "0"@,
        },
    ]
}

/// The rule that sends marked packets to the side router's table, and its
/// removal.
pub open spec fn mark_rule(m: RoutingView, f: Family, op: Seq<char>) -> Seq<Seq<char>> {
    seq![family_flag(f), "rule"@, op, "fwmark"@, mark_text(m), "table"@, table_text(m)]
}

/// Routing one family through the side router at `via`: the direct ranges
/// first, then the mark rule replaced, then the table's routes replaced by a
/// default route via the side router.
pub open spec fn enable_steps(m: RoutingView, f: Family, via: Seq<char>) -> Seq<StepView> {
    direct_rules(f, "add"@) + seq![
        quiet(mark_rule(m, f, "del"@)),
        checked(mark_rule(m, f, "add"@).push("pref"@).push("10000"@)),
        quiet(seq![family_flag(f), "route"@, "flush"@, "table"@, table_text(m)]),
        checked(
            seq![
                family_flag(f),
                "route"@,
                "add"@,
                "default"@,
                "via"@,
                via,
                "dev"@,
                m.lan_interface,
                "table"@,
                table_text(m),
            ],
        ),
    ]
}

/// Removing everything that `enable_steps` sets up for one family.
pub open spec fn clear_steps(m: RoutingView, f: Family) -> Seq<StepView> {
    seq![
        quiet(mark_rule(m, f, "del"@)),
        quiet(seq![family_flag(f), "route"@, "flush"@, "table"@, table_text(m)]),
    ] + direct_rules(f, "del"@)
}

/// The steps for one family: routing through the side router when the family
/// is enabled and the side router has an address in it, nothing when it is
/// enabled without an address, and a clean-up when it is disabled.
pub open spec fn family_steps(
    m: RoutingView,
    f: Family,
    enabled: bool,
    via: Option<Seq<char>>,
) -> Seq<StepView> {
    if enabled {
        match via {
            Some(v) => enable_steps(m, f, v),
            None => seq![],
        }
    } else {
        clear_steps(m, f)
    }
}

pub open spec fn opt_str_view(o: Option<&str>) -> Option<Seq<char>> {
    match o {
        Some(s) => Some(s@),
        None => None,
    }
}

/// Appends `s` to the argument list `v`.
fn arg(v: &mut Vec<String>, s: &str)
    ensures
        string_views(final(v)@) == string_views(old(v)@).push(s@),
{
    v.push(String::from_str(s));
    assert(string_views(v@) == string_views(old(v)@).push(s@));
}

/// Appends an owned argument to the argument list `v`.
fn arg_owned(v: &mut Vec<String>, s: String)
    ensures
        string_views(final(v)@) == string_views(old(v)@).push(s@),
{
    let ghost sv = s@;
    v.push(s);
    assert(string_views(v@) == string_views(old(v)@).push(sv));
}

fn add_step(plan: &mut Vec<RouteStep>, step: RouteStep)
    ensures
        steps_view(final(plan)@) == steps_view(old(plan)@).push(step@),
{
    let ghost sv = step@;
    plan.push(step);
    assert(steps_view(plan@) == steps_view(old(plan)@).push(sv));
}

fn flag_text(f: &Family) -> (s: &'static str)
    ensures
        s@ == family_flag(*f),
{
    match f {
        Family::V4 => "-4",
        Family::V6 => "-6",
    }
}

impl RoutingManager {
    pub fn new(table_id: u32, mark_id: u32, lan_interface: String) -> (r: Self)
        ensures
            r@ == (RoutingView { table_id, mark_id, lan_interface: lan_interface@ }),
    {
        Self { table_id, mark_id, lan_interface }
    }

    pub fn update_params(&mut self, table_id: u32, mark_id: u32, lan_interface: String)
        ensures
            final(self)@ == (RoutingView { table_id, mark_id, lan_interface: lan_interface@ }),
    {
        self.table_id = table_id;
        self.mark_id = mark_id;
        self.lan_interface = lan_interface;
    }

    fn table_string(&self) -> (s: String)
        ensures
            s@ == table_text(self@),
    {
        let mut s = String::new();
        push_decimal(&mut s, self.table_id as u64);
        s
    }

    fn mark_string(&self) -> (s: String)
        ensures
            s@ == mark_text(self@),
    {
        let mut s = String::new();
        push_decimal(&mut s, self.mark_id as u64);
        s
    }

    #[verifier::rlimit(40)]
    fn push_direct_rules(&self, plan: &mut Vec<RouteStep>, f: &Family, op: &str)
        ensures
            steps_view(final(plan)@) == steps_view(old(plan)@) + direct_rules(*f, op@),
    {
        let ghost want = direct_rules(*f, op@);
        let ghost ranges = direct_ranges(*f);
        let n: usize = match f {
            Family::V4 => 4,
            Family::V6 => 3,
        };
        let mut i: usize = 0;
        while i < n
            invariant
                i <= n == ranges.len(),
                want == direct_rules(*f, op@),
                ranges == direct_ranges(*f),
                steps_view(plan@) == steps_view(old(plan)@) + want.take(i as int),
            decreases n - i,
        {
            let (dest, pref): (&str, &str) = match f {
                Family::V4 => {
                    if i == 0 {
                        ("10.0.0.0/8", "9990")
                    } else if i == 1 {
                        ("172.16.0.0/12", "9991")
                    } else if i == 2 {
                        ("192.168.0.0/16", "9992")
                    } else {
                        ("224.0.0.0/4", "9993")
                    }
                },
                Family::V6 => {
                    if i == 0 {
                        ("fe80::/10", "9990")
                    } else if i == 1 {
                        ("fc00::/7", "9991")
                    } else {
                        ("ff00::/8", "9992")
                    }
                },
            };
            assert(dest@ == ranges[i as int].0 && pref@ == ranges[i as int].1);
            let mut a: Vec<String> = Vec::new();
            arg(&mut a, flag_text(f));
            arg(&mut a, "rule");
            arg(&mut a, op);
            arg(&mut a, "to");
            arg(&mut a, dest);
            arg(&mut a, "table");
            arg(&mut a, "main");
            arg(&mut a, "pref");
            arg(&mut a, pref);
            let ghost args = seq![
                family_flag(*f),
                "rule"@,
                op@,
                "to"@,
                ranges[i as int].0,
                "table"@,
                "main"@,
                "pref"@,
                ranges[i as int].1,
            ];
            assert(string_views(a@) == args);
            assert(want[i as int] == quiet(args));
            add_step(plan, RouteStep::Ip { args: a, checked: false });
            assert(want.take(i + 1) == want.take(i as int).push(want[i as int]));
            i = i + 1;
        }
        assert(want.take(n as int) == want);
    }

    fn push_mark_rule(&self, plan: &mut Vec<RouteStep>, f: &Family, op: &str, pref: bool)
        ensures
            steps_view(final(plan)@) == steps_view(old(plan)@).push(
                if pref {
                    checked(mark_rule(self@, *f, op@).push("pref"@).push("10000"@))
                } else {
                    quiet(mark_rule(self@, *f, op@))
                },
            ),
    {
        let mut a: Vec<String> = Vec::new();
        arg(&mut a, flag_text(f));
        arg(&mut a, "rule");
        arg(&mut a, op);
        arg(&mut a, "fwmark");
        arg_owned(&mut a, self.mark_string());
        arg(&mut a, "table");
        arg_owned(&mut a, self.table_string());
        assert(string_views(a@) == mark_rule(self@, *f, op@));
        if pref {
            arg(&mut a, "pref");
            arg(&mut a, "10000");
        }
        add_step(plan, RouteStep::Ip { args: a, checked: pref });
    }

    fn push_flush(&self, plan: &mut Vec<RouteStep>, f: &Family)
        ensures
            steps_view(final(plan)@) == steps_view(old(plan)@).push(
                quiet(seq![family_flag(*f), "route"@, "flush"@, "table"@, table_text(self@)]),
            ),
    {
        let mut a: Vec<String> = Vec::new();
        arg(&mut a, flag_text(f));
        arg(&mut a, "route");
        arg(&mut a, "flush");
        arg(&mut a, "table");
        arg_owned(&mut a, self.table_string());
        assert(string_views(a@) == seq![
            family_flag(*f),
            "route"@,
            "flush"@,
            "table"@,
            table_text(self@),
        ]);
        add_step(plan, RouteStep::Ip { args: a, checked: false });
    }

    #[verifier::rlimit(40)]
    fn push_enable(&self, plan: &mut Vec<RouteStep>, f: &Family, via: &str)
        ensures
            steps_view(final(plan)@) == steps_view(old(plan)@) + enable_steps(self@, *f, via@),
    {
        let ghost start = steps_view(plan@);
        self.push_direct_rules(plan, f, "add");
        self.push_mark_rule(plan, f, "del", false);
        self.push_mark_rule(plan, f, "add", true);
        self.push_flush(plan, f);
        let mut a: Vec<String> = Vec::new();
        arg(&mut a, flag_text(f));
        arg(&mut a, "route");
        arg(&mut a, "add");
        arg(&mut a, "default");
        arg(&mut a, "via");
        arg(&mut a, via);
        arg(&mut a, "dev");
        arg_owned(&mut a, self.lan_interface.clone());
        arg(&mut a, "table");
        arg_owned(&mut a, self.table_string());
        assert(string_views(a@) == seq![
            family_flag(*f),
            "route"@,
            "add"@,
            "default"@,
            "via"@,
            via@,
            "dev"@,
            self@.lan_interface,
            "table"@,
            table_text(self@),
        ]);
        add_step(plan, RouteStep::Ip { args: a, checked: true });
        assert(steps_view(plan@) == start + enable_steps(self@, *f, via@));
    }

    fn push_clear(&self, plan: &mut Vec<RouteStep>, f: &Family)
        ensures
            steps_view(final(plan)@) == steps_view(old(plan)@) + clear_steps(self@, *f),
    {
        let ghost start = steps_view(plan@);
        self.push_mark_rule(plan, f, "del", false);
        self.push_flush(plan, f);
        let ghost mid = steps_view(plan@);
        self.push_direct_rules(plan, f, "del");
        assert(steps_view(plan@) == start + clear_steps(self@, *f));
    }

    fn push_family(
        &self,
        plan: &mut Vec<RouteStep>,
        f: &Family,
        enabled: bool,
        via: Option<&str>,
    )
        ensures
            steps_view(final(plan)@) == steps_view(old(plan)@) + family_steps(
                self@,
                *f,
                enabled,
                opt_str_view(via),
            ),
    {
        if enabled {
            if let Some(v) = via {
                self.push_enable(plan, f, v);
            } else {
                assert(steps_view(plan@) == steps_view(old(plan)@) + Seq::<StepView>::empty());
            }
        } else {
            self.push_clear(plan, f);
        }
    }

    fn push_redirects(&self, plan: &mut Vec<RouteStep>)
        ensures
            steps_view(final(plan)@) == steps_view(old(plan)@) + redirect_steps(self@),
    {
        let ghost start = steps_view(plan@);
        add_step(
            plan,
            RouteStep::Write {
                path: String::from_str("/proc/sys/net/ipv4/conf/all/send_redirects"),
                value: String::from_str("0"),
            },
        );
        add_step(
            plan,
            RouteStep::Write {
                path: String::from_str("/proc/sys/net/ipv4/conf/default/send_redirects"),
                value: String::from_str("0"),
            },
        );
        let mut path = String::from_str("/proc/sys/net/ipv4/conf/");
        path.append(self.lan_interface.as_str());
        path.append("/send_redirects");
        add_step(plan, RouteStep::Write { path, value: String::from_str("0") });
        assert(steps_view(plan@) == start + redirect_steps(self@));
    }

    /// The steps that route the enabled families through the side router:
    /// ICMP redirects turned off, then for IPv4 and then IPv6 the family's
    /// routing set up when it is enabled and the side router has an address
    /// in it, or removed when the family is disabled.
    pub fn apply_routing(
        &self,
        enable_ipv4: bool,
        side_ipv4: Option<&str>,
        enable_ipv6: bool,
        side_ipv6: Option<&str>,
    ) -> (plan: Vec<RouteStep>)
        ensures
            steps_view(plan@) == redirect_steps(self@) + family_steps(
                self@,
                Family::V4,
                enable_ipv4,
                opt_str_view(side_ipv4),
            ) + family_steps(self@, Family::V6, enable_ipv6, opt_str_view(side_ipv6)),
    {
        let mut plan: Vec<RouteStep> = Vec::new();
        assert(steps_view(plan@) == Seq::<StepView>::empty());
        self.push_redirects(&mut plan);
        self.push_family(&mut plan, &Family::V4, enable_ipv4, side_ipv4);
        self.push_family(&mut plan, &Family::V6, enable_ipv6, side_ipv6);
        plan
    }

    /// The steps that remove all routing towards the side router, for IPv4
    /// and then IPv6.
    pub fn clear_routing(&self) -> (plan: Vec<RouteStep>)
        ensures
            steps_view(plan@) == clear_steps(self@, Family::V4) + clear_steps(self@, Family::V6),
    {
        let mut plan: Vec<RouteStep> = Vec::new();
        assert(steps_view(plan@) == Seq::<StepView>::empty());
        self.push_clear(&mut plan, &Family::V4);
        self.push_clear(&mut plan, &Family::V6);
        plan
    }
}

/// The arguments of the rule for the `i`-th direct range, with operation `op`.
pub open spec fn direct_rule_args(f: Family, op: Seq<char>, i: int) -> Seq<Seq<char>> {
    seq![
        family_flag(f),
        "rule"@,
        op,
        "to"@,
        direct_ranges(f)[i].0,
        "table"@,
        "main"@,
        "pref"@,
        direct_ranges(f)[i].1,
    ]
}

/// Clearing a family undoes what routing it through the side router sets up:
/// each direct-range rule that is added is deleted with the same range and
/// preference, the mark rule that is added is deleted, and the table whose
/// default route is replaced is flushed.
pub proof fn lemma_clear_undoes_enable(m: RoutingView, f: Family, via: Seq<char>)
    ensures
        forall|i: int|
            0 <= i < direct_ranges(f).len() ==> enable_steps(m, f, via).contains(
                quiet(#[trigger] direct_rule_args(f, "add"@, i)),
            ) && clear_steps(m, f).contains(quiet(direct_rule_args(f, "del"@, i))),
        enable_steps(m, f, via).contains(
            checked(mark_rule(m, f, "add"@).push("pref"@).push("10000"@)),
        ),
        clear_steps(m, f).contains(quiet(mark_rule(m, f, "del"@))),
        clear_steps(m, f).contains(
            quiet(seq![family_flag(f), "route"@, "flush"@, "table"@, table_text(m)]),
        ),
{
    let e = enable_steps(m, f, via);
    let c = clear_steps(m, f);
    let n = direct_ranges(f).len() as int;
    assert forall|i: int| 0 <= i < n implies e.contains(
        quiet(#[trigger] direct_rule_args(f, "add"@, i)),
    ) && c.contains(quiet(direct_rule_args(f, "del"@, i))) by {
        assert(e[i] == direct_rules(f, "add"@)[i]);
        assert(e[i] == quiet(direct_rule_args(f, "add"@, i)));
        assert(c[i + 2] == direct_rules(f, "del"@)[i]);
        assert(c[i + 2] == quiet(direct_rule_args(f, "del"@, i)));
    }
    assert(e[n + 1] == checked(mark_rule(m, f, "add"@).push("pref"@).push("10000"@)));
    assert(c[0] == quiet(mark_rule(m, f, "del"@)));
    assert(c[1] == quiet(seq![family_flag(f), "route"@, "flush"@, "table"@, table_text(m)]));
}

/// A disabled family is cleared, whatever address the side router has in it.
pub proof fn lemma_disabled_family_cleared(m: RoutingView, f: Family, via: Option<Seq<char>>)
    ensures
        family_steps(m, f, false, via) == clear_steps(m, f),
{
}

} // verus!
