//! The daemon's configuration: its defaults, the UCI text format that
//! `/etc/config/sideroute` is written in, and the normal form of MAC addresses.
use vstd::prelude::*;
use vstd::string::*;
use crate::text::{
    CharClass, all_ascii, ascii_lowered, begins_with, char_views, is_ws, lemma_ascii_lower_keeps_ws,
    lemma_ascii_lowered, lemma_first_field_starts_text, lemma_trimmed_ends, lemma_trimmed_fixed, lemma_lines_append, lemma_single_line,
    lemma_trim_drops_trailing_ws, line_scan, strip_cr, chars_of, eq_ignore_ascii_case, fields, is_text,
    is_text_ignoring_case, join, join_chars, lines, opt_view, parse_u32, parse_u64,
    parse_unsigned, same_chars, split_fields, split_lines, starts_with, string_of, string_views,
    to_lowercase, trim, trimmed, unicode_lowercase,
};

verus! {

/// The configuration of the side-route daemon.
#[derive(Debug, Clone)]
pub struct AppConfig {
    pub enabled: bool,
    pub side_router_mac: String,
    pub side_router_ipv4: Option<String>,
    pub table_id: u32,
    pub mark_id: u32,
    pub wan_interface: String,
    pub lan_interface: String,
    pub check_interval_secs: u64,
    pub hijack_dns: bool,
    pub enable_ipv4: bool,
    pub enable_ipv6: bool,
    pub client_macs: Vec<String>,
}

/// The mathematical value of an `AppConfig`: its strings as character sequences.
#[verifier::ext_equal]
pub struct ConfigView {
    pub enabled: bool,
    pub side_router_mac: Seq<char>,
    pub side_router_ipv4: Option<Seq<char>>,
    pub table_id: u32,
    pub mark_id: u32,
    pub wan_interface: Seq<char>,
    pub lan_interface: Seq<char>,
    pub check_interval_secs: u64,
    pub hijack_dns: bool,
    pub enable_ipv4: bool,
    pub enable_ipv6: bool,
    pub client_macs: Seq<Seq<char>>,
}

impl View for AppConfig {
    type V = ConfigView;

    open spec fn view(&self) -> ConfigView {
        ConfigView {
            enabled: self.enabled,
            side_router_mac: self.side_router_mac@,
            side_router_ipv4: opt_view(self.side_router_ipv4),
            table_id: self.table_id,
            mark_id: self.mark_id,
            wan_interface: self.wan_interface@,
            lan_interface: self.lan_interface@,
            check_interval_secs: self.check_interval_secs,
            hijack_dns: self.hijack_dns,
            enable_ipv4: self.enable_ipv4,
            enable_ipv6: self.enable_ipv6,
            client_macs: string_views(self.client_macs@),
        }
    }
}

/// The configuration used where nothing is configured.
pub open spec fn default_view() -> ConfigView {
    ConfigView {
        enabled: true,
        side_router_mac: seq![],
        side_router_ipv4: None,
        table_id: 200,
        mark_id: 1,
        wan_interface: "pppoe-wan"@,
        lan_interface: "br-lan"@,
        check_interval_secs: 3,
        hijack_dns: true,
        enable_ipv4: true,
        enable_ipv6: true,
        client_macs: seq![],
    }
}

pub fn default_enabled() -> (b: bool)
    ensures
        b,
{
    true
}

pub fn default_side_router_mac() -> (s: String)
    ensures
        s@ == Seq::<char>::empty(),
{
    String::new()
}

pub fn default_table_id() -> (v: u32)
    ensures
        v == 200,
{
    200
}

pub fn default_mark_id() -> (v: u32)
    ensures
        v == 1,
{
    1
}

pub fn default_wan_interface() -> (s: String)
    ensures
        s@ == "pppoe-wan"@,
{
    String::from_str("pppoe-wan")
}

pub fn default_lan_interface() -> (s: String)
    ensures
        s@ == "br-lan"@,
{
    String::from_str("br-lan")
}

pub fn default_check_interval_secs() -> (v: u64)
    ensures
        v == 3,
{
    3
}

pub fn default_true() -> (b: bool)
    ensures
        b,
{
    true
}

impl Default for AppConfig {
    fn default() -> (r: Self)
        ensures
            r@ == default_view(),
    {
        let r = AppConfig {
            enabled: default_enabled(),
            side_router_mac: default_side_router_mac(),
            side_router_ipv4: None,
            table_id: default_table_id(),
            mark_id: default_mark_id(),
            wan_interface: default_wan_interface(),
            lan_interface: default_lan_interface(),
            check_interval_secs: default_check_interval_secs(),
            hijack_dns: default_true(),
            enable_ipv4: default_true(),
            enable_ipv6: default_true(),
            client_macs: Vec::new(),
        };
        assert(string_views(r.client_macs@) == Seq::<Seq<char>>::empty());
        r
    }
}

// ---------------------------------------------------------------------------
// MAC addresses
// ---------------------------------------------------------------------------

pub open spec fn is_hex(c: char) -> bool {
    let u = c as int;
    (48 <= u <= 57) || (65 <= u <= 70) || (97 <= u <= 102)
}

/// Six pairs of hexadecimal digits separated by single colons,
/// as in `aa:bb:cc:dd:ee:ff`.
pub open spec fn valid_mac(s: Seq<char>) -> bool {
    s.len() == 17 && forall|i: int|
        0 <= i < 17 ==> if i % 3 == 2 {
            #[trigger] s[i] == ':'
        } else {
            is_hex(s[i])
        }
}

/// Whether `s` is a MAC address written as six pairs of hexadecimal digits
/// separated by colons.
pub fn is_valid_mac(s: &str) -> (b: bool)
    ensures
        b == valid_mac(s@),
{
    let v = chars_of(s);
    if v.len() != 17 {
        return false;
    }
    let mut i: usize = 0;
    while i < 17
        invariant
            i <= 17,
            v.len() == 17,
            v@ == s@,
            forall|j: int|
                0 <= j < i ==> if j % 3 == 2 {
                    #[trigger] v@[j] == ':'
                } else {
                    is_hex(v@[j])
                },
        decreases 17 - i,
    {
        let c = v[i];
        let ok = if i % 3 == 2 {
            c == ':'
        } else {
            ('0' <= c && c <= '9') || ('A' <= c && c <= 'F') || ('a' <= c && c <= 'f')
        };
        if !ok {
            assert(!(if i as int % 3 == 2 {
                v@[i as int] == ':'
            } else {
                is_hex(v@[i as int])
            }));
            return false;
        }
        i = i + 1;
    }
    true
}

/// Code-point order of character sequences, which is the byte order of
/// their UTF-8 text and so the order of `String`.
pub open spec fn lex_lt(a: Seq<char>, b: Seq<char>) -> bool
    decreases a.len(),
{
    if a.len() == 0 {
        b.len() > 0
    } else if b.len() == 0 {
        false
    } else if a[0] == b[0] {
        lex_lt(a.drop_first(), b.drop_first())
    } else {
        (a[0] as int) < (b[0] as int)
    }
}

/// Each element comes strictly before every later one.
pub open spec fn strictly_sorted(r: Seq<Seq<char>>) -> bool {
    forall|i: int, j: int| 0 <= i < j < r.len() ==> lex_lt(#[trigger] r[i], #[trigger] r[j])
}

/// `x` put into its place in `r`, unless `r` already holds it.
pub open spec fn sorted_insert(r: Seq<Seq<char>>, x: Seq<char>) -> Seq<Seq<char>>
    decreases r.len(),
{
    if r.len() == 0 {
        seq![x]
    } else if r[0] == x {
        r
    } else if lex_lt(x, r[0]) {
        seq![x] + r
    } else {
        seq![r[0]] + sorted_insert(r.drop_first(), x)
    }
}

/// A MAC address as configured, put in normal form: trimmed and in lower case.
pub open spec fn normal_mac(m: Seq<char>) -> Seq<char> {
    unicode_lowercase(trimmed(m, CharClass::Whitespace))
}

/// The normal forms of the listed MAC addresses that are valid, each once,
/// in ascending order.
pub open spec fn canonical_macs(list: Seq<Seq<char>>) -> Seq<Seq<char>>
    decreases list.len(),
{
    if list.len() == 0 {
        seq![]
    } else {
        let r = canonical_macs(list.drop_last());
        let m = normal_mac(list.last());
        if valid_mac(m) {
            sorted_insert(r, m)
        } else {
            r
        }
    }
}

/// The valid ones among MAC addresses already in normal form, each once,
/// in ascending order.
pub open spec fn collected_macs(ms: Seq<Seq<char>>) -> Seq<Seq<char>>
    decreases ms.len(),
{
    if ms.len() == 0 {
        seq![]
    } else {
        let r = collected_macs(ms.drop_last());
        if valid_mac(ms.last()) {
            sorted_insert(r, ms.last())
        } else {
            r
        }
    }
}

/// A configuration with its MAC addresses in normal form.
pub open spec fn normalized(c: ConfigView) -> ConfigView {
    ConfigView {
        side_router_mac: normal_mac(c.side_router_mac),
        client_macs: canonical_macs(c.client_macs),
        ..c
    }
}

/// A MAC address in ASCII normal form: ASCII, trimmed and in lower case.
pub open spec fn ascii_normal_mac(m: Seq<char>) -> bool {
    all_ascii(m) && trimmed(m, CharClass::Whitespace) == m && ascii_lowered(m) == m
}

/// A configuration whose MAC addresses are in normal form and ASCII: the
/// side router's address trimmed and in lower case, the clients' valid,
/// trimmed, in lower case, and strictly ascending.
pub open spec fn ascii_normal(c: ConfigView) -> bool {
    &&& ascii_normal_mac(c.side_router_mac)
    &&& strictly_sorted(c.client_macs)
    &&& forall|i: int|
        0 <= i < c.client_macs.len() ==> valid_mac(#[trigger] c.client_macs[i]) && ascii_normal_mac(
            c.client_macs[i],
        )
}

/// A configuration whose MAC addresses are ASCII once trimmed.
pub open spec fn ascii_macs(c: ConfigView) -> bool {
    &&& all_ascii(trimmed(c.side_router_mac, CharClass::Whitespace))
    &&& forall|i: int|
        0 <= i < c.client_macs.len() ==> all_ascii(
            trimmed(#[trigger] c.client_macs[i], CharClass::Whitespace),
        )
}

/// A configuration in ASCII normal form has ASCII MAC addresses.
pub proof fn lemma_ascii_normal_has_ascii_macs(c: ConfigView)
    requires
        ascii_normal(c),
    ensures
        ascii_macs(c),
{
    assert forall|i: int| 0 <= i < c.client_macs.len() implies all_ascii(
        trimmed(#[trigger] c.client_macs[i], CharClass::Whitespace),
    ) by {
        assert(ascii_normal_mac(c.client_macs[i]));
    }
}

/// The defaults are in ASCII normal form.
pub proof fn lemma_default_ascii_normal()
    ensures
        ascii_normal(default_view()),
{
    let e = Seq::<char>::empty();
    assert(ascii_lowered(e) == e);
}

/// The ASCII lower-case form of trimmed ASCII text is in ASCII normal form.
proof fn lemma_lowered_trimmed_normal(x: Seq<char>)
    requires
        all_ascii(trimmed(x, CharClass::Whitespace)),
    ensures
        ascii_normal_mac(ascii_lowered(trimmed(x, CharClass::Whitespace))),
{
    let t = trimmed(x, CharClass::Whitespace);
    let y = ascii_lowered(t);
    lemma_ascii_lowered(t);
    lemma_trimmed_ends(x);
    lemma_ascii_lower_keeps_ws(t);
    if y.len() > 0 {
        assert(is_ws(y[0]) == is_ws(t[0]));
        assert(is_ws(y[y.len() - 1]) == is_ws(t[t.len() - 1]));
    }
    lemma_trimmed_fixed(y);
}

/// A valid MAC address is its own trimmed form.
proof fn lemma_valid_mac_trimmed(m: Seq<char>)
    requires
        valid_mac(m),
    ensures
        trimmed(m, CharClass::Whitespace) == m,
{
    assert(is_hex(m[0]));
    assert(is_hex(m[16]));
    lemma_trimmed_fixed(m);
}

pub proof fn lemma_lex_irreflexive(a: Seq<char>)
    ensures
        !lex_lt(a, a),
    decreases a.len(),
{
    if a.len() > 0 {
        lemma_lex_irreflexive(a.drop_first());
    }
}

pub proof fn lemma_lex_total(a: Seq<char>, b: Seq<char>)
    ensures
        a != b ==> lex_lt(a, b) || lex_lt(b, a),
    decreases a.len(),
{
    if a.len() > 0 && b.len() > 0 && a[0] == b[0] {
        lemma_lex_total(a.drop_first(), b.drop_first());
        if a.drop_first() == b.drop_first() {
            assert(a == seq![a[0]] + a.drop_first());
            assert(b == seq![b[0]] + b.drop_first());
        }
    }
    if a.len() == 0 && b.len() == 0 {
        assert(a == b);
    }
    if a.len() > 0 && b.len() > 0 && a[0] != b[0] {
        assert((a[0] as int) != (b[0] as int));
    }
}

pub proof fn lemma_lex_asymmetric(a: Seq<char>, b: Seq<char>)
    ensures
        lex_lt(a, b) ==> !lex_lt(b, a),
    decreases a.len(),
{
    if a.len() > 0 && b.len() > 0 && a[0] == b[0] {
        lemma_lex_asymmetric(a.drop_first(), b.drop_first());
    }
}

pub proof fn lemma_lex_transitive(a: Seq<char>, b: Seq<char>, c: Seq<char>)
    requires
        lex_lt(a, b),
        lex_lt(b, c),
    ensures
        lex_lt(a, c),
    decreases a.len(),
{
    if a.len() > 0 && b.len() > 0 && c.len() > 0 && a[0] == b[0] && b[0] == c[0] {
        lemma_lex_transitive(a.drop_first(), b.drop_first(), c.drop_first());
    }
}

/// Scanning for the first element not below `x` finds where `sorted_insert` puts it.
proof fn lemma_sorted_insert_at(r: Seq<Seq<char>>, x: Seq<char>, p: int)
    requires
        0 <= p <= r.len(),
        forall|k: int| 0 <= k < p ==> lex_lt(#[trigger] r[k], x),
        p < r.len() ==> !lex_lt(r[p], x),
    ensures
        sorted_insert(r, x) == if p < r.len() && r[p] == x {
            r
        } else {
            r.insert(p, x)
        },
    decreases p,
{
    if r.len() == 0 {
        assert(r.insert(0, x) == seq![x]);
    } else if p == 0 {
        if r[0] != x {
            lemma_lex_total(r[0], x);
            assert(seq![x] + r == r.insert(0, x));
        }
    } else {
        assert(lex_lt(r[0], x));
        lemma_lex_irreflexive(x);
        lemma_lex_asymmetric(r[0], x);
        let t = r.drop_first();
        assert forall|k: int| 0 <= k < p - 1 implies lex_lt(#[trigger] t[k], x) by {
            assert(t[k] == r[k + 1]);
        }
        lemma_sorted_insert_at(t, x, p - 1);
        if p < r.len() && r[p] == x {
            assert(seq![r[0]] + t == r);
        } else {
            assert(seq![r[0]] + t.insert(p - 1, x) == r.insert(p, x));
        }
    }
}

/// Inserting keeps a sequence strictly sorted and adds exactly `x` to it.
#[verifier::rlimit(40)]
proof fn lemma_sorted_insert_props(r: Seq<Seq<char>>, x: Seq<char>)
    requires
        strictly_sorted(r),
    ensures
        strictly_sorted(sorted_insert(r, x)),
        forall|y: Seq<char>| #[trigger]
            sorted_insert(r, x).contains(y) <==> (r.contains(y) || y == x),
    decreases r.len(),
{
    let s = sorted_insert(r, x);
    if r.len() == 0 {
        assert(s == seq![x]);
        assert(s[0] == x);
        assert(s.contains(x));
    } else if r[0] == x {
    } else if lex_lt(x, r[0]) {
        assert(s == seq![x] + r);
        assert forall|i: int, j: int| 0 <= i < j < s.len() implies lex_lt(
            #[trigger] s[i],
            #[trigger] s[j],
        ) by {
            if i == 0 {
                if j > 1 {
                    assert(lex_lt(r[0], r[j - 1]));
                    lemma_lex_transitive(x, r[0], r[j - 1]);
                }
            } else {
                assert(lex_lt(r[i - 1], r[j - 1]));
            }
        }
        assert forall|y: Seq<char>| #[trigger] s.contains(y) <==> (r.contains(y) || y == x) by {
            if s.contains(y) {
                let k = choose|k: int| 0 <= k < s.len() && s[k] == y;
                if k > 0 {
                    assert(r[k - 1] == y);
                }
            }
            if r.contains(y) {
                let k = choose|k: int| 0 <= k < r.len() && r[k] == y;
                assert(s[k + 1] == y);
            }
            if y == x {
                assert(s[0] == x);
            }
        }
    } else {
        let t = r.drop_first();
        assert(strictly_sorted(t)) by {
            assert forall|i: int, j: int| 0 <= i < j < t.len() implies lex_lt(
                #[trigger] t[i],
                #[trigger] t[j],
            ) by {
                assert(t[i] == r[i + 1] && t[j] == r[j + 1]);
            }
        }
        lemma_sorted_insert_props(t, x);
        let u = sorted_insert(t, x);
        assert(s == seq![r[0]] + u);
        lemma_lex_total(x, r[0]);
        assert(lex_lt(r[0], x));
        assert forall|y: Seq<char>| #[trigger] u.contains(y) implies lex_lt(r[0], y) by {
            if y != x {
                assert(t.contains(y));
                let k = choose|k: int| 0 <= k < t.len() && t[k] == y;
                assert(r[k + 1] == y);
                assert(lex_lt(r[0], r[k + 1]));
            }
        }
        assert forall|i: int, j: int| 0 <= i < j < s.len() implies lex_lt(
            #[trigger] s[i],
            #[trigger] s[j],
        ) by {
            if i == 0 {
                assert(s[j] == u[j - 1]);
                assert(u.contains(u[j - 1]));
            } else {
                assert(s[i] == u[i - 1] && s[j] == u[j - 1]);
            }
        }
        assert forall|y: Seq<char>| #[trigger] s.contains(y) <==> (r.contains(y) || y == x) by {
            if s.contains(y) {
                let k = choose|k: int| 0 <= k < s.len() && s[k] == y;
                if k > 0 {
                    assert(u[k - 1] == y);
                    assert(u.contains(y));
                    if y != x {
                        assert(t.contains(y));
                        let m = choose|m: int| 0 <= m < t.len() && t[m] == y;
                        assert(r[m + 1] == y);
                    }
                } else {
                    assert(r[0] == y);
                }
            }
            if r.contains(y) {
                let k = choose|k: int| 0 <= k < r.len() && r[k] == y;
                if k == 0 {
                    assert(s[0] == y);
                } else {
                    assert(t[k - 1] == y);
                    assert(t.contains(y));
                    assert(u.contains(y));
                    let m = choose|m: int| 0 <= m < u.len() && u[m] == y;
                    assert(s[m + 1] == y);
                }
            }
            if y == x {
                assert(u.contains(x));
                let m = choose|m: int| 0 <= m < u.len() && u[m] == x;
                assert(s[m + 1] == x);
            }
        }
    }
}

/// The normal form of a MAC address list holds each valid normal form of a
/// listed address once, in strictly ascending order, and nothing else.
pub proof fn lemma_canonical_macs(list: Seq<Seq<char>>)
    ensures
        strictly_sorted(canonical_macs(list)),
        forall|y: Seq<char>| #[trigger]
            canonical_macs(list).contains(y) <==> (valid_mac(y) && exists|i: int|
                0 <= i < list.len() && y == normal_mac(#[trigger] list[i])),
    decreases list.len(),
{
    if list.len() > 0 {
        let init = list.drop_last();
        lemma_canonical_macs(init);
        let r = canonical_macs(init);
        let m = normal_mac(list.last());
        if valid_mac(m) {
            lemma_sorted_insert_props(r, m);
        }
        assert forall|y: Seq<char>| #[trigger] canonical_macs(list).contains(y) <==> (valid_mac(y)
            && exists|i: int| 0 <= i < list.len() && y == normal_mac(#[trigger] list[i])) by {
            if valid_mac(y) && exists|i: int| 0 <= i < list.len() && y == normal_mac(
                #[trigger] list[i],
            ) {
                let i = choose|i: int| 0 <= i < list.len() && y == normal_mac(#[trigger] list[i]);
                if i < list.len() - 1 {
                    assert(init[i] == list[i]);
                }
            }
            if r.contains(y) {
                let i = choose|i: int| 0 <= i < init.len() && y == normal_mac(#[trigger] init[i]);
                assert(list[i] == init[i]);
            }
        }
    }
}

/// Inserting an element above all others appends it.
proof fn lemma_sorted_insert_last(r: Seq<Seq<char>>, x: Seq<char>)
    requires
        forall|i: int| 0 <= i < r.len() ==> lex_lt(#[trigger] r[i], x),
    ensures
        sorted_insert(r, x) == r.push(x),
    decreases r.len(),
{
    if r.len() > 0 {
        lemma_lex_irreflexive(x);
        lemma_lex_asymmetric(r[0], x);
        let t = r.drop_first();
        assert forall|i: int| 0 <= i < t.len() implies lex_lt(#[trigger] t[i], x) by {
            assert(t[i] == r[i + 1]);
        }
        lemma_sorted_insert_last(t, x);
        assert(seq![r[0]] + t.push(x) == r.push(x));
    }
}

/// A list already in normal form, each address valid and its own normal
/// form, strictly ascending, is its own normal form: normalizing is
/// idempotent on such lists.
pub proof fn lemma_canonical_fixed_point(list: Seq<Seq<char>>)
    requires
        strictly_sorted(list),
        forall|i: int| 0 <= i < list.len() ==> valid_mac(#[trigger] list[i]) && normal_mac(list[i]) == list[i],
    ensures
        canonical_macs(list) == list,
    decreases list.len(),
{
    if list.len() > 0 {
        let init = list.drop_last();
        assert(strictly_sorted(init)) by {
            assert forall|i: int, j: int| 0 <= i < j < init.len() implies lex_lt(
                #[trigger] init[i],
                #[trigger] init[j],
            ) by {
                assert(init[i] == list[i] && init[j] == list[j]);
            }
        }
        assert forall|i: int| 0 <= i < init.len() implies valid_mac(#[trigger] init[i])
            && normal_mac(init[i]) == init[i] by {
            assert(init[i] == list[i]);
        }
        lemma_canonical_fixed_point(init);
        let x = list.last();
        assert(normal_mac(x) == x && valid_mac(x)) by {
            assert(x == list[list.len() - 1]);
        }
        assert forall|i: int| 0 <= i < init.len() implies lex_lt(#[trigger] init[i], x) by {
            assert(init[i] == list[i]);
            assert(lex_lt(list[i], list[list.len() - 1]));
        }
        lemma_sorted_insert_last(init, x);
        assert(init.push(x) == list);
    }
}

/// Normalizing a list is putting each address in normal form, then
/// collecting the valid ones.
pub proof fn lemma_canonical_is_collected(list: Seq<Seq<char>>)
    ensures
        canonical_macs(list) == collected_macs(list.map_values(|m: Seq<char>| normal_mac(m))),
    decreases list.len(),
{
    if list.len() > 0 {
        lemma_canonical_is_collected(list.drop_last());
        assert(list.map_values(|m: Seq<char>| normal_mac(m)).drop_last() == list.drop_last().map_values(
            |m: Seq<char>| normal_mac(m),
        ));
    }
}

/// The collected addresses are the valid given ones, each once, in strictly
/// ascending order.
pub proof fn lemma_collected_macs(ms: Seq<Seq<char>>)
    ensures
        strictly_sorted(collected_macs(ms)),
        forall|y: Seq<char>| #[trigger]
            collected_macs(ms).contains(y) <==> (valid_mac(y) && ms.contains(y)),
    decreases ms.len(),
{
    if ms.len() > 0 {
        let init = ms.drop_last();
        lemma_collected_macs(init);
        let r = collected_macs(init);
        if valid_mac(ms.last()) {
            lemma_sorted_insert_props(r, ms.last());
        }
        assert forall|y: Seq<char>| #[trigger] collected_macs(ms).contains(y) <==> (valid_mac(y)
            && ms.contains(y)) by {
            if ms.contains(y) {
                let i = choose|i: int| 0 <= i < ms.len() && ms[i] == y;
                if i < ms.len() - 1 {
                    assert(init[i] == y);
                    assert(init.contains(y));
                }
            }
            if init.contains(y) {
                let i = choose|i: int| 0 <= i < init.len() && init[i] == y;
                assert(ms[i] == y);
            }
        }
    }
}

/// Normalizing a normalized configuration changes nothing, for every
/// configuration on which lower-casing is idempotent at the side router's
/// address and at each normalized client address. (That lower-casing is
/// idempotent is a property of Unicode case mapping that is not stated here.)
pub proof fn lemma_normalize_idempotent(c: ConfigView)
    requires
        normal_mac(normal_mac(c.side_router_mac)) == normal_mac(c.side_router_mac),
        forall|i: int|
            0 <= i < canonical_macs(c.client_macs).len() ==> normal_mac(
                #[trigger] canonical_macs(c.client_macs)[i],
            ) == canonical_macs(c.client_macs)[i],
    ensures
        normalized(normalized(c)) == normalized(c),
{
    let r = canonical_macs(c.client_macs);
    lemma_canonical_macs(c.client_macs);
    assert forall|i: int| 0 <= i < r.len() implies valid_mac(#[trigger] r[i]) && normal_mac(r[i])
        == r[i] by {
        assert(r.contains(r[i]));
    }
    lemma_canonical_fixed_point(r);
}

/// A strictly ascending list of valid addresses is collected as it is.
pub proof fn lemma_collected_fixed_point(ms: Seq<Seq<char>>)
    requires
        strictly_sorted(ms),
        forall|i: int| 0 <= i < ms.len() ==> valid_mac(#[trigger] ms[i]),
    ensures
        collected_macs(ms) == ms,
    decreases ms.len(),
{
    if ms.len() > 0 {
        let init = ms.drop_last();
        assert(strictly_sorted(init)) by {
            assert forall|i: int, j: int| 0 <= i < j < init.len() implies lex_lt(
                #[trigger] init[i],
                #[trigger] init[j],
            ) by {
                assert(init[i] == ms[i] && init[j] == ms[j]);
            }
        }
        assert forall|i: int| 0 <= i < init.len() implies valid_mac(#[trigger] init[i]) by {
            assert(init[i] == ms[i]);
        }
        lemma_collected_fixed_point(init);
        let x = ms.last();
        assert(valid_mac(x)) by {
            assert(x == ms[ms.len() - 1]);
        }
        assert forall|i: int| 0 <= i < init.len() implies lex_lt(#[trigger] init[i], x) by {
            assert(init[i] == ms[i]);
            assert(lex_lt(ms[i], ms[ms.len() - 1]));
        }
        lemma_sorted_insert_last(init, x);
        assert(init.push(x) == ms);
    }
}

/// Sequences with no element twice.
pub proof fn lemma_sorted_distinct(r: Seq<Seq<char>>)
    requires
        strictly_sorted(r),
    ensures
        r.no_duplicates(),
{
    assert forall|i: int, j: int| 0 <= i < r.len() && 0 <= j < r.len() && i != j implies r[i]
        != r[j] by {
        if i < j {
            assert(lex_lt(r[i], r[j]));
            lemma_lex_irreflexive(r[i]);
        } else {
            assert(lex_lt(r[j], r[i]));
            lemma_lex_irreflexive(r[j]);
        }
    }
}

/// Whether `a` comes before `b` in code-point order.
fn lex_less(a: &Vec<char>, b: &Vec<char>) -> (r: bool)
    ensures
        r == lex_lt(a@, b@),
{
    let mut i: usize = 0;
    assert(a@.skip(0) == a@);
    assert(b@.skip(0) == b@);
    while i < a.len() && i < b.len() && a[i] == b[i]
        invariant
            i <= a.len(),
            i <= b.len(),
            lex_lt(a@, b@) == lex_lt(a@.skip(i as int), b@.skip(i as int)),
        decreases a.len() - i,
    {
        assert(a@.skip(i as int).drop_first() == a@.skip(i + 1));
        assert(b@.skip(i as int).drop_first() == b@.skip(i + 1));
        i = i + 1;
    }
    if i == a.len() {
        i < b.len()
    } else if i == b.len() {
        false
    } else {
        a[i] < b[i]
    }
}

/// Puts `x` into its place in the ascending list `out`, unless it is there.
fn insert_sorted(out: &mut Vec<String>, x: String)
    ensures
        string_views(final(out)@) == sorted_insert(string_views(old(out)@), x@),
{
    let xv = chars_of(x.as_str());
    let ghost r = string_views(out@);
    let mut p: usize = 0;
    while p < out.len() && lex_less(&chars_of(out[p].as_str()), &xv)
        invariant
            p <= out.len(),
            r == string_views(out@),
            xv@ == x@,
            forall|k: int| 0 <= k < p ==> lex_lt(#[trigger] r[k], x@),
        decreases out.len() - p,
    {
        p = p + 1;
    }
    proof {
        lemma_sorted_insert_at(r, x@, p as int);
    }
    if p < out.len() && same_chars(&chars_of(out[p].as_str()), &xv) {
        return ;
    }
    out.insert(p, x);
    assert(string_views(out@) == r.insert(p as int, x@));
}

/// The normal form of one MAC address: trimmed and in lower case.
fn normalize_mac(m: &String) -> (r: String)
    ensures
        r@ == normal_mac(m@),
        all_ascii(trimmed(m@, CharClass::Whitespace)) ==> r@ == ascii_lowered(
            trimmed(m@, CharClass::Whitespace),
        ),
{
    let v = chars_of(m.as_str());
    let t = trim(&v, &CharClass::Whitespace);
    let s = string_of(&t);
    to_lowercase(s.as_str())
}

/// Collects the valid addresses among `normal`, MAC addresses already in
/// normal form (trimmed and lower-cased): each kept once, in ascending order.
pub fn collect_client_macs(normal: &Vec<String>) -> (r: Vec<String>)
    ensures
        string_views(r@) == collected_macs(string_views(normal@)),
        strictly_sorted(string_views(r@)),
        string_views(r@).no_duplicates(),
        forall|y: Seq<char>| #[trigger]
            string_views(r@).contains(y) <==> (valid_mac(y) && string_views(normal@).contains(y)),
{
    let ghost ms = string_views(normal@);
    let mut list: Vec<String> = Vec::new();
    let mut i: usize = 0;
    while i < normal.len()
        invariant
            i <= normal.len(),
            ms == string_views(normal@),
            string_views(list@) == collected_macs(ms.take(i as int)),
        decreases normal.len() - i,
    {
        assert(ms.take(i + 1).drop_last() == ms.take(i as int));
        assert(ms.take(i + 1).last() == normal@[i as int]@);
        if is_valid_mac(normal[i].as_str()) {
            insert_sorted(&mut list, normal[i].clone());
        }
        i = i + 1;
    }
    assert(ms.take(normal.len() as int) == ms);
    proof {
        lemma_collected_macs(ms);
        lemma_sorted_distinct(string_views(list@));
    }
    list
}

impl AppConfig {
    /// Puts the MAC addresses in normal form: the side router's trimmed and in
    /// lower case; the clients' likewise, with invalid ones dropped, each kept
    /// once, in ascending order.
    #[verifier::rlimit(40)]
    pub fn normalize(&mut self)
        ensures
            final(self)@ == normalized(old(self)@),
            strictly_sorted(final(self)@.client_macs),
            final(self)@.client_macs.no_duplicates(),
            forall|y: Seq<char>| #[trigger]
                final(self)@.client_macs.contains(y) <==> (valid_mac(y) && exists|i: int|
                    0 <= i < old(self)@.client_macs.len() && y == normal_mac(
                        #[trigger] old(self)@.client_macs[i],
                    )),
            ascii_macs(old(self)@) ==> ascii_normal(final(self)@),
            ascii_normal(old(self)@) ==> final(self)@ == old(self)@,
    {
        let ghost before = self@;
        self.side_router_mac = normalize_mac(&self.side_router_mac);
        let mut lowered: Vec<String> = Vec::new();
        let mut i: usize = 0;
        let ghost want = before.client_macs.map_values(|m: Seq<char>| normal_mac(m));
        while i < self.client_macs.len()
            invariant
                i <= self.client_macs.len(),
                string_views(self.client_macs@) == before.client_macs,
                want == before.client_macs.map_values(|m: Seq<char>| normal_mac(m)),
                string_views(lowered@) == want.take(i as int),
                forall|j: int|
                    0 <= j < i ==> (all_ascii(trimmed(#[trigger] before.client_macs[j], CharClass::Whitespace))
                        ==> normal_mac(before.client_macs[j]) == ascii_lowered(
                        trimmed(before.client_macs[j], CharClass::Whitespace),
                    )),
            decreases self.client_macs.len() - i,
        {
            let m = normalize_mac(&self.client_macs[i]);
            assert(before.client_macs[i as int] == self.client_macs[i as int]@);
            let ghost prev = lowered@;
            lowered.push(m);
            assert(string_views(lowered@) == string_views(prev).push(lowered@[i as int]@));
            assert(want.take(i + 1) == want.take(i as int).push(want[i as int]));
            i = i + 1;
        }
        assert(want.take(self.client_macs.len() as int) == want);
        self.client_macs = collect_client_macs(&lowered);
        proof {
            lemma_canonical_is_collected(before.client_macs);
            lemma_canonical_macs(before.client_macs);
            let fin = self@;
            if ascii_macs(before) {
                lemma_lowered_trimmed_normal(before.side_router_mac);
                assert forall|k: int| 0 <= k < fin.client_macs.len() implies valid_mac(
                    #[trigger] fin.client_macs[k],
                ) && ascii_normal_mac(fin.client_macs[k]) by {
                    let y = fin.client_macs[k];
                    assert(fin.client_macs.contains(y));
                    let j = choose|j: int|
                        0 <= j < before.client_macs.len() && y == normal_mac(
                            #[trigger] before.client_macs[j],
                        );
                    assert(all_ascii(trimmed(before.client_macs[j], CharClass::Whitespace)));
                    lemma_lowered_trimmed_normal(before.client_macs[j]);
                }
            }
            if ascii_normal(before) {
                lemma_ascii_lowered(before.side_router_mac);
                assert forall|j: int| 0 <= j < want.len() implies #[trigger] want[j]
                    == before.client_macs[j] by {
                    let m = before.client_macs[j];
                    assert(ascii_normal_mac(m) && valid_mac(m));
                    lemma_valid_mac_trimmed(m);
                }
                assert(want == before.client_macs);
                lemma_collected_fixed_point(before.client_macs);
                assert(fin == before);
            }
        }
    }
}


// ---------------------------------------------------------------------------
// The UCI file `/etc/config/sideroute`
// ---------------------------------------------------------------------------

/// `v` with surrounding single quotes, then surrounding double quotes, removed.
pub open spec fn unquoted(v: Seq<char>) -> Seq<char> {
    trimmed(trimmed(v, CharClass::Exactly('\'')), CharClass::Exactly('"'))
}

/// A switch written as `1` or, in any ASCII case, `true`.
pub open spec fn switch_on(v: Seq<char>) -> bool {
    v == "1"@ || eq_ignore_ascii_case(v, "true"@)
}

/// What one `option` or `list` line of the `sideroute` section sets.
pub open spec fn apply_uci_option(
    c: ConfigView,
    kind: Seq<char>,
    key: Seq<char>,
    val: Seq<char>,
) -> ConfigView {
    let opt = kind == "option"@;
    if opt && key == "enabled"@ {
        ConfigView { enabled: switch_on(val) || eq_ignore_ascii_case(val, "yes"@), ..c }
    } else if opt && key == "side_mac"@ {
        ConfigView { side_router_mac: val, ..c }
    } else if opt && key == "side_ipv4"@ {
        let v = trimmed(val, CharClass::Whitespace);
        ConfigView {
            side_router_ipv4: if v.len() > 0 {
                Some(v)
            } else {
                None
            },
            ..c
        }
    } else if opt && key == "table_id"@ {
        match parse_unsigned(val, u32::MAX as nat) {
            Some(n) => ConfigView { table_id: n as u32, ..c },
            None => c,
        }
    } else if opt && key == "mark_id"@ {
        match parse_unsigned(val, u32::MAX as nat) {
            Some(n) => ConfigView { mark_id: n as u32, ..c },
            None => c,
        }
    } else if opt && key == "wan_interface"@ {
        ConfigView { wan_interface: val, ..c }
    } else if opt && key == "lan_interface"@ {
        ConfigView { lan_interface: val, ..c }
    } else if opt && key == "check_interval"@ {
        match parse_unsigned(val, u64::MAX as nat) {
            Some(n) => ConfigView { check_interval_secs: n as u64, ..c },
            None => c,
        }
    } else if opt && key == "hijack_dns"@ {
        ConfigView { hijack_dns: switch_on(val), ..c }
    } else if opt && key == "enable_ipv4"@ {
        ConfigView { enable_ipv4: switch_on(val), ..c }
    } else if opt && key == "enable_ipv6"@ {
        ConfigView { enable_ipv6: switch_on(val), ..c }
    } else if (opt || kind == "list"@) && key == "client_mac"@ {
        ConfigView {
            client_macs: c.client_macs + fields(val, CharClass::CommaOrWhitespace),
            ..c
        }
    } else {
        c
    }
}

/// One line of UCI text read into the configuration so far and the flag that
/// says whether the current section is the `sideroute` one.
pub open spec fn uci_step(st: (ConfigView, bool), raw: Seq<char>) -> (ConfigView, bool) {
    let line = trimmed(raw, CharClass::Whitespace);
    if line.len() == 0 || line[0] == '#' {
        st
    } else if starts_with(line, "config"@) {
        let parts = fields(line, CharClass::Whitespace);
        (st.0, parts.len() >= 2 && unquoted(parts[1]) == "sideroute"@)
    } else if !st.1 {
        st
    } else {
        let parts = fields(line, CharClass::Whitespace);
        if parts.len() < 3 {
            st
        } else {
            (
                apply_uci_option(
                    st.0,
                    parts[0],
                    parts[1],
                    unquoted(trimmed(join(parts.skip(2), ' '), CharClass::Whitespace)),
                ),
                true,
            )
        }
    }
}

/// The lines read in order, starting from the defaults outside any section.
pub open spec fn uci_fold(ls: Seq<Seq<char>>) -> (ConfigView, bool)
    decreases ls.len(),
{
    if ls.len() == 0 {
        (default_view(), false)
    } else {
        uci_step(uci_fold(ls.drop_last()), ls.last())
    }
}

/// Lines read in order, starting from `st`.
pub open spec fn uci_run(st: (ConfigView, bool), ls: Seq<Seq<char>>) -> (ConfigView, bool)
    decreases ls.len(),
{
    if ls.len() == 0 {
        st
    } else {
        uci_step(uci_run(st, ls.drop_last()), ls.last())
    }
}

/// A line that is empty or a comment once trimmed.
pub open spec fn blank_or_comment(line: Seq<char>) -> bool {
    let t = trimmed(line, CharClass::Whitespace);
    t.len() == 0 || t[0] == '#'
}

/// Reading `x + y` is reading `x`, then going on with `y`.
proof fn lemma_fold_append(x: Seq<Seq<char>>, y: Seq<Seq<char>>)
    ensures
        uci_fold(x + y) == uci_run(uci_fold(x), y),
    decreases y.len(),
{
    if y.len() == 0 {
        assert(x + y == x);
    } else {
        lemma_fold_append(x, y.drop_last());
        assert((x + y).drop_last() == x + y.drop_last());
        assert((x + y).last() == y.last());
    }
}

/// Blank and comment lines change neither the configuration read so far nor
/// the current section: removing such a line from UCI text leaves what it
/// gives unchanged.
pub proof fn lemma_blank_and_comment_lines_ignored(a: Seq<char>, l: Seq<char>, b: Seq<char>)
    requires
        !l.contains('\n'),
        blank_or_comment(l),
    ensures
        uci_fold(lines(a + seq!['\n'] + l + seq!['\n'] + b)) == uci_fold(
            lines(a + seq!['\n'] + b),
        ),
        uci_config(a + seq!['\n'] + l + seq!['\n'] + b) == uci_config(a + seq!['\n'] + b),
{
    let p = a.push('\n');
    let m = l.push('\n');
    assert(a + seq!['\n'] + l + seq!['\n'] + b == p + (m + b));
    assert(a + seq!['\n'] + b == p + b);
    lemma_lines_append(p, m + b);
    lemma_lines_append(p, b);
    lemma_lines_append(m, b);
    lemma_single_line(l);
    let p0 = line_scan(p).0;
    let lb = lines(b);
    let x = strip_cr(l);
    assert(line_scan(m).0 == seq![x]);
    assert(lines(p + (m + b)) == p0 + (seq![x] + lb));
    assert(p0 + (seq![x] + lb) == p0.push(x) + lb);
    lemma_fold_append(p0.push(x), lb);
    lemma_fold_append(p0, lb);
    assert(p0.push(x).drop_last() == p0);
    if l.len() > 0 && l.last() == '\r' {
        lemma_trim_drops_trailing_ws(l);
    }
    assert(blank_or_comment(x));
    assert(uci_fold(p0.push(x)) == uci_fold(p0));
}

/// The configuration that UCI text gives: each line read in order, then the
/// MAC addresses put in normal form.
pub open spec fn uci_config(content: Seq<char>) -> ConfigView {
    normalized(uci_fold(lines(content)).0)
}

/// Whether the trimmed line `line` opens the `sideroute` section.
pub open spec fn opens_sideroute(line: Seq<char>) -> bool {
    let parts = fields(line, CharClass::Whitespace);
    starts_with(line, "config"@) && parts.len() >= 2 && unquoted(parts[1]) == "sideroute"@
}

/// Only the `sideroute` section is read: text in which no line opens it
/// gives the defaults.
pub proof fn lemma_only_sideroute_section_read(ls: Seq<Seq<char>>)
    requires
        forall|i: int| 0 <= i < ls.len() ==> !opens_sideroute(
            #[trigger] trimmed(ls[i], CharClass::Whitespace),
        ),
    ensures
        uci_fold(ls) == (default_view(), false),
    decreases ls.len(),
{
    if ls.len() > 0 {
        let init = ls.drop_last();
        assert forall|i: int| 0 <= i < init.len() implies !opens_sideroute(
            #[trigger] trimmed(init[i], CharClass::Whitespace),
        ) by {
            assert(init[i] == ls[i]);
        }
        lemma_only_sideroute_section_read(init);
        assert(!opens_sideroute(trimmed(ls[ls.len() - 1], CharClass::Whitespace)));
    }
}

/// The value of an `option` line: its fields from the third on, joined by
/// single spaces, trimmed and unquoted.
pub open spec fn option_value(line: Seq<char>) -> Seq<char> {
    let parts = fields(trimmed(line, CharClass::Whitespace), CharClass::Whitespace);
    unquoted(trimmed(join(parts.skip(2), ' '), CharClass::Whitespace))
}

/// A line whose first field is `option` is neither a comment nor a section
/// header: inside the `sideroute` section it is read as an option, and the
/// section stays open.
proof fn lemma_option_line(c: ConfigView, l: Seq<char>)
    requires
        fields(trimmed(l, CharClass::Whitespace), CharClass::Whitespace).len() >= 3,
        fields(trimmed(l, CharClass::Whitespace), CharClass::Whitespace)[0] == "option"@,
    ensures
        uci_step((c, true), l) == (
            apply_uci_option(
                c,
                "option"@,
                fields(trimmed(l, CharClass::Whitespace), CharClass::Whitespace)[1],
                option_value(l),
            ),
            true,
        ),
{
    let t = trimmed(l, CharClass::Whitespace);
    lemma_trimmed_ends(l);
    lemma_first_field_starts_text(t);
    reveal_strlit("option");
    reveal_strlit("config");
    assert(t[0] == 'o');
    assert(!starts_with(t, "config"@)) by {
        if starts_with(t, "config"@) {
            assert(t.subrange(0, 6)[0] == t[0]);
        }
    }
}

/// Inside the `sideroute` section, `option enabled <v>` switches the daemon
/// on exactly when the value is `1`, or `true` or `yes` in any ASCII case,
/// and off for any other value, whatever it was before; nothing else changes.
pub proof fn lemma_enabled_option(c: ConfigView, l: Seq<char>)
    requires
        fields(trimmed(l, CharClass::Whitespace), CharClass::Whitespace).len() >= 3,
        fields(trimmed(l, CharClass::Whitespace), CharClass::Whitespace)[0] == "option"@,
        fields(trimmed(l, CharClass::Whitespace), CharClass::Whitespace)[1] == "enabled"@,
    ensures
        uci_step((c, true), l) == (
            ConfigView {
                enabled: option_value(l) == "1"@ || eq_ignore_ascii_case(option_value(l), "true"@)
                    || eq_ignore_ascii_case(option_value(l), "yes"@),
                ..c
            },
            true,
        ),
{
    lemma_option_line(c, l);
}

/// Inside the `sideroute` section, `option hijack_dns <v>`, `option
/// enable_ipv4 <v>` and `option enable_ipv6 <v>` set their switch to whether
/// the value is `1` or `true` in any ASCII case, whatever it was before: a
/// value such as `0` switches it off. Nothing else changes.
pub proof fn lemma_switch_options(c: ConfigView, l: Seq<char>)
    requires
        fields(trimmed(l, CharClass::Whitespace), CharClass::Whitespace).len() >= 3,
        fields(trimmed(l, CharClass::Whitespace), CharClass::Whitespace)[0] == "option"@,
    ensures
        ({
            let key = fields(trimmed(l, CharClass::Whitespace), CharClass::Whitespace)[1];
            let on = option_value(l) == "1"@ || eq_ignore_ascii_case(option_value(l), "true"@);
            &&& key == "hijack_dns"@ ==> uci_step((c, true), l) == (
                ConfigView { hijack_dns: on, ..c },
                true,
            )
            &&& key == "enable_ipv4"@ ==> uci_step((c, true), l) == (
                ConfigView { enable_ipv4: on, ..c },
                true,
            )
            &&& key == "enable_ipv6"@ ==> uci_step((c, true), l) == (
                ConfigView { enable_ipv6: on, ..c },
                true,
            )
        }),
{
    lemma_option_line(c, l);
    reveal_strlit("enabled");
    reveal_strlit("side_mac");
    reveal_strlit("side_ipv4");
    reveal_strlit("table_id");
    reveal_strlit("mark_id");
    reveal_strlit("wan_interface");
    reveal_strlit("lan_interface");
    reveal_strlit("check_interval");
    reveal_strlit("hijack_dns");
    reveal_strlit("enable_ipv4");
    reveal_strlit("enable_ipv6");
}

/// `v` with surrounding single quotes, then surrounding double quotes, removed.
fn unquote(v: &Vec<char>) -> (r: Vec<char>)
    ensures
        r@ == unquoted(v@),
{
    let a = trim(v, &CharClass::Exactly('\''));
    trim(&a, &CharClass::Exactly('"'))
}

/// Whether `v` switches a feature on.
fn is_switch_on(v: &Vec<char>) -> (r: bool)
    ensures
        r == switch_on(v@),
{
    is_text(v, "1") || is_text_ignoring_case(v, "true")
}

impl AppConfig {
    /// Applies one `option` or `list` line of the `sideroute` section.
    #[verifier::rlimit(40)]
    fn apply_option(&mut self, kind: &Vec<char>, key: &Vec<char>, val: &Vec<char>)
        ensures
            final(self)@ == apply_uci_option(old(self)@, kind@, key@, val@),
    {
        let opt = is_text(kind, "option");
        if opt && is_text(key, "enabled") {
            self.enabled = is_switch_on(val) || is_text_ignoring_case(val, "yes");
        } else if opt && is_text(key, "side_mac") {
            self.side_router_mac = string_of(val);
        } else if opt && is_text(key, "side_ipv4") {
            let v = trim(val, &CharClass::Whitespace);
            if v.len() > 0 {
                self.side_router_ipv4 = Some(string_of(&v));
            } else {
                self.side_router_ipv4 = None;
            }
        } else if opt && is_text(key, "table_id") {
            if let Some(n) = parse_u32(val) {
                self.table_id = n;
            }
        } else if opt && is_text(key, "mark_id") {
            if let Some(n) = parse_u32(val) {
                self.mark_id = n;
            }
        } else if opt && is_text(key, "wan_interface") {
            self.wan_interface = string_of(val);
        } else if opt && is_text(key, "lan_interface") {
            self.lan_interface = string_of(val);
        } else if opt && is_text(key, "check_interval") {
            if let Some(n) = parse_u64(val) {
                self.check_interval_secs = n;
            }
        } else if opt && is_text(key, "hijack_dns") {
            self.hijack_dns = is_switch_on(val);
        } else if opt && is_text(key, "enable_ipv4") {
            self.enable_ipv4 = is_switch_on(val);
        } else if opt && is_text(key, "enable_ipv6") {
            self.enable_ipv6 = is_switch_on(val);
        } else if (opt || is_text(kind, "list")) && is_text(key, "client_mac") {
            let items = split_fields(val, &CharClass::CommaOrWhitespace);
            let ghost base = string_views(self.client_macs@);
            let ghost before = self@;
            let mut j: usize = 0;
            while j < items.len()
                invariant
                    j <= items.len(),
                    self@ == (ConfigView { client_macs: self@.client_macs, ..before }),
                    string_views(self.client_macs@) == base + char_views(items@).take(j as int),
                decreases items.len() - j,
            {
                let ghost prev = self.client_macs@;
                self.client_macs.push(string_of(&items[j]));
                assert(string_views(self.client_macs@) == string_views(prev).push(items[j as int]@));
                assert(char_views(items@).take(j + 1) == char_views(items@).take(j as int).push(
                    items[j as int]@,
                ));
                j = j + 1;
            }
            assert(char_views(items@).take(items.len() as int) == char_views(items@));
        }
    }

    /// Reads the configuration from the text of a UCI file: the options of the
    /// `config sideroute` section set the matching fields over the defaults,
    /// `list client_mac` entries add client MAC addresses, and the MAC
    /// addresses are then put in normal form.
    #[verifier::rlimit(40)]
    pub fn parse_uci(content: &str) -> (r: Option<Self>)
        ensures
            r is Some,
            r->0@ == uci_config(content@),
            ascii_macs(uci_fold(lines(content@)).0) ==> ascii_normal(r->0@),
    {
        let text = chars_of(content);
        let ls = split_lines(&text);
        let mut cfg = AppConfig::default();
        let mut in_section = false;
        let mut i: usize = 0;
        while i < ls.len()
            invariant
                i <= ls.len(),
                char_views(ls@) == lines(content@),
                (cfg@, in_section) == uci_fold(char_views(ls@).take(i as int)),
            decreases ls.len() - i,
        {
            assert(char_views(ls@).take(i + 1).drop_last() == char_views(ls@).take(i as int));
            assert(char_views(ls@).take(i + 1).last() == ls[i as int]@);
            let line = trim(&ls[i], &CharClass::Whitespace);
            if line.len() == 0 || line[0] == '#' {
            } else if begins_with(&line, "config") {
                let parts = split_fields(&line, &CharClass::Whitespace);
                in_section = parts.len() >= 2 && is_text(&unquote(&parts[1]), "sideroute");
            } else if in_section {
                let parts = split_fields(&line, &CharClass::Whitespace);
                if parts.len() >= 3 {
                    let joined = join_chars(&parts, 2, ' ');
                    let val = unquote(&trim(&joined, &CharClass::Whitespace));
                    cfg.apply_option(&parts[0], &parts[1], &val);
                }
            }
            i = i + 1;
        }
        assert(char_views(ls@).take(ls.len() as int) == char_views(ls@));
        cfg.normalize();
        Some(cfg)
    }

    /// The pause between two rounds of the daemon, in seconds: the configured
    /// check interval, but at least one second.
    pub fn poll_interval_secs(&self) -> (r: u64)
        ensures
            r == if self.check_interval_secs >= 1 {
                self.check_interval_secs
            } else {
                1
            },
    {
        if self.check_interval_secs >= 1 {
            self.check_interval_secs
        } else {
            1
        }
    }

    /// Chooses the configuration from what could be read: the UCI text when the
    /// UCI file was read, else the configuration decoded from the TOML file
    /// with its MAC addresses put in normal form, else the defaults with
    /// theirs put in normal form.
    pub fn load_from(uci_text: Option<&str>, toml_config: Option<AppConfig>) -> (r: AppConfig)
        ensures
            uci_text is Some ==> r@ == uci_config(uci_text->0@),
            uci_text is None && toml_config is Some ==> r@ == normalized(toml_config->0@),
            uci_text is None && toml_config is None ==> r@ == normalized(default_view()),
            uci_text is Some ==> (ascii_macs(uci_fold(lines(uci_text->0@)).0) ==> ascii_normal(
                r@,
            )),
            uci_text is None && toml_config is Some ==> (ascii_macs(toml_config->0@)
                ==> ascii_normal(r@)),
            uci_text is None && toml_config is None ==> r@ == default_view(),
    {
        if let Some(text) = uci_text {
            if let Some(cfg) = Self::parse_uci(text) {
                return cfg;
            }
        }
        match toml_config {
            Some(cfg) => {
                let mut cfg = cfg;
                cfg.normalize();
                cfg
            },
            None => {
                let mut cfg = Self::default();
                proof {
                    lemma_default_ascii_normal();
                }
                cfg.normalize();
                cfg
            },
        }
    }
}

} // verus!
