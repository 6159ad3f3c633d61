//! Character-level text handling: the views of whitespace, trimming, splitting
//! into fields and lines, prefix and substring tests, and unsigned decimal
//! numbers, each with an executable counterpart proved against it.
use vstd::prelude::*;
use vstd::string::*;

verus! {

/// A class of characters that trimming and splitting work with.
pub enum CharClass {
    /// Characters with the Unicode `White_Space` property.
    Whitespace,
    /// One given character.
    Exactly(char),
    /// A comma or a whitespace character.
    CommaOrWhitespace,
}

/// The Unicode `White_Space` property, the set that `char::is_whitespace` tests.
pub open spec fn is_ws(c: char) -> bool {
    let u = c as int;
    ||| 9 <= u <= 13
    ||| u == 32
    ||| u == 0x85
    ||| u == 0xa0
    ||| u == 0x1680
    ||| 0x2000 <= u <= 0x200a
    ||| u == 0x2028
    ||| u == 0x2029
    ||| u == 0x202f
    ||| u == 0x205f
    ||| u == 0x3000
}

pub open spec fn in_class(k: CharClass, c: char) -> bool {
    match k {
        CharClass::Whitespace => is_ws(c),
        CharClass::Exactly(x) => c == x,
        CharClass::CommaOrWhitespace => c == ',' || is_ws(c),
    }
}

/// `s` without its leading characters of class `k`.
pub open spec fn trim_front(s: Seq<char>, k: CharClass) -> Seq<char>
    decreases s.len(),
{
    if s.len() > 0 && in_class(k, s[0]) {
        trim_front(s.drop_first(), k)
    } else {
        s
    }
}

/// `s` without its trailing characters of class `k`.
pub open spec fn trim_back(s: Seq<char>, k: CharClass) -> Seq<char>
    decreases s.len(),
{
    if s.len() > 0 && in_class(k, s.last()) {
        trim_back(s.drop_last(), k)
    } else {
        s
    }
}

/// `s` without leading and trailing characters of class `k`
/// (`str::trim` for whitespace, `str::trim_matches` for one character).
pub open spec fn trimmed(s: Seq<char>, k: CharClass) -> Seq<char> {
    trim_back(trim_front(s, k), k)
}

/// Scanning `s` from the front: the fields finished so far and the field in progress.
pub open spec fn field_scan(s: Seq<char>, k: CharClass) -> (Seq<Seq<char>>, Seq<char>)
    decreases s.len(),
{
    if s.len() == 0 {
        (seq![], seq![])
    } else {
        let p = field_scan(s.drop_last(), k);
        if in_class(k, s.last()) {
            if p.1.len() > 0 {
                (p.0.push(p.1), seq![])
            } else {
                (p.0, seq![])
            }
        } else {
            (p.0, p.1.push(s.last()))
        }
    }
}

/// The maximal non-empty runs of `s` free of characters of class `k`, in order
/// (`str::split_whitespace` for whitespace).
pub open spec fn fields(s: Seq<char>, k: CharClass) -> Seq<Seq<char>> {
    let p = field_scan(s, k);
    if p.1.len() > 0 {
        p.0.push(p.1)
    } else {
        p.0
    }
}

/// `s` without one trailing carriage return.
pub open spec fn strip_cr(s: Seq<char>) -> Seq<char> {
    if s.len() > 0 && s.last() == '\r' {
        s.drop_last()
    } else {
        s
    }
}

/// Scanning `s` from the front: the lines ended by a newline so far, and the
/// text after the last newline.
pub open spec fn line_scan(s: Seq<char>) -> (Seq<Seq<char>>, Seq<char>)
    decreases s.len(),
{
    if s.len() == 0 {
        (seq![], seq![])
    } else {
        let p = line_scan(s.drop_last());
        if s.last() == '\n' {
            (p.0.push(strip_cr(p.1)), seq![])
        } else {
            (p.0, p.1.push(s.last()))
        }
    }
}

/// The lines of `s` as `str::lines` gives them: split at each `\n`, a `\r`
/// right before a `\n` dropped, and no empty line after a final `\n`.
pub open spec fn lines(s: Seq<char>) -> Seq<Seq<char>> {
    let p = line_scan(s);
    if p.1.len() > 0 {
        p.0.push(p.1)
    } else {
        p.0
    }
}

/// Text without a newline is one unfinished line.
pub proof fn lemma_line_scan_no_newline(l: Seq<char>)
    requires
        !l.contains('\n'),
    ensures
        line_scan(l) == (Seq::<Seq<char>>::empty(), l),
    decreases l.len(),
{
    if l.len() > 0 {
        let init = l.drop_last();
        assert(!init.contains('\n')) by {
            if init.contains('\n') {
                let i = choose|i: int| 0 <= i < init.len() && init[i] == '\n';
                assert(l[i] == '\n');
            }
        }
        lemma_line_scan_no_newline(init);
        assert(l[l.len() - 1] != '\n');
        assert(init.push(l.last()) == l);
    }
}

/// Scanning text that follows a newline starts afresh: the lines of `p + q`
/// are those that `p` ends and then those of `q`.
pub proof fn lemma_line_scan_append(p: Seq<char>, q: Seq<char>)
    requires
        p.len() > 0,
        p.last() == '\n',
    ensures
        line_scan(p + q) == (line_scan(p).0 + line_scan(q).0, line_scan(q).1),
    decreases q.len(),
{
    if q.len() == 0 {
        assert(p + q == p);
        assert(line_scan(p).0 + Seq::<Seq<char>>::empty() == line_scan(p).0);
    } else {
        lemma_line_scan_append(p, q.drop_last());
        assert((p + q).drop_last() == p + q.drop_last());
        assert((p + q).last() == q.last());
        let a = line_scan(p).0;
        let b = line_scan(q.drop_last());
        assert((a + b.0).push(strip_cr(b.1)) == a + b.0.push(strip_cr(b.1)));
    }
}

/// The lines of `p + q`, where `p` ends with a newline.
pub proof fn lemma_lines_append(p: Seq<char>, q: Seq<char>)
    requires
        p.len() > 0,
        p.last() == '\n',
    ensures
        lines(p + q) == line_scan(p).0 + lines(q),
{
    lemma_line_scan_append(p, q);
    let a = line_scan(p).0;
    let b = line_scan(q);
    assert((a + b.0).push(b.1) == a + b.0.push(b.1));
}

/// One line without a newline, followed by a newline, is one line with a
/// trailing carriage return dropped.
pub proof fn lemma_single_line(l: Seq<char>)
    requires
        !l.contains('\n'),
    ensures
        line_scan(l.push('\n')) == (seq![strip_cr(l)], Seq::<char>::empty()),
{
    lemma_line_scan_no_newline(l);
    assert(l.push('\n').drop_last() == l);
}

/// Trailing whitespace does not change what trimming whitespace gives.
pub proof fn lemma_trim_drops_trailing_ws(s: Seq<char>)
    requires
        s.len() > 0,
        is_ws(s.last()),
    ensures
        trimmed(s, CharClass::Whitespace) == trimmed(s.drop_last(), CharClass::Whitespace),
    decreases s.len(),
{
    let k = CharClass::Whitespace;
    if s.len() == 1 {
        assert(trim_front(s, k) == trim_front(s.drop_first(), k));
        assert(s.drop_first().len() == 0);
        assert(s.drop_last().len() == 0);
    } else if is_ws(s[0]) {
        let t = s.drop_first();
        lemma_trim_drops_trailing_ws(t);
        assert(t.drop_last() == s.drop_last().drop_first());
        assert(s.drop_last()[0] == s[0]);
        assert(trim_front(s.drop_last(), k) == trim_front(s.drop_last().drop_first(), k));
    } else {
        assert(s.drop_last()[0] == s[0]);
        assert(trim_front(s, k) == s);
        assert(trim_front(s.drop_last(), k) == s.drop_last());
    }
}

pub open spec fn starts_with(s: Seq<char>, p: Seq<char>) -> bool {
    s.len() >= p.len() && s.subrange(0, p.len() as int) == p
}

pub open spec fn occurs_at(h: Seq<char>, n: Seq<char>, i: int) -> bool {
    0 <= i && i + n.len() <= h.len() && h.subrange(i, i + n.len()) == n
}

/// `n` occurs somewhere in `h` (`str::contains`).
pub open spec fn contains(h: Seq<char>, n: Seq<char>) -> bool {
    exists|i: int| #[trigger] occurs_at(h, n, i)
}

/// The code of `c` with ASCII upper-case letters folded to lower case.
pub open spec fn ascii_fold(c: char) -> int {
    if 65 <= c as int <= 90 {
        c as int + 32
    } else {
        c as int
    }
}

/// `a` and `b` are equal up to ASCII case (`str::eq_ignore_ascii_case`).
pub open spec fn eq_ignore_ascii_case(a: Seq<char>, b: Seq<char>) -> bool {
    a.len() == b.len() && forall|i: int| 0 <= i < a.len() ==> ascii_fold(a[i]) == ascii_fold(b[i])
}

/// The parts joined with one `sep` between each two (`[&str]::join`).
pub open spec fn join(parts: Seq<Seq<char>>, sep: char) -> Seq<char>
    decreases parts.len(),
{
    if parts.len() == 0 {
        seq![]
    } else if parts.len() == 1 {
        parts[0]
    } else {
        join(parts.drop_last(), sep).push(sep) + parts.last()
    }
}

pub open spec fn is_digit(c: char) -> bool {
    48 <= c as int <= 57
}

pub open spec fn all_digits(s: Seq<char>) -> bool {
    forall|i: int| 0 <= i < s.len() ==> is_digit(#[trigger] s[i])
}

/// The number that the decimal digits `s` write.
pub open spec fn digits_value(s: Seq<char>) -> nat
    decreases s.len(),
{
    if s.len() == 0 {
        0
    } else {
        digits_value(s.drop_last()) * 10 + (s.last() as int - 48) as nat
    }
}

/// `s` without one leading `+`.
pub open spec fn unsigned_body(s: Seq<char>) -> Seq<char> {
    if s.len() > 0 && s[0] == '+' {
        s.drop_first()
    } else {
        s
    }
}

/// What `FromStr` of an unsigned integer type whose largest value is `max`
/// gives for `s`: an optional `+`, then one or more ASCII digits, whose value
/// is at most `max`.
pub open spec fn parse_unsigned(s: Seq<char>, max: nat) -> Option<nat> {
    let b = unsigned_body(s);
    if b.len() > 0 && all_digits(b) && digits_value(b) <= max {
        Some(digits_value(b))
    } else {
        None
    }
}

pub open spec fn digit_char(d: nat) -> char {
    if d == 0 {
        '0'
    } else if d == 1 {
        '1'
    } else if d == 2 {
        '2'
    } else if d == 3 {
        '3'
    } else if d == 4 {
        '4'
    } else if d == 5 {
        '5'
    } else if d == 6 {
        '6'
    } else if d == 7 {
        '7'
    } else if d == 8 {
        '8'
    } else {
        '9'
    }
}

/// The decimal text of `n`, as `Display` writes an unsigned integer.
pub open spec fn decimal(n: nat) -> Seq<char>
    decreases n,
{
    if n < 10 {
        seq![digit_char(n)]
    } else {
        decimal(n / 10).push(digit_char(n % 10))
    }
}

/// The views of a sequence of character vectors.
pub open spec fn char_views(v: Seq<Vec<char>>) -> Seq<Seq<char>> {
    v.map_values(|x: Vec<char>| x@)
}

/// The views of a sequence of strings.
pub open spec fn string_views(v: Seq<String>) -> Seq<Seq<char>> {
    v.map_values(|x: String| x@)
}

/// An optional string by its view.
pub open spec fn opt_view(o: Option<String>) -> Option<Seq<char>> {
    match o {
        Some(s) => Some(s@),
        None => None,
    }
}

/// Names what `str::to_lowercase` returns for a string: its lower-case
/// form according to the Unicode Derived Core Property `Lowercase`.
pub uninterp spec fn unicode_lowercase(s: Seq<char>) -> Seq<char>;

/// The ASCII lower-case form of `c`: `A`..`Z` become `a`..`z`, every
/// other character stays.
pub open spec fn ascii_lower(c: char) -> char {
    if 65 <= c as int <= 90 {
        ((c as int) + 32) as char
    } else {
        c
    }
}

/// Every character is ASCII.
pub open spec fn all_ascii(s: Seq<char>) -> bool {
    forall|i: int| 0 <= i < s.len() ==> (#[trigger] s[i] as int) < 128
}

/// `s` with each character in its ASCII lower-case form.
pub open spec fn ascii_lowered(s: Seq<char>) -> Seq<char> {
    s.map_values(|c: char| ascii_lower(c))
}

/// `str::to_lowercase`. Its result is named `unicode_lowercase` of the text.
/// Of ASCII text it states what the Unicode lower-case mapping does there:
/// the letters `A`..`Z` become `a`..`z` and every other character stays.
#[verifier::external_body]
pub fn to_lowercase(s: &str) -> (r: String)
    ensures
        r@ == unicode_lowercase(s@),
        all_ascii(s@) ==> r@ == ascii_lowered(s@),
{
    s.to_lowercase()
}

/// ASCII lower-casing keeps text ASCII and changes nothing the second time.
pub proof fn lemma_ascii_lowered(s: Seq<char>)
    requires
        all_ascii(s),
    ensures
        all_ascii(ascii_lowered(s)),
        ascii_lowered(ascii_lowered(s)) == ascii_lowered(s),
{
    let t = ascii_lowered(s);
    assert forall|i: int| 0 <= i < t.len() implies (#[trigger] t[i] as int) < 128
        && ascii_lower(t[i]) == t[i] by {
        assert(t[i] == ascii_lower(s[i]));
        assert((s[i] as int) < 128);
    }
    assert(ascii_lowered(t) == t);
}

/// Text whose ends are no whitespace is its own trimmed form.
pub proof fn lemma_trimmed_fixed(s: Seq<char>)
    requires
        s.len() > 0 ==> !is_ws(s[0]) && !is_ws(s.last()),
    ensures
        trimmed(s, CharClass::Whitespace) == s,
{
}

/// Trimmed text ends in no whitespace.
pub proof fn lemma_trimmed_ends(x: Seq<char>)
    ensures
        trimmed(x, CharClass::Whitespace).len() > 0 ==> !is_ws(
            trimmed(x, CharClass::Whitespace)[0],
        ) && !is_ws(trimmed(x, CharClass::Whitespace).last()),
    decreases x.len(),
{
    let k = CharClass::Whitespace;
    if x.len() > 0 && is_ws(x[0]) {
        lemma_trimmed_ends(x.drop_first());
    } else {
        lemma_trim_back_prefix(x);
    }
}

/// Trimming the end of `u` leaves a prefix of `u` whose last character is no whitespace.
proof fn lemma_trim_back_prefix(u: Seq<char>)
    ensures
        trim_back(u, CharClass::Whitespace).len() <= u.len(),
        trim_back(u, CharClass::Whitespace) == u.take(trim_back(u, CharClass::Whitespace).len() as int),
        trim_back(u, CharClass::Whitespace).len() > 0 ==> !is_ws(
            trim_back(u, CharClass::Whitespace).last(),
        ),
    decreases u.len(),
{
    if u.len() > 0 && is_ws(u.last()) {
        lemma_trim_back_prefix(u.drop_last());
        let t = trim_back(u.drop_last(), CharClass::Whitespace);
        assert(u.drop_last().take(t.len() as int) == u.take(t.len() as int));
    } else {
        assert(u.take(u.len() as int) == u);
    }
}

/// ASCII lower-casing keeps whitespace whitespace and other characters not.
pub proof fn lemma_ascii_lower_keeps_ws(s: Seq<char>)
    ensures
        forall|i: int| 0 <= i < s.len() ==> is_ws(#[trigger] ascii_lowered(s)[i]) == is_ws(s[i]),
{
    assert forall|i: int| 0 <= i < s.len() implies is_ws(#[trigger] ascii_lowered(s)[i]) == is_ws(
        s[i],
    ) by {
        assert(ascii_lowered(s)[i] == ascii_lower(s[i]));
    }
}

/// `String::push`: appends one character.
#[verifier::external_body]
pub fn push_char(s: &mut String, c: char)
    ensures
        final(s)@ == old(s)@.push(c),
{
    s.push(c);
}

/// The characters of `s`, in order.
pub fn chars_of(s: &str) -> (v: Vec<char>)
    ensures
        v@ == s@,
{
    let mut v: Vec<char> = Vec::new();
    for c in it: s.chars()
        invariant
            v@ == it.seq().take(it.index() as int),
    {
        v.push(c);
    }
    v
}

/// Appends the characters of `v` to `out`.
pub fn push_chars(out: &mut String, v: &Vec<char>)
    ensures
        final(out)@ == old(out)@ + v@,
{
    let mut i: usize = 0;
    while i < v.len()
        invariant
            i <= v.len(),
            out@ == old(out)@ + v@.take(i as int),
        decreases v.len() - i,
    {
        push_char(out, v[i]);
        assert(v@.take(i + 1) == v@.take(i as int).push(v@[i as int]));
        i = i + 1;
    }
    assert(v@.take(v.len() as int) == v@);
}

/// A string of the characters of `v`.
pub fn string_of(v: &Vec<char>) -> (s: String)
    ensures
        s@ == v@,
{
    let mut s = String::new();
    push_chars(&mut s, v);
    s
}

/// `char::is_whitespace`.
pub fn is_whitespace(c: char) -> (b: bool)
    ensures
        b == is_ws(c),
{
    ('\t' <= c && c <= '\r') || c == ' ' || c == '\u{85}' || c == '\u{a0}' || c == '\u{1680}' || (
    '\u{2000}' <= c && c <= '\u{200a}') || c == '\u{2028}' || c == '\u{2029}' || c == '\u{202f}'
        || c == '\u{205f}' || c == '\u{3000}'
}

pub fn char_in_class(k: &CharClass, c: char) -> (b: bool)
    ensures
        b == in_class(*k, c),
{
    match k {
        CharClass::Whitespace => is_whitespace(c),
        CharClass::Exactly(x) => c == *x,
        CharClass::CommaOrWhitespace => c == ',' || is_whitespace(c),
    }
}

/// The characters of `s` from index `a` up to `b`.
pub fn slice_chars(s: &Vec<char>, a: usize, b: usize) -> (r: Vec<char>)
    requires
        a <= b <= s.len(),
    ensures
        r@ == s@.subrange(a as int, b as int),
{
    let mut r: Vec<char> = Vec::new();
    let mut i = a;
    while i < b
        invariant
            a <= i <= b <= s.len(),
            r@ == s@.subrange(a as int, i as int),
        decreases b - i,
    {
        r.push(s[i]);
        assert(s@.subrange(a as int, i + 1) == s@.subrange(a as int, i as int).push(s@[i as int]));
        i = i + 1;
    }
    r
}

/// `s` without leading and trailing characters of class `k`.
pub fn trim(s: &Vec<char>, k: &CharClass) -> (r: Vec<char>)
    ensures
        r@ == trimmed(s@, *k),
{
    let n = s.len();
    let mut i: usize = 0;
    assert(s@.subrange(0, n as int) == s@);
    while i < n && char_in_class(k, s[i])
        invariant
            i <= n == s.len(),
            trim_front(s@, *k) == trim_front(s@.subrange(i as int, n as int), *k),
        decreases n - i,
    {
        assert(s@.subrange(i as int, n as int).drop_first() == s@.subrange(i + 1, n as int));
        i = i + 1;
    }
    assert(trim_front(s@, *k) == s@.subrange(i as int, n as int));
    let mut j: usize = n;
    while j > i && char_in_class(k, s[j - 1])
        invariant
            i <= j <= n == s.len(),
            trim_back(s@.subrange(i as int, n as int), *k) == trim_back(
                s@.subrange(i as int, j as int),
                *k,
            ),
        decreases j,
    {
        assert(s@.subrange(i as int, j as int).drop_last() == s@.subrange(i as int, j - 1));
        j = j - 1;
    }
    slice_chars(s, i, j)
}

/// The maximal non-empty runs of `s` free of characters of class `k`.
pub fn split_fields(s: &Vec<char>, k: &CharClass) -> (r: Vec<Vec<char>>)
    ensures
        char_views(r@) == fields(s@, *k),
{
    let mut done: Vec<Vec<char>> = Vec::new();
    let mut cur: Vec<char> = Vec::new();
    let mut i: usize = 0;
    while i < s.len()
        invariant
            i <= s.len(),
            field_scan(s@.take(i as int), *k) == (char_views(done@), cur@),
        decreases s.len() - i,
    {
        let c = s[i];
        assert(s@.take(i + 1).drop_last() == s@.take(i as int));
        if char_in_class(k, c) {
            if cur.len() > 0 {
                let ghost old_done = done@;
                done.push(cur);
                assert(char_views(done@) == char_views(old_done).push(cur@));
                cur = Vec::new();
            }
        } else {
            cur.push(c);
        }
        i = i + 1;
    }
    assert(s@.take(s.len() as int) == s@);
    if cur.len() > 0 {
        let ghost old_done = done@;
        done.push(cur);
        assert(char_views(done@) == char_views(old_done).push(cur@));
    }
    done
}

/// `s` without one trailing carriage return.
fn drop_cr(v: Vec<char>) -> (r: Vec<char>)
    ensures
        r@ == strip_cr(v@),
{
    let mut v = v;
    if v.len() > 0 && v[v.len() - 1] == '\r' {
        v.pop();
    }
    v
}

/// The lines of `s`, as `str::lines` splits them.
pub fn split_lines(s: &Vec<char>) -> (r: Vec<Vec<char>>)
    ensures
        char_views(r@) == lines(s@),
{
    let mut done: Vec<Vec<char>> = Vec::new();
    let mut cur: Vec<char> = Vec::new();
    let mut i: usize = 0;
    while i < s.len()
        invariant
            i <= s.len(),
            line_scan(s@.take(i as int)) == (char_views(done@), cur@),
        decreases s.len() - i,
    {
        let c = s[i];
        assert(s@.take(i + 1).drop_last() == s@.take(i as int));
        if c == '\n' {
            let ghost old_done = done@;
            let line = drop_cr(cur);
            done.push(line);
            assert(char_views(done@) == char_views(old_done).push(line@));
            cur = Vec::new();
        } else {
            cur.push(c);
        }
        i = i + 1;
    }
    assert(s@.take(s.len() as int) == s@);
    if cur.len() > 0 {
        let ghost old_done = done@;
        done.push(cur);
        assert(char_views(done@) == char_views(old_done).push(cur@));
    }
    done
}

/// Whether two character vectors are equal.
pub fn same_chars(a: &Vec<char>, b: &Vec<char>) -> (r: bool)
    ensures
        r == (a@ == b@),
{
    if a.len() != b.len() {
        return false;
    }
    let mut i: usize = 0;
    while i < a.len()
        invariant
            i <= a.len() == b.len(),
            forall|j: int| 0 <= j < i ==> a@[j] == b@[j],
        decreases a.len() - i,
    {
        if a[i] != b[i] {
            return false;
        }
        i = i + 1;
    }
    assert(a@ == b@);
    true
}

/// Whether `a` holds exactly the characters of `lit`.
pub fn is_text(a: &Vec<char>, lit: &str) -> (r: bool)
    ensures
        r == (a@ == lit@),
{
    let b = chars_of(lit);
    same_chars(a, &b)
}

/// Whether `s` begins with the characters of `p`.
pub fn begins_with(s: &Vec<char>, p: &str) -> (r: bool)
    ensures
        r == starts_with(s@, p@),
{
    let pv = chars_of(p);
    if pv.len() > s.len() {
        return false;
    }
    let mut i: usize = 0;
    while i < pv.len()
        invariant
            i <= pv.len() <= s.len(),
            pv@ == p@,
            forall|j: int| 0 <= j < i ==> s@[j] == pv@[j],
        decreases pv.len() - i,
    {
        if s[i] != pv[i] {
            assert(s@.subrange(0, pv@.len() as int)[i as int] != pv@[i as int]);
            return false;
        }
        i = i + 1;
    }
    assert(s@.subrange(0, pv@.len() as int) == pv@);
    true
}

/// Whether `n` occurs in `h` at index `i`.
fn matches_at(h: &Vec<char>, n: &Vec<char>, i: usize) -> (r: bool)
    requires
        i + n.len() <= h.len(),
    ensures
        r == occurs_at(h@, n@, i as int),
{
    let mut j: usize = 0;
    while j < n.len()
        invariant
            j <= n.len(),
            i + n.len() <= h.len(),
            forall|t: int| 0 <= t < j ==> h@[i + t] == n@[t],
        decreases n.len() - j,
    {
        if h[i + j] != n[j] {
            assert(h@.subrange(i as int, i + n.len())[j as int] != n@[j as int]);
            return false;
        }
        j = j + 1;
    }
    assert(h@.subrange(i as int, i + n.len()) == n@);
    true
}

/// Whether `n` occurs somewhere in `h`.
pub fn has_substring(h: &Vec<char>, n: &Vec<char>) -> (r: bool)
    ensures
        r == contains(h@, n@),
{
    if n.len() > h.len() {
        assert forall|i: int| !occurs_at(h@, n@, i) by {}
        return false;
    }
    if n.len() == 0 {
        assert(h@.subrange(0, 0) == n@);
        assert(occurs_at(h@, n@, 0));
        return true;
    }
    let last = h.len() - n.len();
    let mut i: usize = 0;
    while i <= last
        invariant
            last + n.len() == h.len(),
            n.len() > 0,
            i <= last + 1,
            forall|t: int| 0 <= t < i ==> !occurs_at(h@, n@, t),
        decreases last + 1 - i,
    {
        if matches_at(h, n, i) {
            return true;
        }
        i = i + 1;
    }
    assert forall|t: int| !occurs_at(h@, n@, t) by {
        if 0 <= t < i {
        }
    }
    false
}

/// Whether `a` and `b` are equal up to ASCII case.
fn same_ignoring_case(a: char, b: char) -> (r: bool)
    ensures
        r == (ascii_fold(a) == ascii_fold(b)),
{
    if a == b {
        return true;
    }
    if 'A' <= a && a <= 'Z' && 'a' <= b && b <= 'z' {
        return (a as u32) + 32 == (b as u32);
    }
    if 'A' <= b && b <= 'Z' && 'a' <= a && a <= 'z' {
        return (b as u32) + 32 == (a as u32);
    }
    false
}

/// Whether `a` equals `lit` up to ASCII case.
pub fn is_text_ignoring_case(a: &Vec<char>, lit: &str) -> (r: bool)
    ensures
        r == eq_ignore_ascii_case(a@, lit@),
{
    let b = chars_of(lit);
    if a.len() != b.len() {
        return false;
    }
    let mut i: usize = 0;
    while i < a.len()
        invariant
            i <= a.len() == b.len(),
            b@ == lit@,
            forall|j: int| 0 <= j < i ==> ascii_fold(a@[j]) == ascii_fold(b@[j]),
        decreases a.len() - i,
    {
        if !same_ignoring_case(a[i], b[i]) {
            return false;
        }
        i = i + 1;
    }
    true
}

/// The parts joined with one `sep` between each two.
pub fn join_chars(parts: &Vec<Vec<char>>, from: usize, sep: char) -> (r: Vec<char>)
    requires
        from <= parts.len(),
    ensures
        r@ == join(char_views(parts@).skip(from as int), sep),
{
    let mut r: Vec<char> = Vec::new();
    let mut i: usize = from;
    while i < parts.len()
        invariant
            from <= i <= parts.len(),
            r@ == join(char_views(parts@).subrange(from as int, i as int), sep),
        decreases parts.len() - i,
    {
        let ghost before = char_views(parts@).subrange(from as int, i as int);
        let ghost after = char_views(parts@).subrange(from as int, i + 1);
        assert(after.drop_last() == before);
        if i > from {
            r.push(sep);
        }
        let mut j: usize = 0;
        let ghost base = r@;
        while j < parts[i].len()
            invariant
                i < parts.len(),
                j <= parts[i as int].len(),
                r@ == base + parts[i as int]@.take(j as int),
            decreases parts[i as int].len() - j,
        {
            r.push(parts[i][j]);
            assert(parts[i as int]@.take(j + 1) == parts[i as int]@.take(j as int).push(
                parts[i as int]@[j as int],
            ));
            j = j + 1;
        }
        assert(parts[i as int]@.take(parts[i as int].len() as int) == parts[i as int]@);
        assert(after.last() == parts[i as int]@);
        if i == from {
            assert(after.len() == 1);
            assert(r@ == after[0]);
        }
        i = i + 1;
    }
    assert(char_views(parts@).subrange(from as int, parts.len() as int) == char_views(
        parts@,
    ).skip(from as int));
    r
}

/// What `u64::from_str` gives for `s`.
pub fn parse_u64(s: &Vec<char>) -> (r: Option<u64>)
    ensures
        r is Some == parse_unsigned(s@, u64::MAX as nat) is Some,
        r is Some ==> r->0 as nat == parse_unsigned(s@, u64::MAX as nat)->0,
{
    let n = s.len();
    let start: usize = if n > 0 && s[0] == '+' {
        1
    } else {
        0
    };
    let ghost body = unsigned_body(s@);
    assert(body == s@.subrange(start as int, n as int));
    if start == n {
        return None;
    }
    let mut acc: u64 = 0;
    let mut over = false;
    let mut i: usize = start;
    while i < n
        invariant
            start <= i <= n == s.len(),
            body == s@.subrange(start as int, n as int),
            body == unsigned_body(s@),
            all_digits(body.take(i - start)),
            !over ==> acc as nat == digits_value(body.take(i - start)),
            over ==> digits_value(body.take(i - start)) > u64::MAX,
        decreases n - i,
    {
        let c = s[i];
        if !('0' <= c && c <= '9') {
            assert(body[i - start] == c);
            assert(!is_digit(body[i - start]));
            return None;
        }
        let d: u64 = ((c as u32) - 48) as u64;
        let ghost prev = body.take(i - start);
        let ghost next = body.take(i - start + 1);
        assert(next.drop_last() == prev);
        assert(next.last() == c);
        assert(digits_value(next) == digits_value(prev) * 10 + d);
        if !over {
            if acc > (u64::MAX - d) / 10 {
                assert(acc * 10 + d > u64::MAX) by (nonlinear_arith)
                    requires
                        acc > (u64::MAX - d) / 10,
                        d <= 9,
                ;
                over = true;
            } else {
                assert(acc * 10 + d <= u64::MAX) by (nonlinear_arith)
                    requires
                        acc <= (u64::MAX - d) / 10,
                        d <= 9,
                ;
                acc = acc * 10 + d;
            }
        }
        i = i + 1;
    }
    assert(body.take(n - start) == body);
    if over {
        None
    } else {
        Some(acc)
    }
}

/// What `u32::from_str` gives for `s`.
pub fn parse_u32(s: &Vec<char>) -> (r: Option<u32>)
    ensures
        r is Some == parse_unsigned(s@, u32::MAX as nat) is Some,
        r is Some ==> r->0 as nat == parse_unsigned(s@, u32::MAX as nat)->0,
{
    match parse_u64(s) {
        Some(v) => {
            if v <= u32::MAX as u64 {
                Some(v as u32)
            } else {
                None
            }
        },
        None => None,
    }
}

fn digit_of(d: u64) -> (c: char)
    requires
        d < 10,
    ensures
        c == digit_char(d as nat),
{
    if d == 0 {
        '0'
    } else if d == 1 {
        '1'
    } else if d == 2 {
        '2'
    } else if d == 3 {
        '3'
    } else if d == 4 {
        '4'
    } else if d == 5 {
        '5'
    } else if d == 6 {
        '6'
    } else if d == 7 {
        '7'
    } else if d == 8 {
        '8'
    } else {
        '9'
    }
}

/// Appends the decimal text of `n` to `out`.
pub fn push_decimal(out: &mut String, n: u64)
    ensures
        final(out)@ == old(out)@ + decimal(n as nat),
    decreases n,
{
    if n >= 10 {
        push_decimal(out, n / 10);
    }
    push_char(out, digit_of(n % 10));
}

/// Appends the characters of `lit` to `out`.
pub fn push_text(out: &mut String, lit: &str)
    ensures
        final(out)@ == old(out)@ + lit@,
{
    out.append(lit);
}

/// The scan of text that starts with no whitespace has its first field, done
/// or in progress, starting with the text's first character.
proof fn lemma_scan_first_field(s: Seq<char>)
    requires
        s.len() > 0,
        !is_ws(s[0]),
    ensures
        field_scan(s, CharClass::Whitespace).0.len() > 0 ==> field_scan(s, CharClass::Whitespace).0[0].len() > 0
            && field_scan(s, CharClass::Whitespace).0[0][0] == s[0],
        field_scan(s, CharClass::Whitespace).0.len() == 0 ==> field_scan(s, CharClass::Whitespace).1.len() > 0
            && field_scan(s, CharClass::Whitespace).1[0] == s[0],
    decreases s.len(),
{
    let k = CharClass::Whitespace;
    if s.len() == 1 {
        assert(field_scan(s.drop_last(), k) == (Seq::<Seq<char>>::empty(), Seq::<char>::empty()));
        assert(s.last() == s[0]);
    } else {
        assert(s.drop_last()[0] == s[0]);
        lemma_scan_first_field(s.drop_last());
    }
}

/// The first whitespace-separated field of text is never empty, and it
/// starts with the text's first character when that is no whitespace.
pub proof fn lemma_first_field_starts_text(s: Seq<char>)
    ensures
        fields(s, CharClass::Whitespace).len() > 0 ==> s.len() > 0,
        fields(s, CharClass::Whitespace).len() > 0 && !is_ws(s[0]) ==> fields(
            s,
            CharClass::Whitespace,
        )[0].len() > 0 && fields(s, CharClass::Whitespace)[0][0] == s[0],
{
    if s.len() == 0 {
        assert(field_scan(s, CharClass::Whitespace) == (Seq::<Seq<char>>::empty(), Seq::<char>::empty()));
    } else if !is_ws(s[0]) {
        lemma_scan_first_field(s);
    }
}

} // verus!
