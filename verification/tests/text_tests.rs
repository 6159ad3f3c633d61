use sideroute::status::{current_timestamp, DaemonStatus};
use sideroute::text::{
    chars_of, parse_u32, parse_u64, push_decimal, split_fields, split_lines, to_lowercase, trim,
    CharClass,
};

fn s(v: &[char]) -> String {
    v.iter().collect()
}

#[test]
fn lines_follow_str_lines() {
    let text = "a\r\nb\n\nc\r";
    let ls: Vec<String> = split_lines(&chars_of(text)).iter().map(|l| s(l)).collect();
    let std_ls: Vec<String> = text.lines().map(|l| l.to_string()).collect();
    assert_eq!(ls, std_ls);
    assert!(split_lines(&chars_of("")).is_empty());
    assert_eq!(split_lines(&chars_of("x\n")).len(), 1);
}

#[test]
fn fields_follow_split_whitespace() {
    let text = "  option\t name \u{3000} 'a b'  ";
    let f: Vec<String> = split_fields(&chars_of(text), &CharClass::Whitespace).iter().map(|w| s(w)).collect();
    let std_f: Vec<String> = text.split_whitespace().map(|w| w.to_string()).collect();
    assert_eq!(f, std_f);
    let t: Vec<String> = split_fields(&chars_of("a,,b c"), &CharClass::CommaOrWhitespace).iter().map(|w| s(w)).collect();
    assert_eq!(t, vec!["a", "b", "c"]);
}

#[test]
fn trimming_follows_str_trim() {
    let text = "\u{a0} x y \n";
    assert_eq!(s(&trim(&chars_of(text), &CharClass::Whitespace)), text.trim());
    assert_eq!(s(&trim(&chars_of("''a'b''"), &CharClass::Exactly('\''))), "a'b");
}

#[test]
fn numbers_follow_from_str() {
    for t in ["0", "+7", "007", "", "+", "-1", "1x", "4294967295", "4294967296", "18446744073709551615", "18446744073709551616"] {
        assert_eq!(parse_u32(&chars_of(t)), t.parse::<u32>().ok(), "{}", t);
        assert_eq!(parse_u64(&chars_of(t)), t.parse::<u64>().ok(), "{}", t);
    }
}

#[test]
fn decimal_text() {
    let mut out = String::from("n=");
    push_decimal(&mut out, 0);
    push_decimal(&mut out, 1234567890);
    assert_eq!(out, "n=01234567890");
}

#[test]
fn lowercase_changes_text() {
    assert_eq!(to_lowercase("AbC:ÉX"), "abc:éx");
}

#[test]
fn status_default_and_clock() {
    let st = DaemonStatus::default();
    assert!(!st.running && !st.online);
    assert_eq!(st.message, "Initializing...");
    assert!(st.last_check_timestamp > 1_600_000_000);
    assert!(current_timestamp() >= st.last_check_timestamp);
}
