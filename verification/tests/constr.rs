use conlang::constr::{base, unescape_str, ParseInt, UnescapeString};

fn unescape(s: &str) -> String {
    let mut u = UnescapeString::new(s.chars().collect());
    u.collect_chars().into_iter().collect()
}

fn chars(s: &str) -> Vec<char> {
    s.chars().collect()
}

#[test]
fn empty() {
    assert_eq!(unescape(""), "");
}

#[test]
fn n_newline() {
    assert_eq!(unescape("\\n"), "\n");
    assert_eq!(unescape("This is a\\ntest"), "This is a\ntest");
}

#[test]
fn a_bell() {
    assert_eq!(unescape("\\a"), "\x07");
    assert_eq!(unescape("Ring the \\abell"), "Ring the \x07bell");
}

#[test]
fn b_backspace() {
    assert_eq!(unescape("\\b"), "\x08");
}

#[test]
fn f_feed() {
    assert_eq!(unescape("\\f"), "\x0c");
}

#[test]
fn r_return() {
    assert_eq!(unescape("\\r"), "\r");
}

#[test]
fn t_tab() {
    assert_eq!(unescape("\\t"), "\t");
}

#[test]
fn _0_nul() {
    assert_eq!(unescape("\\0"), "\0");
}

#[test]
fn x_hex() {
    assert_eq!(unescape("\\x41\\x41\\x41\\x41"), "AAAA");
    assert_eq!(unescape("\x00"), "\0");
    assert_eq!(unescape("\\x7f"), "\x7f");
    assert_eq!(unescape("\\x80"), "\u{80}");
    assert_eq!(unescape("\\xD0"), "\u{D0}");
}

#[test]
fn u_unicode() {
    assert_eq!(unescape("\\u{41}"), "A");
    assert_eq!(unescape("\\u{1f988}"), "🦈");
}

#[test]
fn unknown_escape_gives_the_char() {
    assert_eq!(unescape("\\q"), "q");
}

#[test]
fn malformed_escape_stops() {
    assert_eq!(unescape("ab\\u{zz}cd"), "ab");
    assert_eq!(unescape("ab\\"), "ab");
}

#[test]
fn unescape_str_matches_iterator() {
    let s = chars("x\\ty");
    assert_eq!(unescape_str(&s), chars("x\ty"));
}

#[test]
fn unescape_one_at_a_time() {
    let mut u = UnescapeString::new(chars("a\\n"));
    assert_eq!(u.next(), Some('a'));
    assert_eq!(u.next(), Some('\n'));
    assert_eq!(u.next(), None);
}

#[test]
fn parse_u8() {
    let p = |s: &str| ParseInt::new(chars(s)).next_u8();
    assert_eq!(p("0xc5"), Some(0xc5));
    assert_eq!(p("0xc_____________________5"), Some(0xc5));
    assert_eq!(p("0x7d"), Some(0x7d));
    assert_eq!(p("0b10"), Some(0b10));
    assert_eq!(p("0o10"), Some(0o10));
    assert_eq!(p("0x10"), Some(0x10));
    assert_eq!(p("0d10"), Some(10));
    assert_eq!(p("10"), Some(10));
}

#[test]
fn parse_u16() {
    let p = |s: &str| ParseInt::new(chars(s)).next_u16();
    assert_eq!(p("0xc5c5"), Some(0xc5c5));
    assert_eq!(p("0x1234"), Some(0x1234));
    assert_eq!(p("0x5678"), Some(0x5678));
    assert_eq!(p("0x9abc"), Some(0x9abc));
    assert_eq!(p("0xdef0"), Some(0xdef0));
    assert_eq!(p("0xg"), None);
    assert_eq!(p("0b10"), Some(0b10));
    assert_eq!(p("0o10"), Some(0o10));
    assert_eq!(p("0x10"), Some(0x10));
    assert_eq!(p("0d10"), Some(10));
    assert_eq!(p("10"), Some(10));
}

#[test]
fn parse_u32() {
    let p = |s: &str| ParseInt::new(chars(s)).next_u32();
    assert_eq!(p("0xc5c5c5c5"), Some(0xc5c5c5c5));
    assert_eq!(p("0xc5_c5_c5_c5"), Some(0xc5c5c5c5));
    assert_eq!(p("1_234_567____"), Some(1234567));
    assert_eq!(p("4294967295"), Some(4294967295));
    assert_eq!(p("4294967296"), None);
    assert_eq!(p("🦈"), None);
}

#[test]
fn parse_u64() {
    let p = |s: &str| ParseInt::new(chars(s)).next_u64();
    assert_eq!(p("0xffffffffffffffff"), Some(0xffffffffffffffff));
    assert_eq!(p("0x10000000000000000"), None);
    assert_eq!(p("0xc5c5c5c5c5c5c5c5"), Some(0xc5c5c5c5c5c5c5c5));
    assert_eq!(p("0x123456789abcdef0"), Some(1311768467463790320));
    assert_eq!(p("0x123456789abcdefg"), Some(81985529216486895));
    assert_eq!(p("0d1234567890"), Some(1234567890));
    assert_eq!(p("0o12345670"), Some(2739128));
    assert_eq!(p("0b10"), Some(2));
}

#[test]
fn parse_u128() {
    let p = |s: &str| ParseInt::new(chars(s)).next_u128();
    assert_eq!(p("0x10000000000000000"), Some(0x10000000000000000));
    assert_eq!(
        p("0xc5c5c5c5c5c5c5c5c5c5c5c5c5c5c5c5"),
        Some(0xc5c5c5c5c5c5c5c5c5c5c5c5c5c5c5c5)
    );
    assert_eq!(
        p("0o77777777777777777777777777777777"),
        Some(0o77777777777777777777777777777777)
    );
}

#[test]
fn parse_signed() {
    assert_eq!(ParseInt::new(chars("127")).next_i8(), Some(127));
    assert_eq!(ParseInt::new(chars("128")).next_i8(), None);
    assert_eq!(ParseInt::new(chars("0x7fff")).next_i16(), Some(0x7fff));
    assert_eq!(ParseInt::new(chars("2147483647")).next_i32(), Some(i32::MAX));
    assert_eq!(ParseInt::new(chars("9223372036854775808")).next_i64(), None);
    assert_eq!(ParseInt::new(chars("0b11")).next_i128(), Some(3));
}

#[test]
fn parse_several() {
    let mut p = ParseInt::new(chars("12 34"));
    assert_eq!(p.next_u32(), Some(12));
    assert_eq!(p.next_u32(), Some(34));
    assert_eq!(p.next_u32(), None);
}

#[test]
fn base_digits() {
    assert_eq!(base::<10>('7'), Some(7));
    assert_eq!(base::<16>('f'), Some(15));
    assert_eq!(base::<16>('F'), Some(15));
    assert_eq!(base::<16>('g'), None);
    assert_eq!(base::<2>('2'), None);
    assert_eq!(base::<36>('z'), Some(35));
    assert_eq!(base::<36>('Z'), Some(35));
}

#[test]
fn base_rejects_other_chars() {
    assert_eq!(base::<20>('Z'), None);
    assert_eq!(base::<16>('W'), None);
    assert_eq!(base::<16>('X'), None);
    assert_eq!(base::<36>('\u{141}'), None);
    assert_eq!(base::<36>('\u{130}'), None);
    assert_eq!(base::<10>(' '), None);
    assert_eq!(base::<36>('['), None);
    assert_eq!(base::<36>('`'), None);
}

#[test]
fn decimal_text_parses_back() {
    for n in [1u128, 9, 10, 42, 1000, u64::MAX as u128, u128::MAX] {
        assert_eq!(ParseInt::new(chars(&n.to_string())).next_u128(), Some(n));
    }
    // a lone zero reads as the start of a base prefix with nothing after it
    assert_eq!(ParseInt::new(chars("0")).next_u128(), None);
}
